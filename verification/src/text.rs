use vstd::prelude::*;
use vstd::string::StringExecFns;

verus! {

/// The numeral of one decimal digit.
pub open spec fn digit(value: nat) -> Seq<char> {
    if value == 0 {
        "0"@
    } else if value == 1 {
        "1"@
    } else if value == 2 {
        "2"@
    } else if value == 3 {
        "3"@
    } else if value == 4 {
        "4"@
    } else if value == 5 {
        "5"@
    } else if value == 6 {
        "6"@
    } else if value == 7 {
        "7"@
    } else if value == 8 {
        "8"@
    } else {
        "9"@
    }
}

/// The decimal numeral of a natural number, without leading zeros.
pub open spec fn decimal(value: nat) -> Seq<char>
    decreases value,
{
    if value < 10 {
        digit(value)
    } else {
        decimal(value / 10) + digit(value % 10)
    }
}

fn digit_text(value: u64) -> (text: &'static str)
    requires
        value < 10,
    ensures
        text@ == digit(value as nat),
{
    if value == 0 {
        "0"
    } else if value == 1 {
        "1"
    } else if value == 2 {
        "2"
    } else if value == 3 {
        "3"
    } else if value == 4 {
        "4"
    } else if value == 5 {
        "5"
    } else if value == 6 {
        "6"
    } else if value == 7 {
        "7"
    } else if value == 8 {
        "8"
    } else {
        "9"
    }
}

/// Writes a number in decimal.
pub fn to_decimal(value: u64) -> (text: String)
    ensures
        text@ == decimal(value as nat),
    decreases value,
{
    if value < 10 {
        String::from_str(digit_text(value))
    } else {
        let mut text = to_decimal(value / 10);
        text.append(digit_text(value % 10));
        text
    }
}

/// Appends one character to a text.
///
/// Wraps `String::push`, which appends the given `char` to the end of the
/// string: the text afterwards is the text before with the character added.
#[verifier::external_body]
pub(crate) fn push_char(text: &mut String, c: char)
    ensures
        final(text)@ == old(text)@.push(c),
{
    text.push(c)
}

/// The characters of a text, in order.
pub fn characters(text: &str) -> (list: Vec<char>)
    ensures
        list@ == text@,
{
    let mut list: Vec<char> = Vec::new();
    for c in rest: text.chars()
        invariant
            rest.seq() == text@,
            list@ == rest.seq().take(rest.index()),
    {
        list.push(c);
    }
    list
}

/// The text made of `list[from..to]`.
pub fn text_between(list: &Vec<char>, from: usize, to: usize) -> (text: String)
    requires
        from <= to <= list@.len(),
    ensures
        text@ == list@.subrange(from as int, to as int),
{
    let mut text = String::new();
    let mut index: usize = from;
    while index < to
        invariant
            from <= index <= to <= list@.len(),
            text@ == list@.subrange(from as int, index as int),
        decreases to - index,
    {
        push_char(&mut text, list[index]);
        index += 1;
        assert(list@.subrange(from as int, index as int) == list@.subrange(
            from as int,
            index - 1,
        ).push(list@[index - 1]));
    }
    text
}

/// Whether `list[from..to]` spells `word`.
pub fn spells_word(list: &Vec<char>, from: usize, to: usize, word: &str) -> (same: bool)
    requires
        from <= to <= list@.len(),
    ensures
        same == (list@.subrange(from as int, to as int) == word@),
{
    let length = word.unicode_len();
    if to - from != length {
        return false;
    }
    let mut index: usize = 0;
    while index < length
        invariant
            from <= to <= list@.len(),
            to - from == length,
            length == word@.len(),
            index <= length,
            forall|i: int| 0 <= i < index ==> list@[from + i] == word@[i],
        decreases length - index,
    {
        if list[from + index] != word.get_char(index) {
            assert(list@.subrange(from as int, to as int)[index as int] != word@[index as int]);
            return false;
        }
        index += 1;
    }
    assert(list@.subrange(from as int, to as int) =~= word@);
    true
}

} // verus!
