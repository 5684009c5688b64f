use vstd::prelude::*;
use crate::token_type::TokenType;

verus! {

pub open spec fn is_digit(c: char) -> bool {
    '0' <= c && c <= '9'
}

pub open spec fn is_alpha(c: char) -> bool {
    ('a' <= c && c <= 'z') || ('A' <= c && c <= 'Z') || c == '_'
}

pub open spec fn is_alphanumeric(c: char) -> bool {
    is_alpha(c) || is_digit(c)
}

/// The runs of characters that the scanner reads to their end.
pub enum Run {
    /// Decimal digits.
    Digits,
    /// Letters, digits and underscores.
    Word,
    /// Everything up to the end of the line.
    Line,
    /// Everything up to the next double quote.
    Quoted,
}

/// Whether `c` belongs to a run of the given kind.
pub open spec fn within(run: Run, c: char) -> bool {
    match run {
        Run::Digits => is_digit(c),
        Run::Word => is_alphanumeric(c),
        Run::Line => c != '\n',
        Run::Quoted => c != '"',
    }
}

/// The first position at or after `from` whose character does not belong to
/// the run, or the end of the source.
pub open spec fn run_end(source: Seq<char>, from: int, run: Run) -> int
    decreases source.len() - from,
{
    if 0 <= from < source.len() && within(run, source[from]) {
        run_end(source, from + 1, run)
    } else {
        from
    }
}

/// The number of line breaks in `source[from..to]`.
pub open spec fn newlines(source: Seq<char>, from: int, to: int) -> int
    decreases to - from,
{
    if to <= from {
        0
    } else if 0 < to <= source.len() && source[to - 1] == '\n' {
        newlines(source, from, to - 1) + 1
    } else {
        newlines(source, from, to - 1)
    }
}

/// The reserved word that `word` spells, if it is one.
pub open spec fn keyword(word: Seq<char>) -> Option<TokenType> {
    if word == "and"@ {
        Some(TokenType::And)
    } else if word == "class"@ {
        Some(TokenType::Class)
    } else if word == "else"@ {
        Some(TokenType::Else)
    } else if word == "false"@ {
        Some(TokenType::False)
    } else if word == "for"@ {
        Some(TokenType::For)
    } else if word == "fun"@ {
        Some(TokenType::Fun)
    } else if word == "if"@ {
        Some(TokenType::If)
    } else if word == "nil"@ {
        Some(TokenType::Nil)
    } else if word == "or"@ {
        Some(TokenType::Or)
    } else if word == "print"@ {
        Some(TokenType::Print)
    } else if word == "return"@ {
        Some(TokenType::Return)
    } else if word == "super"@ {
        Some(TokenType::Super)
    } else if word == "this"@ {
        Some(TokenType::This)
    } else if word == "true"@ {
        Some(TokenType::True)
    } else if word == "var"@ {
        Some(TokenType::Var)
    } else if word == "while"@ {
        Some(TokenType::While)
    } else {
        None
    }
}

/// Whether `source` holds `c` at `at`.
pub open spec fn holds(source: Seq<char>, at: int, c: char) -> bool {
    0 <= at < source.len() && source[at] == c
}

/// Where a block comment stops.
pub struct CommentEnd {
    /// The position after the comment.
    pub end: int,
    /// The line at that position.
    pub line: int,
    /// How many openers are still unmatched there.
    pub depth: nat,
}

/// Reads on in a block comment from `at`, with `depth` openers unmatched:
/// `*/` closes the innermost, `/*` opens one more, and the comment stops when
/// none is left or the source ends.
pub open spec fn comment(source: Seq<char>, at: int, depth: nat, line: int) -> CommentEnd
    decreases source.len() - at,
{
    if depth == 0 || at < 0 || at >= source.len() {
        CommentEnd { end: at, line, depth }
    } else if source[at] == '*' && holds(source, at + 1, '/') {
        comment(source, at + 2, (depth - 1) as nat, line)
    } else if source[at] == '/' && holds(source, at + 1, '*') {
        comment(source, at + 2, depth + 1, line)
    } else if source[at] == '\n' {
        comment(source, at + 1, depth, line + 1)
    } else {
        comment(source, at + 1, depth, line)
    }
}

/// What one step of the scanner finds.
pub enum Item {
    /// A token of this kind, on the line where the step ends.
    Token(TokenType),
    /// Blank space or a comment.
    Nothing,
    /// A lexical error on the given line.
    Error { line: int, message: Seq<char> },
}

pub struct Step {
    pub item: Item,
    /// The position after what was read.
    pub end: int,
    /// The line at that position.
    pub line: int,
}

/// A token with one optional `=` behind it.
pub open spec fn with_equal(source: Seq<char>, at: int, line: int, single: TokenType, double: TokenType) -> Step {
    if holds(source, at + 1, '=') {
        Step { item: Item::Token(double), end: at + 2, line }
    } else {
        Step { item: Item::Token(single), end: at + 1, line }
    }
}

/// A number: digits, and a fraction only where a digit follows the point.
pub open spec fn number_end(source: Seq<char>, at: int) -> int {
    let whole = run_end(source, at, Run::Digits);
    if holds(source, whole, '.') && 0 <= whole + 1 < source.len() && is_digit(source[whole + 1]) {
        run_end(source, whole + 1, Run::Digits)
    } else {
        whole
    }
}

pub open spec fn word_kind(word: Seq<char>) -> TokenType {
    match keyword(word) {
        Some(kind) => kind,
        None => TokenType::Identifier,
    }
}

pub open spec fn unterminated_comment() -> Seq<char> {
    "Don't forget to close a multiline comment with closing sign: '*/'."@
}

/// The step that starts at `at`, a position inside the source, on line `line`.
#[verifier::opaque]
pub open spec fn step(source: Seq<char>, at: int, line: int) -> Step {
    let c = source[at];
    let one = at + 1;
    if c == '(' {
        Step { item: Item::Token(TokenType::LeftParen), end: one, line }
    } else if c == ')' {
        Step { item: Item::Token(TokenType::RightParen), end: one, line }
    } else if c == '{' {
        Step { item: Item::Token(TokenType::LeftBrace), end: one, line }
    } else if c == '}' {
        Step { item: Item::Token(TokenType::RightBrace), end: one, line }
    } else if c == ',' {
        Step { item: Item::Token(TokenType::Comma), end: one, line }
    } else if c == '.' {
        Step { item: Item::Token(TokenType::Dot), end: one, line }
    } else if c == '-' {
        Step { item: Item::Token(TokenType::Minus), end: one, line }
    } else if c == '+' {
        Step { item: Item::Token(TokenType::Plus), end: one, line }
    } else if c == ';' {
        Step { item: Item::Token(TokenType::Semicolon), end: one, line }
    } else if c == '*' {
        Step { item: Item::Token(TokenType::Star), end: one, line }
    } else if c == '!' {
        with_equal(source, at, line, TokenType::Bang, TokenType::BangEqual)
    } else if c == '=' {
        with_equal(source, at, line, TokenType::Equal, TokenType::EqualEqual)
    } else if c == '<' {
        with_equal(source, at, line, TokenType::Less, TokenType::LessEqual)
    } else if c == '>' {
        with_equal(source, at, line, TokenType::Greater, TokenType::GreaterEqual)
    } else if c == '/' {
        if holds(source, one, '/') {
            Step { item: Item::Nothing, end: run_end(source, at + 2, Run::Line), line }
        } else if holds(source, one, '*') {
            let stop = comment(source, at + 2, 1, line);
            if stop.depth == 0 {
                Step { item: Item::Nothing, end: stop.end, line: stop.line }
            } else {
                Step {
                    item: Item::Error { line, message: unterminated_comment() },
                    end: stop.end,
                    line: stop.line,
                }
            }
        } else {
            Step { item: Item::Token(TokenType::Slash), end: one, line }
        }
    } else if c == ' ' || c == '\r' || c == '\t' {
        Step { item: Item::Nothing, end: one, line }
    } else if c == '\n' {
        Step { item: Item::Nothing, end: one, line: line + 1 }
    } else if c == '"' {
        let quote = run_end(source, one, Run::Quoted);
        let last = line + newlines(source, one, quote);
        if quote < source.len() {
            Step { item: Item::Token(TokenType::String), end: quote + 1, line: last }
        } else {
            Step {
                item: Item::Error { line: last, message: "Unterminated string."@ },
                end: quote,
                line: last,
            }
        }
    } else if is_digit(c) {
        Step { item: Item::Token(TokenType::Number), end: number_end(source, at), line }
    } else if is_alpha(c) {
        let end = run_end(source, at, Run::Word);
        Step { item: Item::Token(word_kind(source.subrange(at, end))), end, line }
    } else {
        Step { item: Item::Error { line, message: "Unexpected character."@ }, end: one, line }
    }
}

/// A token as the scanner sees it: a kind, the part of the source it was read
/// from, and a line.
pub struct Lexeme {
    pub kind: TokenType,
    pub start: int,
    pub end: int,
    pub line: int,
}

/// A lexical error: a line and a message.
pub struct Fault {
    pub line: int,
    pub message: Seq<char>,
}

/// The tokens of `source` from position `at` on, where the line is `line`:
/// those of each step in turn, and the end-of-input token last. Every step
/// reads at least one character (`lemma_step`), which is what the recursion
/// rests on.
pub open spec fn lexemes(source: Seq<char>, at: int, line: int) -> Seq<Lexeme>
    decreases source.len() - at,
{
    if at < 0 || at >= source.len() {
        seq![Lexeme { kind: TokenType::EOF, start: source.len() as int, end: source.len() as int, line }]
    } else {
        let found = step(source, at, line);
        let rest = if at < found.end <= source.len() {
            lexemes(source, found.end, found.line)
        } else {
            seq![]
        };
        match found.item {
            Item::Token(kind) => seq![Lexeme { kind, start: at, end: found.end, line: found.line }]
                + rest,
            _ => rest,
        }
    }
}

/// The lexical errors of `source` from position `at` on, in the order in which
/// they are met.
pub open spec fn faults(source: Seq<char>, at: int, line: int) -> Seq<Fault>
    decreases source.len() - at,
{
    if at < 0 || at >= source.len() {
        seq![]
    } else {
        let found = step(source, at, line);
        let rest = if at < found.end <= source.len() {
            faults(source, found.end, found.line)
        } else {
            seq![]
        };
        match found.item {
            Item::Error { line, message } => seq![Fault { line, message }] + rest,
            _ => rest,
        }
    }
}

/// A run ends at or after its start and inside the source, on a character
/// that is not part of it.
pub proof fn lemma_run_end(source: Seq<char>, from: int, run: Run)
    requires
        0 <= from <= source.len(),
    ensures
        from <= run_end(source, from, run) <= source.len(),
        run_end(source, from, run) < source.len() ==> !within(
            run,
            source[run_end(source, from, run)],
        ),
        forall|i: int| from <= i < run_end(source, from, run) ==> within(run, #[trigger] source[i]),
    decreases source.len() - from,
{
    if from < source.len() && within(run, source[from]) {
        lemma_run_end(source, from + 1, run);
    }
}

/// A comment ends at or after the place where reading went on, inside the
/// source, and the line has grown by no more than the characters read.
pub proof fn lemma_comment(source: Seq<char>, at: int, depth: nat, line: int)
    requires
        0 <= at <= source.len(),
    ensures
        at <= comment(source, at, depth, line).end <= source.len(),
        line <= comment(source, at, depth, line).line <= line + (comment(
            source,
            at,
            depth,
            line,
        ).end - at),
        comment(source, at, depth, line).depth > 0 ==> comment(source, at, depth, line).end
            == source.len(),
    decreases source.len() - at,
{
    if depth == 0 || at >= source.len() {
    } else if source[at] == '*' && holds(source, at + 1, '/') {
        lemma_comment(source, at + 2, (depth - 1) as nat, line);
    } else if source[at] == '/' && holds(source, at + 1, '*') {
        lemma_comment(source, at + 2, depth + 1, line);
    } else if source[at] == '\n' {
        lemma_comment(source, at + 1, depth, line + 1);
    } else {
        lemma_comment(source, at + 1, depth, line);
    }
}

/// There are no more line breaks in a range than characters.
pub proof fn lemma_newlines(source: Seq<char>, from: int, to: int)
    ensures
        0 <= newlines(source, from, to),
        from <= to ==> newlines(source, from, to) <= to - from,
        to <= from ==> newlines(source, from, to) == 0,
    decreases to - from,
{
    if to > from {
        lemma_newlines(source, from, to - 1);
    }
}

/// Every step reads at least one character, stays inside the source, and
/// leaves the line no further ahead than the characters it read.
pub proof fn lemma_step(source: Seq<char>, at: int, line: int)
    requires
        0 <= at < source.len(),
    ensures
        at < step(source, at, line).end <= source.len(),
        line <= step(source, at, line).line <= line + (step(source, at, line).end - at),
        step(source, at, line).item != Item::Token(TokenType::EOF),
{
    reveal(step);
    lemma_run_end(source, at, Run::Digits);
    lemma_run_end(source, at, Run::Word);
    lemma_run_end(source, at + 1, Run::Quoted);
    lemma_newlines(source, at + 1, run_end(source, at + 1, Run::Quoted));
    let whole = run_end(source, at, Run::Digits);
    if whole + 1 <= source.len() {
        lemma_run_end(source, whole + 1, Run::Digits);
    }
    if at + 2 <= source.len() {
        lemma_run_end(source, at + 2, Run::Line);
        lemma_comment(source, at + 2, 1, line);
    }
}

/// The tokens of a source end with the end-of-input token and hold no other;
/// each stands for a part of the source, later tokens for later parts, and
/// every token but the last for a part that is not empty.
pub proof fn lemma_lexemes(source: Seq<char>, at: int, line: int)
    requires
        0 <= at <= source.len(),
    ensures
        lexemes(source, at, line).len() >= 1,
        lexemes(source, at, line).last().kind == TokenType::EOF,
        forall|i: int|
            0 <= i < lexemes(source, at, line).len() ==> {
                let lexeme = #[trigger] lexemes(source, at, line)[i];
                &&& at <= lexeme.start <= lexeme.end <= source.len()
                &&& i < lexemes(source, at, line).len() - 1 ==> lexeme.kind != TokenType::EOF
                    && lexeme.start < lexeme.end
            },
        forall|i: int, j: int|
            0 <= i < j < lexemes(source, at, line).len() ==> (#[trigger] lexemes(
                source,
                at,
                line,
            )[i]).end <= (#[trigger] lexemes(source, at, line)[j]).start,
    decreases source.len() - at,
{
    if at < source.len() {
        let found = step(source, at, line);
        lemma_step(source, at, line);
        lemma_lexemes(source, found.end, found.line);
        let rest = lexemes(source, found.end, found.line);
        let all = lexemes(source, at, line);
        match found.item {
            Item::Token(kind) => {
                assert(all == seq![Lexeme { kind, start: at, end: found.end, line: found.line }]
                    + rest);
                assert(all.last() == rest.last());
                assert forall|i: int| 0 <= i < all.len() implies {
                    let lexeme = #[trigger] all[i];
                    &&& at <= lexeme.start <= lexeme.end <= source.len()
                    &&& i < all.len() - 1 ==> lexeme.kind != TokenType::EOF && lexeme.start
                        < lexeme.end
                } by {
                    if i > 0 {
                        assert(all[i] == rest[i - 1]);
                    }
                }
                assert forall|i: int, j: int| 0 <= i < j < all.len() implies (#[trigger] all[i]).end
                    <= (#[trigger] all[j]).start by {
                    assert(all[j] == rest[j - 1]);
                    if i > 0 {
                        assert(all[i] == rest[i - 1]);
                    }
                }
            },
            _ => {
                assert(all == rest);
            },
        }
    }
}

/// Whether `text` stands somewhere in `source`.
pub open spec fn is_part_of(text: Seq<char>, source: Seq<char>) -> bool {
    exists|start: int, end: int|
        0 <= start <= end <= source.len() && text == #[trigger] source.subrange(start, end)
}

} // verus!
