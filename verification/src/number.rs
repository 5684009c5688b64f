use vstd::prelude::*;

verus! {

/// The sign bit of a double.
pub const SIGN: u64 = 0x8000_0000_0000_0000u64;

/// The bits of positive infinity: every magnitude above it is a NaN.
pub const INFINITY: u64 = 0x7FF0_0000_0000_0000u64;

/// The bits without the sign.
pub open spec fn magnitude(bits: u64) -> int {
    if bits >= SIGN {
        bits - SIGN
    } else {
        bits as int
    }
}

/// Whether the bits are those of a NaN.
pub open spec fn is_nan(bits: u64) -> bool {
    magnitude(bits) > INFINITY
}

/// The place of a double that is no NaN among all of them: doubles compare as
/// their places do, and the two zeros share place 0.
pub open spec fn place(bits: u64) -> int {
    if bits >= SIGN {
        -magnitude(bits)
    } else {
        magnitude(bits)
    }
}

/// IEEE 754 equality: no NaN equals anything, the two zeros are equal.
pub open spec fn equal(left: u64, right: u64) -> bool {
    !is_nan(left) && !is_nan(right) && place(left) == place(right)
}

/// IEEE 754 `<`: false as soon as a NaN takes part.
pub open spec fn less(left: u64, right: u64) -> bool {
    !is_nan(left) && !is_nan(right) && place(left) < place(right)
}

/// IEEE 754 `<=`.
pub open spec fn less_or_equal(left: u64, right: u64) -> bool {
    !is_nan(left) && !is_nan(right) && place(left) <= place(right)
}

/// The bits of the negated double: the sign bit flipped, whatever the rest.
pub open spec fn negated(bits: u64) -> u64 {
    if bits >= SIGN {
        (bits - SIGN) as u64
    } else {
        (bits + SIGN) as u64
    }
}

pub fn check_nan(bits: u64) -> (nan: bool)
    ensures
        nan == is_nan(bits),
{
    if bits >= SIGN {
        bits - SIGN > INFINITY
    } else {
        bits > INFINITY
    }
}

fn place_of(bits: u64) -> (at: i128)
    ensures
        at == place(bits),
{
    if bits >= SIGN {
        -((bits - SIGN) as i128)
    } else {
        bits as i128
    }
}

pub fn is_equal(left: u64, right: u64) -> (same: bool)
    ensures
        same == equal(left, right),
{
    !check_nan(left) && !check_nan(right) && place_of(left) == place_of(right)
}

pub fn is_less(left: u64, right: u64) -> (below: bool)
    ensures
        below == less(left, right),
{
    !check_nan(left) && !check_nan(right) && place_of(left) < place_of(right)
}

pub fn is_less_or_equal(left: u64, right: u64) -> (below: bool)
    ensures
        below == less_or_equal(left, right),
{
    !check_nan(left) && !check_nan(right) && place_of(left) <= place_of(right)
}

pub fn negate(bits: u64) -> (flipped: u64)
    ensures
        flipped == negated(bits),
{
    if bits >= SIGN {
        bits - SIGN
    } else {
        bits + SIGN
    }
}

} // verus!
