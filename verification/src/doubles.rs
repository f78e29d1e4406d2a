//! Double-precision numbers by their 64 bits: enough to keep them and to
//! compare them.

use vstd::prelude::*;

verus! {

/// The sign bit of a double.
pub const SIGN_BIT: u64 = 0x8000_0000_0000_0000;

/// The bits of the double positive infinity. A magnitude above it is no
/// number.
pub const INFINITY_BITS: u64 = 0x7ff0_0000_0000_0000;

/// The bits of a double without its sign.
pub open spec fn magnitude(bits: u64) -> int {
    if bits >= SIGN_BIT {
        bits - SIGN_BIT
    } else {
        bits as int
    }
}

/// Whether the bits stand for a number at all.
pub open spec fn is_number(bits: u64) -> bool {
    magnitude(bits) <= INFINITY_BITS
}

/// Whether the double with the bits `value` is greater than the positive
/// double with the bits `limit`: it is positive, it is a number, and its
/// bits are the greater ones, since positive doubles are ordered as their
/// bits are.
pub open spec fn exceeds(value: u64, limit: u64) -> bool {
    value < SIGN_BIT && is_number(value) && value > limit
}

/// Whether the double with the bits `value` is less than zero: it is
/// negative, it is a number, and it is not the negative zero.
pub open spec fn below_zero(value: u64) -> bool {
    value >= SIGN_BIT && is_number(value) && magnitude(value) != 0
}

/// Whether the double with the bits `value` is greater than the positive
/// double with the bits `limit`.
pub fn value_exceeds(value: u64, limit: u64) -> (b: bool)
    ensures
        b == exceeds(value, limit),
{
    value < SIGN_BIT && value <= INFINITY_BITS && value > limit
}

/// Whether the double with the bits `value` is less than zero.
pub fn value_below_zero(value: u64) -> (b: bool)
    ensures
        b == below_zero(value),
{
    value > SIGN_BIT && value - SIGN_BIT <= INFINITY_BITS
}

} // verus!
