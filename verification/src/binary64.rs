//! Screen measures are IEEE 754 binary64 numbers. The library never computes
//! with them: it carries each one by its bit pattern, so that a frame is kept
//! exactly as it was captured, and classifies it from those bits alone.

use vstd::prelude::*;

verus! {

/// The exponent field of a binary64 bit pattern.
pub const EXPONENT_MASK: u64 = 0x7FF0_0000_0000_0000;

/// The bit pattern of negative zero: the sign bit alone.
pub const NEGATIVE_ZERO: u64 = 0x8000_0000_0000_0000;

/// The bit pattern of negative infinity, the largest pattern of a negative
/// number that is not a NaN.
pub const NEGATIVE_INFINITY: u64 = 0xFFF0_0000_0000_0000;

/// The number is neither an infinity nor a NaN: its exponent field is not all
/// ones.
pub open spec fn is_finite_bits(bits: u64) -> bool {
    bits & EXPONENT_MASK != EXPONENT_MASK
}

/// The number compares below zero: its sign bit is set, it is not negative
/// zero and it is not a NaN.
pub open spec fn is_below_zero_bits(bits: u64) -> bool {
    NEGATIVE_ZERO < bits <= NEGATIVE_INFINITY
}

/// Whether the number with these bits is finite.
pub fn is_finite(bits: u64) -> (b: bool)
    ensures
        b == is_finite_bits(bits),
{
    bits & EXPONENT_MASK != EXPONENT_MASK
}

/// Whether the number with these bits is below zero.
pub fn is_below_zero(bits: u64) -> (b: bool)
    ensures
        b == is_below_zero_bits(bits),
{
    NEGATIVE_ZERO < bits && bits <= NEGATIVE_INFINITY
}

} // verus!
