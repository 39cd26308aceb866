//! Numbers as bit patterns.
//!
//! A number is the 64 bits of an IEEE 754 binary64 value. The library never
//! computes with numbers; it compares them with a few fixed values, which on
//! bit patterns is integer work.

use vstd::prelude::*;

verus! {

/// `0.0`
pub const ZERO: u64 = 0;

/// `-0.0`
pub const NEGATIVE_ZERO: u64 = 0x8000_0000_0000_0000;

/// `90.0`
pub const NINETY: u64 = 0x4056_8000_0000_0000;

/// `180.0`
pub const HALF_TURN: u64 = 0x4066_8000_0000_0000;

/// `-1.0`
pub const MINUS_ONE: u64 = 0xBFF0_0000_0000_0000;

/// The number compares equal to zero: it is `0.0` or `-0.0`.
pub open spec fn is_zero(bits: u64) -> bool {
    bits == ZERO || bits == NEGATIVE_ZERO
}

/// Whether the number compares equal to zero.
pub fn zero(bits: u64) -> (r: bool)
    ensures
        r == is_zero(bits),
{
    bits == ZERO || bits == NEGATIVE_ZERO
}

} // verus!
