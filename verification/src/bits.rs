//! Single-precision floating point values carried as their IEEE-754 bit patterns.
//!
//! The decoders and converters never compute with floating-point values: they only move them
//! around, compare them against a few fixed thresholds, and flip their sign. All of this is
//! expressed on the 32-bit pattern, which keeps every value exact and comparable.

use vstd::prelude::*;

verus! {

/// An `f32`, stored as its IEEE-754 binary32 bit pattern (`f32::to_bits`).
#[derive(Debug, Clone, Copy, PartialEq, Eq, Structural)]
pub struct F32Bits(pub u32);

/// Bit pattern of `0.0`.
pub const ZERO_BITS: u32 = 0x0000_0000;
/// Bit pattern of `1.0`.
pub const ONE_BITS: u32 = 0x3F80_0000;
/// Bit pattern of `-0.0` (only the sign bit set).
pub const SIGN_BIT: u32 = 0x8000_0000;
/// Bit pattern of positive infinity; larger non-negative patterns are NaNs.
pub const POS_INFINITY_BITS: u32 = 0x7F80_0000;
/// Bit pattern of `-10000.0`, the "missing value" marker of reanim files.
pub const MINUS_TEN_THOUSAND_BITS: u32 = 0xC61C_4000;

/// `x > -10000.0` in IEEE-754 single precision, for the value with bit pattern `bits`.
/// Non-negative values (sign bit clear) compare greater unless they are NaN; negative values
/// compare greater exactly when their magnitude is below `10000.0`. NaNs never compare greater.
pub open spec fn spec_greater_than_missing(bits: u32) -> bool {
    if bits < SIGN_BIT {
        bits <= POS_INFINITY_BITS
    } else {
        bits < MINUS_TEN_THOUSAND_BITS
    }
}

/// `x >= 0.0` in IEEE-754 single precision: non-negative non-NaN values, and `-0.0`.
pub open spec fn spec_non_negative(bits: u32) -> bool {
    bits <= POS_INFINITY_BITS || bits == SIGN_BIT
}

/// Bit pattern of `-x`: negation flips the sign bit (for every value, NaNs included).
pub open spec fn spec_negate(bits: u32) -> u32 {
    if bits < SIGN_BIT {
        (bits + SIGN_BIT) as u32
    } else {
        (bits - SIGN_BIT) as u32
    }
}

impl F32Bits {
    /// The value `0.0`.
    pub fn zero() -> (r: F32Bits)
        ensures
            r.0 == ZERO_BITS,
    {
        F32Bits(ZERO_BITS)
    }

    /// The value `1.0`.
    pub fn one() -> (r: F32Bits)
        ensures
            r.0 == ONE_BITS,
    {
        F32Bits(ONE_BITS)
    }

    /// Is `self > -10000.0`?
    pub fn greater_than_missing(self) -> (r: bool)
        ensures
            r == spec_greater_than_missing(self.0),
    {
        if self.0 < SIGN_BIT {
            self.0 <= POS_INFINITY_BITS
        } else {
            self.0 < MINUS_TEN_THOUSAND_BITS
        }
    }

    /// Is `self >= 0.0`?
    pub fn is_non_negative(self) -> (r: bool)
        ensures
            r == spec_non_negative(self.0),
    {
        self.0 <= POS_INFINITY_BITS || self.0 == SIGN_BIT
    }

    /// The negated value `-self`.
    pub fn negate(self) -> (r: F32Bits)
        ensures
            r.0 == spec_negate(self.0),
    {
        if self.0 < SIGN_BIT {
            F32Bits(self.0 + SIGN_BIT)
        } else {
            F32Bits(self.0 - SIGN_BIT)
        }
    }
}

/// Negating twice gives back the same value.
pub proof fn lemma_negate_involutive(bits: u32)
    ensures
        spec_negate(spec_negate(bits)) == bits,
{
}

} // verus!
