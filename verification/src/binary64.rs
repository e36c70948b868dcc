//! IEEE 754 binary64 numbers, carried as their 64-bit patterns.
//!
//! A pattern holds a sign digit, eleven digits of biased exponent and 52
//! digits of fraction. Every pattern is a valid number: a finite value
//! `(-1)^sign * significand * 2^exponent`, an infinity, or a NaN.

use crate::rounding::{INFINITY_BITS, MIN_EXPONENT};
use vstd::arithmetic::power2::{lemma2_to64, lemma_pow2_adds, pow2};
use vstd::prelude::*;

verus! {

/// The sign digit.
pub const SIGN_BIT: u64 = 0x8000_0000_0000_0000;

/// Value of the implicit leading digit of a normal significand, `2^52`.
pub const HIDDEN_BIT: u64 = 0x10_0000_0000_0000;

/// The NaN that every operation of this library returns when it has no
/// number to return.
pub const NAN_BITS: u64 = 0x7FF8_0000_0000_0000;

/// Greatest exponent of a finite number's least significant digit.
pub const MAX_EXPONENT: i64 = 971;

/// The pattern without its sign digit.
pub open spec fn magnitude(bits: u64) -> u64 {
    bits % SIGN_BIT
}

/// Whether the sign digit is set.
pub open spec fn negative(bits: u64) -> bool {
    bits >= SIGN_BIT
}

/// Whether the pattern is a NaN: an exponent field of all ones over a
/// fraction that is not zero.
pub open spec fn is_nan(bits: u64) -> bool {
    magnitude(bits) > INFINITY_BITS
}

/// Whether the pattern is one of the two infinities.
pub open spec fn is_infinite(bits: u64) -> bool {
    magnitude(bits) == INFINITY_BITS
}

/// Whether the pattern is a finite number, zero or not.
pub open spec fn is_finite(bits: u64) -> bool {
    magnitude(bits) < INFINITY_BITS
}

/// Whether the pattern is one of the two zeros.
pub open spec fn is_zero(bits: u64) -> bool {
    magnitude(bits) == 0
}

/// The integer significand of a finite number: the fraction digits, with
/// the implicit leading digit where the number is normal.
pub open spec fn significand(bits: u64) -> nat {
    let mag = magnitude(bits);
    if mag / HIDDEN_BIT == 0 {
        mag as nat
    } else {
        (mag % HIDDEN_BIT + HIDDEN_BIT) as nat
    }
}

/// The exponent of the least significant digit of a finite number.
pub open spec fn exponent(bits: u64) -> int {
    let mag = magnitude(bits);
    if mag / HIDDEN_BIT == 0 {
        MIN_EXPONENT as int
    } else {
        mag / HIDDEN_BIT - 1 + MIN_EXPONENT
    }
}

/// The pattern with the given sign and magnitude.
pub open spec fn with_sign(neg: bool, mag: nat) -> u64 {
    if neg {
        (mag + SIGN_BIT) as u64
    } else {
        mag as u64
    }
}

/// A binary64 number. Two values are equal when their patterns are; the
/// numeric comparison of IEEE 754, under which the zeros are equal and a NaN
/// differs from itself, is not what `==` means here.
#[derive(Clone, Copy, Debug, PartialEq, Eq, Structural)]
pub struct Binary64 {
    pub bits: u64,
}

/// How the parts of a finite pattern relate to each other and to the
/// pattern.
pub proof fn lemma_finite_parts(bits: u64)
    requires
        is_finite(bits),
    ensures
        significand(bits) < pow2(53),
        MIN_EXPONENT <= exponent(bits) <= MAX_EXPONENT,
        exponent(bits) > MIN_EXPONENT ==> significand(bits) >= pow2(52),
        magnitude(bits) == (exponent(bits) - MIN_EXPONENT) * pow2(52) + significand(bits),
        is_zero(bits) <==> significand(bits) == 0,
        pow2(52) == HIDDEN_BIT,
        pow2(53) == 2 * HIDDEN_BIT,
{
    lemma2_to64();
    lemma_pow2_adds(32, 20);
    lemma_pow2_adds(32, 21);
    let mag: u64 = magnitude(bits);
    let biased: u64 = mag / HIDDEN_BIT;
    assert(mag == biased * HIDDEN_BIT + mag % HIDDEN_BIT);
}

impl Binary64 {
    /// Whether the number is a NaN.
    pub open spec fn spec_is_nan(self) -> bool {
        is_nan(self.bits)
    }

    /// Whether the number is an infinity.
    pub open spec fn spec_is_infinite(self) -> bool {
        is_infinite(self.bits)
    }

    /// Whether the number is finite.
    pub open spec fn spec_is_finite(self) -> bool {
        is_finite(self.bits)
    }

    /// Whether the number is a zero.
    pub open spec fn spec_is_zero(self) -> bool {
        is_zero(self.bits)
    }

    /// Positive zero.
    pub open spec fn spec_zero() -> Binary64 {
        Binary64 { bits: 0 }
    }

    /// The number with the opposite sign digit.
    pub open spec fn spec_negated(self) -> Binary64 {
        Binary64 { bits: with_sign(!negative(self.bits), magnitude(self.bits) as nat) }
    }

    /// The number with the given pattern.
    pub fn from_bits(bits: u64) -> (r: Binary64)
        ensures
            r.bits == bits,
    {
        Binary64 { bits }
    }

    /// The pattern of the number.
    pub fn to_bits(self) -> (r: u64)
        ensures
            r == self.bits,
    {
        self.bits
    }

    /// Positive zero.
    #[verifier::when_used_as_spec(spec_zero)]
    pub fn zero() -> (r: Binary64)
        ensures
            r == Binary64::spec_zero(),
    {
        Binary64 { bits: 0 }
    }

    /// The library's NaN.
    pub fn nan() -> (r: Binary64)
        ensures
            r.bits == NAN_BITS,
    {
        Binary64 { bits: NAN_BITS }
    }

    /// Whether the number is a NaN, of whatever payload.
    #[verifier::when_used_as_spec(spec_is_nan)]
    pub fn is_nan(self) -> (r: bool)
        ensures
            r == self.spec_is_nan(),
    {
        self.bits % SIGN_BIT > INFINITY_BITS
    }

    /// Whether the number is positive or negative infinity.
    #[verifier::when_used_as_spec(spec_is_infinite)]
    pub fn is_infinite(self) -> (r: bool)
        ensures
            r == self.spec_is_infinite(),
    {
        self.bits % SIGN_BIT == INFINITY_BITS
    }

    /// Whether the number is neither an infinity nor a NaN.
    #[verifier::when_used_as_spec(spec_is_finite)]
    pub fn is_finite(self) -> (r: bool)
        ensures
            r == self.spec_is_finite(),
    {
        self.bits % SIGN_BIT < INFINITY_BITS
    }

    /// Whether the number is positive or negative zero.
    #[verifier::when_used_as_spec(spec_is_zero)]
    pub fn is_zero(self) -> (r: bool)
        ensures
            r == self.spec_is_zero(),
    {
        self.bits % SIGN_BIT == 0
    }

    /// Whether the sign digit is set, which it may be on a zero or a NaN too.
    pub fn is_sign_negative(self) -> (r: bool)
        ensures
            r == negative(self.bits),
    {
        self.bits >= SIGN_BIT
    }

    /// The number with the opposite sign digit.
    #[verifier::when_used_as_spec(spec_negated)]
    pub fn negated(self) -> (r: Binary64)
        ensures
            r == self.spec_negated(),
    {
        if self.bits >= SIGN_BIT {
            Binary64 { bits: self.bits - SIGN_BIT }
        } else {
            Binary64 { bits: self.bits + SIGN_BIT }
        }
    }

    /// The integer significand of a finite number.
    pub(crate) fn significand(self) -> (r: u64)
        ensures
            r == significand(self.bits),
    {
        let mag: u64 = self.bits % SIGN_BIT;
        if mag / HIDDEN_BIT == 0 {
            mag
        } else {
            mag % HIDDEN_BIT + HIDDEN_BIT
        }
    }

    /// The exponent of the least significant digit of a finite number.
    pub(crate) fn exponent(self) -> (r: i64)
        ensures
            r == exponent(self.bits),
    {
        let mag: u64 = self.bits % SIGN_BIT;
        if mag / HIDDEN_BIT == 0 {
            MIN_EXPONENT
        } else {
            (mag / HIDDEN_BIT) as i64 - 1 + MIN_EXPONENT
        }
    }

    /// The number with the given sign and magnitude.
    pub(crate) fn assemble(neg: bool, mag: u64) -> (r: Binary64)
        requires
            mag < SIGN_BIT,
        ensures
            r.bits == with_sign(neg, mag as nat),
    {
        if neg {
            Binary64 { bits: mag + SIGN_BIT }
        } else {
            Binary64 { bits: mag }
        }
    }
}

} // verus!
