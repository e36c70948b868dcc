//! The correctly rounded square root of a binary64 number.

use crate::binary::{
    bit_length, bit_length_exec, lemma_bit_length_bounds, lemma_pow2_monotone, pow2_exec,
};
use crate::binary64::{
    exponent, is_infinite, is_nan, is_zero, lemma_finite_parts, negative, significand, Binary64,
    NAN_BITS,
};
use crate::rounding::{lemma_pow2_120, MIN_EXPONENT};
use vstd::arithmetic::power2::{lemma2_to64, lemma_pow2_adds, pow2};
use vstd::prelude::*;

verus! {

/// Whether `s` is the integer part of the square root of `x`.
pub open spec fn is_integer_root(x: nat, s: nat) -> bool {
    s * s <= x && x < (s + 1) * (s + 1)
}

/// The integer part of the square root of `x`.
pub open spec fn integer_root(x: nat) -> nat {
    choose|s: nat| is_integer_root(x, s)
}

/// The square root of a number. The root of a positive finite value has 53
/// significant digits whatever the value, so its quantum is 52 places below
/// half the exponent of the value's leading digit, and its significand is the
/// root of the value scaled by that quantum twice, rounded to the nearest
/// integer. That root is never half-way between two integers.
pub open spec fn root_bits(a: u64) -> u64 {
    if is_nan(a) {
        NAN_BITS
    } else if is_zero(a) {
        a
    } else if negative(a) {
        NAN_BITS
    } else if is_infinite(a) {
        a
    } else {
        let leading = bit_length(significand(a)) - 1 + exponent(a);
        let quantum = leading / 2 - 52;
        let radicand = significand(a) * pow2((exponent(a) - 2 * quantum) as nat);
        let s = integer_root(radicand);
        let m = if radicand > s * s + s {
            s + 1
        } else {
            s
        };
        ((quantum - MIN_EXPONENT) * pow2(52) + m) as u64
    }
}

/// A number has one integer root only.
pub proof fn lemma_integer_root_unique(x: nat, s: nat)
    requires
        is_integer_root(x, s),
    ensures
        integer_root(x) == s,
{
    let r: nat = integer_root(x);
    assert(is_integer_root(x, r));
    assert(r == s) by (nonlinear_arith)
        requires
            s * s <= x,
            x < (s + 1) * (s + 1),
            r * r <= x,
            x < (r + 1) * (r + 1),
    ;
}

/// The integer part of the square root, by bisection.
fn integer_root_exec(x: u128) -> (s: u128)
    requires
        x < pow2(106),
    ensures
        s == integer_root(x as nat),
        is_integer_root(x as nat, s as nat),
        s < pow2(53),
{
    proof {
        lemma2_to64();
        lemma_pow2_adds(32, 21);
        lemma_pow2_adds(53, 53);
        lemma_pow2_monotone(106, 120);
        lemma_pow2_120();
    }
    let mut lo: u128 = 0;
    let mut hi: u128 = 0x20_0000_0000_0000;
    while hi - lo > 1
        invariant
            lo < hi <= 0x20_0000_0000_0000,
            lo * lo <= x,
            x < hi * hi,
            pow2(53) == 0x20_0000_0000_0000,
        decreases hi - lo,
    {
        let mid: u128 = lo + (hi - lo) / 2;
        assert(mid * mid <= 0x20_0000_0000_0000 * 0x20_0000_0000_0000) by (nonlinear_arith)
            requires
                mid <= 0x20_0000_0000_0000,
        ;
        if mid * mid <= x {
            lo = mid;
        } else {
            hi = mid;
        }
    }
    proof {
        lemma_integer_root_unique(x as nat, lo as nat);
    }
    lo
}

impl Binary64 {
    /// The square root, as a number.
    pub open spec fn spec_sqrt(self) -> Binary64 {
        Binary64 { bits: root_bits(self.bits) }
    }

    /// The square root, correctly rounded. The root of a negative number is
    /// NaN; the root of negative zero is negative zero.
    #[verifier::when_used_as_spec(spec_sqrt)]
    pub fn sqrt(self) -> (r: Binary64)
        ensures
            r == self.spec_sqrt(),
    {
        if self.is_nan() {
            Binary64::nan()
        } else if self.is_zero() {
            self
        } else if self.is_sign_negative() {
            Binary64::nan()
        } else if self.is_infinite() {
            self
        } else {
            let sig: u64 = self.significand();
            let exp: i64 = self.exponent();
            let digits: u32 = bit_length_exec(sig as u128);
            proof {
                lemma_finite_parts(self.bits);
                lemma_bit_length_bounds(sig as nat);
                if digits > 53 {
                    lemma_pow2_monotone(53, (digits - 1) as nat);
                }
            }
            let leading: i64 = digits as i64 - 1 + exp;
            let half: i64 = if leading >= 0 {
                leading / 2
            } else {
                -((1 - leading) / 2)
            };
            let quantum: i64 = half - 52;
            let shift: i64 = exp - 2 * quantum;
            let factor: u128 = pow2_exec(shift as u32);
            proof {
                // 52 <= shift <= 106 - digits
                lemma_pow2_adds(digits as nat, shift as nat);
                lemma_pow2_adds((digits - 1) as nat, shift as nat);
                lemma_pow2_monotone((digits + shift) as nat, 106);
                lemma_pow2_monotone(104, (digits - 1 + shift) as nat);
                lemma_pow2_monotone(106, 120);
                lemma_pow2_120();
                assert(sig * factor < pow2(digits as nat) * factor) by (nonlinear_arith)
                    requires
                        sig < pow2(digits as nat),
                        factor > 0,
                ;
                assert(pow2((digits - 1) as nat) * factor <= sig * factor) by (nonlinear_arith)
                    requires
                        pow2((digits - 1) as nat) <= sig,
                ;
            }
            let radicand: u128 = (sig as u128) * factor;
            let s: u128 = integer_root_exec(radicand);
            proof {
                // 2^104 <= radicand, so 2^52 <= s.
                lemma_pow2_adds(52, 52);
                lemma2_to64();
                lemma_pow2_adds(32, 20);
                assert(s >= pow2(52)) by (nonlinear_arith)
                    requires
                        radicand < (s + 1) * (s + 1),
                        radicand >= pow2(52) * pow2(52),
                ;
                assert(s * s + s < 0x20_0000_0000_0000 * 0x20_0000_0000_0000 + 0x20_0000_0000_0000)
                    by (nonlinear_arith)
                    requires
                        s < 0x20_0000_0000_0000,
                ;
            }
            let m: u64 = if radicand > s * s + s {
                (s + 1) as u64
            } else {
                s as u64
            };
            let steps: u64 = (quantum - MIN_EXPONENT) as u64;
            assert(steps * 0x10_0000_0000_0000 <= 1600 * 0x10_0000_0000_0000) by (nonlinear_arith)
                requires
                    steps <= 1600,
            ;
            Binary64 { bits: steps * 0x10_0000_0000_0000 + m }
        }
    }
}

} // verus!
