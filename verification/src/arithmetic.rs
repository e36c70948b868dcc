//! Correctly rounded addition, subtraction, multiplication and division of
//! binary64 numbers, and the conversion of a count.
//!
//! Each result is the exact result of the operation on the values of the
//! operands, rounded once. A NaN operand, or an operation without a value
//! (`inf - inf`, `0 * inf`, `0 / 0`, `inf / inf`), gives the library's NaN.

use crate::binary::{lemma_pow2_monotone, pow2_exec};
use crate::binary64::{
    exponent, is_finite, is_infinite, is_nan, is_zero, lemma_finite_parts, magnitude, negative,
    significand, with_sign, Binary64, MAX_EXPONENT, NAN_BITS,
};
use crate::rounding::{
    lemma_pow2_120, lemma_quantum_from_leading, lemma_reduced_fraction, nearest_integer,
    quantum_exponent, round_dyadic, round_magnitude, round_quotient, INFINITY_BITS, MIN_EXPONENT,
    SCALE,
};
use vstd::arithmetic::div_mod::lemma_fundamental_div_mod_converse;
use vstd::arithmetic::power2::{lemma2_to64, lemma_pow2_adds, lemma_pow2_pos, pow2};
use vstd::prelude::*;

verus! {

/// The significand of a finite number with the sign of the number.
pub open spec fn signed_significand(bits: u64) -> int {
    if negative(bits) {
        -(significand(bits) as int)
    } else {
        significand(bits) as int
    }
}

/// The sum of two finite numbers. The exact sum is an integer multiple of
/// two to the smaller exponent. An exact zero is negative only where both
/// operands are.
pub open spec fn finite_sum(a: u64, b: u64) -> u64 {
    let e = if exponent(a) <= exponent(b) {
        exponent(a)
    } else {
        exponent(b)
    };
    let total = signed_significand(a) * pow2((exponent(a) - e) as nat) + signed_significand(b)
        * pow2((exponent(b) - e) as nat);
    if total == 0 {
        with_sign(negative(a) && negative(b), 0)
    } else if total > 0 {
        with_sign(false, round_magnitude(total as nat, 1, e))
    } else {
        with_sign(true, round_magnitude((-total) as nat, 1, e))
    }
}

/// The sum of two numbers.
pub open spec fn sum_bits(a: u64, b: u64) -> u64 {
    if is_nan(a) || is_nan(b) {
        NAN_BITS
    } else if is_infinite(a) {
        if is_infinite(b) && negative(a) != negative(b) {
            NAN_BITS
        } else {
            a
        }
    } else if is_infinite(b) {
        b
    } else {
        finite_sum(a, b)
    }
}

/// The pattern of the opposite number.
pub open spec fn negated_bits(a: u64) -> u64 {
    with_sign(!negative(a), magnitude(a) as nat)
}

/// The difference of two numbers: the sum of the first and the opposite of
/// the second.
pub open spec fn difference_bits(a: u64, b: u64) -> u64 {
    sum_bits(a, negated_bits(b))
}

/// The product of two numbers.
pub open spec fn product_bits(a: u64, b: u64) -> u64 {
    let neg = negative(a) != negative(b);
    if is_nan(a) || is_nan(b) {
        NAN_BITS
    } else if is_infinite(a) || is_infinite(b) {
        if is_zero(a) || is_zero(b) {
            NAN_BITS
        } else {
            with_sign(neg, INFINITY_BITS as nat)
        }
    } else if is_zero(a) || is_zero(b) {
        with_sign(neg, 0)
    } else {
        with_sign(
            neg,
            round_magnitude(significand(a) * significand(b), 1, exponent(a) + exponent(b)),
        )
    }
}

/// The quotient of two numbers.
pub open spec fn quotient_bits(a: u64, b: u64) -> u64 {
    let neg = negative(a) != negative(b);
    if is_nan(a) || is_nan(b) {
        NAN_BITS
    } else if is_infinite(a) {
        if is_infinite(b) {
            NAN_BITS
        } else {
            with_sign(neg, INFINITY_BITS as nat)
        }
    } else if is_infinite(b) {
        with_sign(neg, 0)
    } else if is_zero(b) {
        if is_zero(a) {
            NAN_BITS
        } else {
            with_sign(neg, INFINITY_BITS as nat)
        }
    } else if is_zero(a) {
        with_sign(neg, 0)
    } else {
        with_sign(neg, round_magnitude(significand(a), significand(b), exponent(a) - exponent(b)))
    }
}

/// The number nearest to a count.
pub open spec fn count_bits(n: u64) -> u64 {
    if n == 0 {
        0
    } else {
        round_magnitude(n as nat, 1, 0) as u64
    }
}

/// Magnitude of the exact sum or difference of `high * 2^gap` and `low`.
spec fn far_total(high: nat, low: nat, gap: nat, subtract: bool) -> nat {
    if subtract {
        (high * pow2(gap) - low) as nat
    } else {
        high * pow2(gap) + low
    }
}

/// Where one operand's digits all lie more than 54 places above the other
/// operand's leading digit, their sum or difference rounds to the first
/// operand.
proof fn lemma_far_sum(high: nat, low: nat, gap: nat, e: int, subtract: bool)
    requires
        pow2(52) <= high < pow2(53),
        low < pow2(53),
        gap >= 55,
        MIN_EXPONENT <= e,
        e + gap <= MAX_EXPONENT,
    ensures
        high * pow2(gap) > low,
        round_magnitude(far_total(high, low, gap, subtract), 1, e) == (e + gap - MIN_EXPONENT)
            * pow2(52) + high,
{
    lemma2_to64();
    lemma_pow2_adds(32, 20);
    lemma_pow2_adds(32, 21);
    lemma_pow2_adds(32, 22);
    lemma_pow2_adds(32, 19);
    let p: nat = pow2(gap);
    let half: nat = pow2((gap - 1) as nat);
    lemma_pow2_adds(1, (gap - 1) as nat);
    lemma_pow2_monotone(54, (gap - 1) as nat);
    assert(p == 2 * half);
    assert(high * p >= pow2(52) * p) by (nonlinear_arith)
        requires
            high >= pow2(52),
    ;
    assert(pow2(52) * p >= p) by (nonlinear_arith)
        requires
            pow2(52) >= 1,
    ;
    let k: nat = (e + SCALE) as nat;
    lemma_pow2_pos(k);
    let c: nat = pow2(k);
    let borrow: bool = subtract && high == pow2(52) && low > 0;
    let m: nat = far_total(high, low, gap, subtract);
    if !borrow {
        // The leading digit stays where the leading digit of `high` is.
        let t: nat = 52 + gap + k;
        lemma_pow2_adds(52, gap);
        lemma_pow2_adds(53, gap);
        lemma_pow2_adds(52 + gap, k);
        lemma_pow2_adds(53 + gap, k);
        assert(pow2(52) * p <= m) by (nonlinear_arith)
            requires
                subtract ==> m == high * p - low,
                !subtract ==> m == high * p + low,
                subtract && low > 0 ==> high >= pow2(52) + 1,
                high >= pow2(52),
                low < p,
        ;
        assert(m < pow2(53) * p) by (nonlinear_arith)
            requires
                subtract ==> m == high * p - low,
                !subtract ==> m == high * p + low,
                high + 1 <= pow2(53),
                low < p,
        ;
        assert(pow2(52 + gap) * c <= m * c && m * c < pow2(53 + gap) * c) by (nonlinear_arith)
            requires
                pow2(52 + gap) <= m,
                m < pow2(53 + gap),
                c > 0,
        ;
        assert(1 * pow2(t) == pow2(t) && 1 * pow2(t + 1) == pow2(t + 1)) by (nonlinear_arith);
        lemma_quantum_from_leading(m, 1, e, t);
        let quantum: int = quantum_exponent(m, 1, e);
        assert(quantum == e + gap);
        lemma_pow2_adds(gap, k);
        assert(p * c == 1 * pow2((quantum + SCALE) as nat)) by (nonlinear_arith)
            requires
                pow2((quantum + SCALE) as nat) == p * c,
        ;
        lemma_reduced_fraction(m, 1, e, t, m, p, c);
        if subtract && low > 0 {
            assert(m == (high - 1) * p + (p - low)) by (nonlinear_arith)
                requires
                    m == high * p - low,
            ;
            lemma_fundamental_div_mod_converse(m as int, p as int, high - 1, p - low);
            assert(nearest_integer(m, p) == high);
        } else {
            assert(m == high * p + low);
            lemma_fundamental_div_mod_converse(m as int, p as int, high as int, low as int);
            assert(nearest_integer(m, p) == high);
        }
        assert((e + gap - MIN_EXPONENT) * pow2(52) + high < INFINITY_BITS) by (nonlinear_arith)
            requires
                e + gap - MIN_EXPONENT <= 2045,
                e + gap - MIN_EXPONENT >= 0,
                high < 2 * pow2(52),
                pow2(52) == 0x10_0000_0000_0000,
        ;
    } else {
        // `high` is a power of two and the difference drops one binade, where
        // it rounds back up to `high`.
        let t: nat = 51 + gap + k;
        lemma_pow2_adds(51, gap);
        lemma_pow2_adds(52, gap);
        lemma_pow2_adds(51 + gap, k);
        lemma_pow2_adds(52 + gap, k);
        lemma_pow2_adds(53, (gap - 1) as nat);
        assert(m == pow2(53) * half - low) by (nonlinear_arith)
            requires
                m == high * p - low,
                high == pow2(52),
                p == 2 * half,
                pow2(53) == 2 * pow2(52),
        ;
        assert(pow2(51) * p <= m) by (nonlinear_arith)
            requires
                m == high * p - low,
                high == 2 * pow2(51),
                low < p,
                pow2(51) >= 1,
        ;
        assert(m < pow2(52) * p) by (nonlinear_arith)
            requires
                m == high * p - low,
                high == pow2(52),
                low > 0,
        ;
        assert(pow2(51 + gap) * c <= m * c && m * c < pow2(52 + gap) * c) by (nonlinear_arith)
            requires
                pow2(51 + gap) <= m,
                m < pow2(52 + gap),
                c > 0,
        ;
        assert(1 * pow2(t) == pow2(t) && 1 * pow2(t + 1) == pow2(t + 1)) by (nonlinear_arith);
        lemma_quantum_from_leading(m, 1, e, t);
        let quantum: int = quantum_exponent(m, 1, e);
        assert(quantum == e + gap - 1);
        lemma_pow2_adds((gap - 1) as nat, k);
        assert(half * c == 1 * pow2((quantum + SCALE) as nat)) by (nonlinear_arith)
            requires
                pow2((quantum + SCALE) as nat) == half * c,
        ;
        lemma_reduced_fraction(m, 1, e, t, m, half, c);
        assert(m == (pow2(53) - 1) * half + (half - low)) by (nonlinear_arith)
            requires
                m == pow2(53) * half - low,
        ;
        lemma_fundamental_div_mod_converse(m as int, half as int, pow2(53) - 1, half - low);
        assert(nearest_integer(m, half) == pow2(53));
        assert((quantum - MIN_EXPONENT) * pow2(52) + pow2(53) == (e + gap - MIN_EXPONENT) * pow2(
            52,
        ) + high) by (nonlinear_arith)
            requires
                quantum == e + gap - 1,
                pow2(53) == 2 * pow2(52),
                high == pow2(52),
        ;
        assert((e + gap - MIN_EXPONENT) * pow2(52) + high < INFINITY_BITS) by (nonlinear_arith)
            requires
                e + gap - MIN_EXPONENT <= 2045,
                e + gap - MIN_EXPONENT >= 0,
                high < 2 * pow2(52),
                pow2(52) == 0x10_0000_0000_0000,
        ;
    }
}

/// Adds two finite numbers, the first having the larger exponent.
fn add_ordered(high: Binary64, low: Binary64) -> (r: Binary64)
    requires
        is_finite(high.bits),
        is_finite(low.bits),
        exponent(high.bits) >= exponent(low.bits),
    ensures
        r.bits == finite_sum(high.bits, low.bits),
{
    let high_sig: u64 = high.significand();
    let low_sig: u64 = low.significand();
    let high_exp: i64 = high.exponent();
    let low_exp: i64 = low.exponent();
    let high_neg: bool = high.is_sign_negative();
    let low_neg: bool = low.is_sign_negative();
    proof {
        lemma_finite_parts(high.bits);
        lemma_finite_parts(low.bits);
        lemma2_to64();
    }
    let gap: i64 = high_exp - low_exp;
    let ghost p: nat = pow2(gap as nat);
    proof {
        lemma_pow2_pos(gap as nat);
        assert((-(high_sig as int)) * p == -(high_sig * p)) by (nonlinear_arith);
        assert(high_sig > 0 ==> high_sig * p > 0) by (nonlinear_arith)
            requires
                p > 0,
        ;
        assert(0 * p == 0) by (nonlinear_arith);
        // The exact sum, in units of two to the smaller exponent.
        let low_signed: int = signed_significand(low.bits);
        assert(low_signed * pow2(0) == low_signed) by (nonlinear_arith)
            requires
                pow2(0) == 1,
        ;
    }
    if gap > 64 {
        proof {
            lemma_far_sum(
                high_sig as nat,
                low_sig as nat,
                gap as nat,
                low_exp as int,
                high_neg != low_neg,
            );
        }
        high
    } else {
        let factor: u128 = pow2_exec(gap as u32);
        proof {
            lemma_pow2_monotone(gap as nat, 64);
            lemma_pow2_adds(53, 64);
            lemma_pow2_monotone(117, 120);
            lemma_pow2_120();
            assert(high_sig * factor < pow2(53) * pow2(64)) by (nonlinear_arith)
                requires
                    high_sig < pow2(53),
                    0 < factor <= pow2(64),
            ;
        }
        let wide: u128 = (high_sig as u128) * factor;
        let narrow: u128 = low_sig as u128;
        if high_neg == low_neg {
            let m: u128 = wide + narrow;
            if m == 0 {
                Binary64::assemble(high_neg, 0)
            } else {
                Binary64::assemble(high_neg, round_dyadic(m, low_exp))
            }
        } else if wide > narrow {
            Binary64::assemble(high_neg, round_dyadic(wide - narrow, low_exp))
        } else if wide < narrow {
            Binary64::assemble(low_neg, round_dyadic(narrow - wide, low_exp))
        } else {
            Binary64::zero()
        }
    }
}

impl Binary64 {
    /// The sum, as a number.
    pub open spec fn spec_plus(self, other: Binary64) -> Binary64 {
        Binary64 { bits: sum_bits(self.bits, other.bits) }
    }

    /// The difference, as a number.
    pub open spec fn spec_minus(self, other: Binary64) -> Binary64 {
        Binary64 { bits: difference_bits(self.bits, other.bits) }
    }

    /// The product, as a number.
    pub open spec fn spec_times(self, other: Binary64) -> Binary64 {
        Binary64 { bits: product_bits(self.bits, other.bits) }
    }

    /// The quotient, as a number.
    pub open spec fn spec_over(self, other: Binary64) -> Binary64 {
        Binary64 { bits: quotient_bits(self.bits, other.bits) }
    }

    /// The number nearest to a count.
    pub open spec fn spec_from_count(n: u64) -> Binary64 {
        Binary64 { bits: count_bits(n) }
    }

    /// The sum of two numbers, correctly rounded.
    #[verifier::when_used_as_spec(spec_plus)]
    pub fn plus(self, other: Binary64) -> (r: Binary64)
        ensures
            r == self.spec_plus(other),
    {
        if self.is_nan() || other.is_nan() {
            Binary64::nan()
        } else if self.is_infinite() {
            if other.is_infinite() && self.is_sign_negative() != other.is_sign_negative() {
                Binary64::nan()
            } else {
                self
            }
        } else if other.is_infinite() {
            other
        } else if self.exponent() >= other.exponent() {
            add_ordered(self, other)
        } else {
            add_ordered(other, self)
        }
    }

    /// The difference of two numbers, correctly rounded.
    #[verifier::when_used_as_spec(spec_minus)]
    pub fn minus(self, other: Binary64) -> (r: Binary64)
        ensures
            r == self.spec_minus(other),
    {
        self.plus(other.negated())
    }

    /// The product of two numbers, correctly rounded.
    #[verifier::when_used_as_spec(spec_times)]
    pub fn times(self, other: Binary64) -> (r: Binary64)
        ensures
            r == self.spec_times(other),
    {
        let neg: bool = self.is_sign_negative() != other.is_sign_negative();
        if self.is_nan() || other.is_nan() {
            Binary64::nan()
        } else if self.is_infinite() || other.is_infinite() {
            if self.is_zero() || other.is_zero() {
                Binary64::nan()
            } else {
                Binary64::assemble(neg, INFINITY_BITS)
            }
        } else if self.is_zero() || other.is_zero() {
            Binary64::assemble(neg, 0)
        } else {
            let a: u64 = self.significand();
            let b: u64 = other.significand();
            proof {
                lemma_finite_parts(self.bits);
                lemma_finite_parts(other.bits);
                lemma_pow2_adds(53, 53);
                lemma_pow2_monotone(106, 120);
                assert(a * b < pow2(53) * pow2(53)) by (nonlinear_arith)
                    requires
                        a < pow2(53),
                        b < pow2(53),
                ;
                assert(a * b > 0) by (nonlinear_arith)
                    requires
                        a > 0,
                        b > 0,
                ;
                lemma_pow2_120();
            }
            let wide: u128 = (a as u128) * (b as u128);
            Binary64::assemble(neg, round_dyadic(wide, self.exponent() + other.exponent()))
        }
    }

    /// The quotient of two numbers, correctly rounded.
    #[verifier::when_used_as_spec(spec_over)]
    pub fn over(self, other: Binary64) -> (r: Binary64)
        ensures
            r == self.spec_over(other),
    {
        let neg: bool = self.is_sign_negative() != other.is_sign_negative();
        if self.is_nan() || other.is_nan() {
            Binary64::nan()
        } else if self.is_infinite() {
            if other.is_infinite() {
                Binary64::nan()
            } else {
                Binary64::assemble(neg, INFINITY_BITS)
            }
        } else if other.is_infinite() {
            Binary64::assemble(neg, 0)
        } else if other.is_zero() {
            if self.is_zero() {
                Binary64::nan()
            } else {
                Binary64::assemble(neg, INFINITY_BITS)
            }
        } else if self.is_zero() {
            Binary64::assemble(neg, 0)
        } else {
            proof {
                lemma_finite_parts(self.bits);
                lemma_finite_parts(other.bits);
            }
            Binary64::assemble(
                neg,
                round_quotient(
                    self.significand(),
                    other.significand(),
                    self.exponent() - other.exponent(),
                ),
            )
        }
    }

    /// The number nearest to a count: the count itself up to `2^53`.
    #[verifier::when_used_as_spec(spec_from_count)]
    pub fn from_count(n: u64) -> (r: Binary64)
        ensures
            r == Binary64::spec_from_count(n),
    {
        if n == 0 {
            Binary64::zero()
        } else {
            proof {
                lemma2_to64();
                lemma_pow2_monotone(64, 120);
            }
            Binary64 { bits: round_dyadic(n as u128, 0) }
        }
    }
}

} // verus!
