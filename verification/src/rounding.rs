//! Rounding of exact positive values to the binary64 format: to the nearest
//! representable magnitude, ties to the even significand, overflow to
//! infinity.
//!
//! A magnitude is the bit pattern of a non-negative binary64 number, read as
//! an integer. For finite numbers that integer grows with the value, and a
//! significand `m` at quantum exponent `e` has the pattern
//! `(e + 1074) * 2^52 + m`, for subnormal and normal numbers alike.

use crate::binary::{
    bit_length, bit_length_exec, lemma_bit_length_bounds, lemma_bit_length_unique,
    lemma_cancel_common_factor, lemma_pow2_monotone, pow2_exec,
};
use vstd::arithmetic::power2::{lemma2_to64, lemma_pow2_adds, lemma_pow2_pos, pow2};
use vstd::prelude::*;

verus! {

/// Magnitude of infinity; every larger pattern is a NaN.
pub const INFINITY_BITS: u64 = 0x7FF0_0000_0000_0000;

/// Exponent of the least significant digit of the subnormal numbers.
pub const MIN_EXPONENT: i64 = -1074;

/// Binary places by which values are scaled before they are measured, large
/// enough that every scaled value this library rounds is at least one.
pub const SCALE: u64 = 4096;

/// Least exponent that the rounding functions take.
pub const EXPONENT_FLOOR: i64 = -3000;

/// Greatest exponent that the rounding functions take.
pub const EXPONENT_CEILING: i64 = 3000;

/// The fraction `n / d` rounded to the nearest integer, a tie going to the
/// even neighbour.
pub open spec fn nearest_integer(n: nat, d: nat) -> nat {
    let q = n / d;
    let r = n % d;
    if 2 * r > d || (2 * r == d && q % 2 == 1) {
        q + 1
    } else {
        q
    }
}

/// Exponent of the last digit kept when `num / den * 2^exp` is rounded: 52
/// places below its leading digit, but never below the subnormal quantum.
pub open spec fn quantum_exponent(num: nat, den: nat, exp: int) -> int {
    let scaled = num * pow2((exp + SCALE) as nat);
    let leading = bit_length(scaled / den) as int - 1 - SCALE;
    if leading - 52 > MIN_EXPONENT {
        leading - 52
    } else {
        MIN_EXPONENT as int
    }
}

/// Magnitude of the binary64 number nearest to the positive value
/// `num / den * 2^exp`.
pub open spec fn round_magnitude(num: nat, den: nat, exp: int) -> nat {
    let quantum = quantum_exponent(num, den, exp);
    let m = nearest_integer(
        num * pow2((exp + SCALE) as nat),
        den * pow2((quantum + SCALE) as nat),
    );
    let bits = (quantum - MIN_EXPONENT) * pow2(52) + m;
    if bits >= INFINITY_BITS {
        INFINITY_BITS as nat
    } else {
        bits as nat
    }
}

/// No rounding gives more than infinity.
pub proof fn lemma_rounding_bounded(num: nat, den: nat, exp: int)
    ensures
        round_magnitude(num, den, exp) <= INFINITY_BITS,
{
}

/// A quotient is below `c` when the numerator is below `c` times the
/// denominator.
pub proof fn lemma_quotient_below(n: nat, d: nat, c: nat)
    requires
        d > 0,
        n < d * c,
    ensures
        n / d < c,
{
    let q: nat = n / d;
    assert(q * d <= n) by (nonlinear_arith)
        requires
            q == n / d,
            d > 0,
    ;
    assert(q < c) by (nonlinear_arith)
        requires
            q * d <= n,
            n < d * c,
            d > 0,
    ;
}

/// A quotient is at least `c` when the numerator is at least `c` times the
/// denominator.
pub proof fn lemma_quotient_at_least(n: nat, d: nat, c: nat)
    requires
        d > 0,
        d * c <= n,
    ensures
        c <= n / d,
{
    let q: nat = n / d;
    assert(n < (q + 1) * d) by (nonlinear_arith)
        requires
            q == n / d,
            d > 0,
    ;
    assert(c <= q) by (nonlinear_arith)
        requires
            d * c <= n,
            n < (q + 1) * d,
            d > 0,
    ;
}

/// The digit count of a quotient that lies between two neighbouring powers
/// of two.
pub proof fn lemma_quotient_digits(n: nat, d: nat, t: nat)
    requires
        d > 0,
        d * pow2(t) <= n,
        n < d * pow2(t + 1),
    ensures
        bit_length(n / d) == t + 1,
{
    lemma_quotient_at_least(n, d, pow2(t));
    lemma_quotient_below(n, d, pow2(t + 1));
    lemma_bit_length_unique(n / d, t);
}

/// What the definition of the quantum exponent yields once the position `t`
/// of the leading digit of the scaled quotient is known.
pub proof fn lemma_quantum_from_leading(num: nat, den: nat, exp: int, t: nat)
    requires
        den > 0,
        exp + SCALE >= 0,
        den * pow2(t) <= num * pow2((exp + SCALE) as nat),
        num * pow2((exp + SCALE) as nat) < den * pow2(t + 1),
    ensures
        quantum_exponent(num, den, exp) == (if t - SCALE - 52 > MIN_EXPONENT {
            t - SCALE - 52
        } else {
            MIN_EXPONENT as int
        }),
        quantum_exponent(num, den, exp) + SCALE + 53 >= t + 1,
        quantum_exponent(num, den, exp) >= MIN_EXPONENT,
{
    lemma_quotient_digits(num * pow2((exp + SCALE) as nat), den, t);
}

/// The rounded significand of `num / den * 2^exp` at its quantum, computed
/// from a reduced fraction `n / d` that differs from the scaled one by a
/// common factor `c` only. The significand has at most 53 digits, or is
/// exactly `2^53`.
pub proof fn lemma_reduced_fraction(num: nat, den: nat, exp: int, t: nat, n: nat, d: nat, c: nat)
    requires
        den > 0,
        d > 0,
        c > 0,
        exp + SCALE >= 0,
        den * pow2(t) <= num * pow2((exp + SCALE) as nat),
        num * pow2((exp + SCALE) as nat) < den * pow2(t + 1),
        n * c == num * pow2((exp + SCALE) as nat),
        d * c == den * pow2((quantum_exponent(num, den, exp) + SCALE) as nat),
    ensures
        nearest_integer(
            num * pow2((exp + SCALE) as nat),
            den * pow2((quantum_exponent(num, den, exp) + SCALE) as nat),
        ) == nearest_integer(n, d),
        n / d < pow2(53),
{
    lemma_quantum_from_leading(num, den, exp, t);
    let quantum: int = quantum_exponent(num, den, exp);
    let big_n: nat = num * pow2((exp + SCALE) as nat);
    let big_d: nat = den * pow2((quantum + SCALE) as nat);
    lemma_cancel_common_factor(n, d, c);
    let r: nat = n % d;
    assert((2 * (r * c) > d * c) == (2 * r > d) && (2 * (r * c) == d * c) == (2 * r == d))
        by (nonlinear_arith)
        requires
            c > 0,
    ;
    // The scaled numerator lies below 2^53 times the scaled denominator.
    lemma_pow2_monotone((t + 1) as nat, (quantum + SCALE + 53) as nat);
    lemma_pow2_adds((quantum + SCALE) as nat, 53);
    let step: nat = pow2((t + 1) as nat);
    let reach: nat = pow2((quantum + SCALE + 53) as nat);
    assert(den * step <= den * reach) by (nonlinear_arith)
        requires
            step <= reach,
    ;
    assert(den * reach == big_d * pow2(53)) by (nonlinear_arith)
        requires
            reach == pow2((quantum + SCALE) as nat) * pow2(53),
            big_d == den * pow2((quantum + SCALE) as nat),
    ;
    lemma_quotient_below(big_n, big_d, pow2(53));
}

/// Packs the fraction `n / d`, rounded to the nearest integer, as the
/// significand of a magnitude at the given quantum exponent.
fn pack_nearest(n: u128, d: u128, quantum: i64) -> (r: u64)
    requires
        d > 0,
        d < 0x2000_0000_0000_0000_0000_0000_0000_0000,
        n / d < pow2(53),
        MIN_EXPONENT <= quantum <= 2 * EXPONENT_CEILING,
    ensures
        r == (if (quantum - MIN_EXPONENT) * pow2(52) + nearest_integer(n as nat, d as nat)
            >= INFINITY_BITS {
            INFINITY_BITS as int
        } else {
            (quantum - MIN_EXPONENT) * pow2(52) + nearest_integer(n as nat, d as nat)
        }),
{
    proof {
        lemma2_to64();
        lemma_pow2_adds(32, 21);
        lemma_pow2_adds(32, 20);
    }
    let q: u128 = n / d;
    let rem: u128 = n % d;
    let twice: u128 = 2 * rem;
    let up: bool = twice > d || (twice == d && q % 2 == 1);
    let m: u64 = if up {
        (q + 1) as u64
    } else {
        q as u64
    };
    let steps: u64 = (quantum - MIN_EXPONENT) as u64;
    if steps >= 2047 {
        assert(steps * pow2(52) >= INFINITY_BITS) by (nonlinear_arith)
            requires
                steps >= 2047,
                pow2(52) == 0x10_0000_0000_0000,
        ;
        INFINITY_BITS
    } else {
        assert(steps * 0x10_0000_0000_0000 <= 2046 * 0x10_0000_0000_0000) by (nonlinear_arith)
            requires
                steps <= 2046,
        ;
        let bits: u64 = steps * 0x10_0000_0000_0000 + m;
        if bits >= INFINITY_BITS {
            INFINITY_BITS
        } else {
            bits
        }
    }
}

/// Rounds the positive dyadic value `num * 2^exp` to the nearest binary64
/// magnitude.
pub fn round_dyadic(num: u128, exp: i64) -> (r: u64)
    requires
        0 < num < pow2(120),
        EXPONENT_FLOOR <= exp <= EXPONENT_CEILING,
    ensures
        r == round_magnitude(num as nat, 1, exp as int),
{
    let digits: u32 = bit_length_exec(num);
    let leading: i64 = digits as i64 - 1 + exp;
    let quantum: i64 = if leading - 52 > MIN_EXPONENT {
        leading - 52
    } else {
        MIN_EXPONENT
    };
    let ghost k: nat = (exp + SCALE) as nat;
    let ghost t: nat = (digits - 1 + k) as nat;
    proof {
        lemma_bit_length_bounds(num as nat);
        if digits > 120 {
            lemma_pow2_monotone(120, (digits - 1) as nat);
        }
        lemma_pow2_adds((digits - 1) as nat, k);
        lemma_pow2_adds(digits as nat, k);
        lemma_pow2_pos(k);
        let p: nat = pow2(k);
        let lo: nat = pow2((digits - 1) as nat);
        let hi: nat = pow2(digits as nat);
        assert(lo * p <= num as nat * p) by (nonlinear_arith)
            requires
                lo <= num,
        ;
        assert(num as nat * p < hi * p) by (nonlinear_arith)
            requires
                num < hi,
                p > 0,
        ;
        assert(1 * pow2(t) == pow2(t) && 1 * pow2(t + 1) == pow2(t + 1)) by (nonlinear_arith);
        lemma_quantum_from_leading(num as nat, 1, exp as int, t);
        lemma2_to64();
    }
    let shift: i64 = exp - quantum;
    if shift >= 0 {
        let factor: u128 = pow2_exec(shift as u32);
        proof {
            // digits + shift <= 53
            lemma_pow2_adds(digits as nat, shift as nat);
            lemma_pow2_monotone((digits + shift) as nat, 53);
            lemma_pow2_adds(32, 21);
            assert(num * factor < pow2(digits as nat) * factor) by (nonlinear_arith)
                requires
                    num < pow2(digits as nat),
                    factor > 0,
            ;
        }
        let n: u128 = num * factor;
        proof {
            let c: nat = pow2((quantum + SCALE) as nat);
            lemma_pow2_pos((quantum + SCALE) as nat);
            lemma_pow2_adds(shift as nat, (quantum + SCALE) as nat);
            assert(n as nat * c == num as nat * pow2(k)) by (nonlinear_arith)
                requires
                    n == num * factor,
                    pow2(k) == factor * c,
            ;
            assert(1 * c == 1 * pow2((quantum + SCALE) as nat));
            lemma_reduced_fraction(num as nat, 1, exp as int, t, n as nat, 1, c);
        }
        pack_nearest(n, 1, quantum)
    } else if shift < -121 {
        proof {
            // The value is below half of the least subnormal number.
            let s: nat = (-shift) as nat;
            lemma_pow2_monotone(121, s);
            lemma_pow2_adds(1, 120);
            let d: nat = pow2(s);
            lemma_pow2_adds(s, k);
            assert(d * pow2(k) == 1 * pow2((quantum + SCALE) as nat)) by (nonlinear_arith)
                requires
                    pow2((quantum + SCALE) as nat) == d * pow2(k),
            ;
            lemma_pow2_pos(k);
            lemma_reduced_fraction(num as nat, 1, exp as int, t, num as nat, d, pow2(k));
            assert(2 * num < d);
            assert(num as nat / d == 0 && num as nat % d == num) by (nonlinear_arith)
                requires
                    num < d,
            ;
            assert(nearest_integer(num as nat, d) == 0);
            assert(quantum == MIN_EXPONENT);
            assert(0 * pow2(52) == 0) by (nonlinear_arith);
        }
        0
    } else {
        let divisor: u128 = pow2_exec((-shift) as u32);
        proof {
            let s: nat = (-shift) as nat;
            lemma_pow2_monotone(s, 121);
            lemma_pow2_adds(1, 120);
            lemma_pow2_adds(120, 5);
            lemma_pow2_adds(s, k);
            lemma_pow2_pos(k);
            assert(divisor as nat * pow2(k) == 1 * pow2((quantum + SCALE) as nat))
                by (nonlinear_arith)
                requires
                    pow2((quantum + SCALE) as nat) == divisor * pow2(k),
            ;
            lemma_reduced_fraction(
                num as nat,
                1,
                exp as int,
                t,
                num as nat,
                divisor as nat,
                pow2(k),
            );
            lemma_pow2_120();
        }
        pack_nearest(num, divisor, quantum)
    }
}

/// A bracket of `num * 2^53` between neighbouring powers of two times `den`
/// carries over to any larger scale.
proof fn lemma_bracket_rescaled(num: nat, den: nat, u: nat, j: nat)
    requires
        den * pow2(u) <= num * pow2(53),
        num * pow2(53) < den * pow2(u + 1),
    ensures
        den * pow2(u + j) <= num * pow2(53 + j),
        num * pow2(53 + j) < den * pow2(u + 1 + j),
{
    lemma_pow2_adds(u, j);
    lemma_pow2_adds(u + 1, j);
    lemma_pow2_adds(53, j);
    lemma_pow2_pos(j);
    let c: nat = pow2(j);
    let a: nat = den * pow2(u);
    let b: nat = num * pow2(53);
    let top: nat = den * pow2(u + 1);
    assert(a * c <= b * c && b * c < top * c) by (nonlinear_arith)
        requires
            a <= b,
            b < top,
            c > 0,
    ;
    assert(a * c == den * (pow2(u) * c)) by (nonlinear_arith)
        requires
            a == den * pow2(u),
    ;
    assert(b * c == num * (pow2(53) * c)) by (nonlinear_arith)
        requires
            b == num * pow2(53),
    ;
    assert(top * c == den * (pow2(u + 1) * c)) by (nonlinear_arith)
        requires
            top == den * pow2(u + 1),
    ;
}

/// Rounds the positive quotient `num / den * 2^exp` of two significands to
/// the nearest binary64 magnitude.
pub fn round_quotient(num: u64, den: u64, exp: i64) -> (r: u64)
    requires
        0 < num < pow2(53),
        0 < den < pow2(53),
        EXPONENT_FLOOR <= exp <= EXPONENT_CEILING,
    ensures
        r == round_magnitude(num as nat, den as nat, exp as int),
{
    let num_digits: u32 = bit_length_exec(num as u128);
    let den_digits: u32 = bit_length_exec(den as u128);
    proof {
        lemma2_to64();
        lemma_pow2_adds(32, 21);
        lemma_bit_length_bounds(num as nat);
        lemma_bit_length_bounds(den as nat);
        if num_digits > 53 {
            lemma_pow2_monotone(53, (num_digits - 1) as nat);
        }
        if den_digits > 53 {
            lemma_pow2_monotone(53, (den_digits - 1) as nat);
        }
    }
    let gap: i64 = num_digits as i64 - den_digits as i64;
    let unit: u128 = pow2_exec(53);
    let reach: u128 = pow2_exec((53 + gap) as u32);
    proof {
        lemma_pow2_120();
        // den * 2^(53 + gap) < 2^(53 + num_digits) <= 2^106
        lemma_pow2_adds(den_digits as nat, (53 + gap) as nat);
        lemma_pow2_monotone((53 + num_digits) as nat, 106);
        lemma_pow2_monotone(106, 120);
        assert(den * reach < pow2(den_digits as nat) * reach) by (nonlinear_arith)
            requires
                den < pow2(den_digits as nat),
                reach > 0,
        ;
        assert(num * unit < pow2(53) * unit) by (nonlinear_arith)
            requires
                num < pow2(53),
                unit > 0,
        ;
        lemma_pow2_adds(53, 53);
    }
    let left: u128 = (num as u128) * unit;
    let right: u128 = (den as u128) * reach;
    let relative: i64 = if left >= right {
        gap
    } else {
        gap - 1
    };
    let leading: i64 = relative + exp;
    let quantum: i64 = if leading - 52 > MIN_EXPONENT {
        leading - 52
    } else {
        MIN_EXPONENT
    };
    let ghost k: nat = (exp + SCALE) as nat;
    let ghost t: nat = (relative + k) as nat;
    proof {
        let u: nat = (53 + relative) as nat;
        // From the digit counts alone: right / 2 < left < 2 * right.
        lemma_pow2_adds((den_digits - 1) as nat, (54 + gap) as nat);
        lemma_pow2_adds(num_digits as nat, 53);
        lemma_pow2_adds(den_digits as nat, (52 + gap) as nat);
        lemma_pow2_adds((num_digits - 1) as nat, 53);
        lemma_pow2_adds(1, (52 + gap) as nat);
        lemma_pow2_adds(1, (53 + gap) as nat);
        let half: nat = pow2((52 + gap) as nat);
        let double: nat = pow2((54 + gap) as nat);
        assert(num as nat * unit < pow2(num_digits as nat) * unit) by (nonlinear_arith)
            requires
                num < pow2(num_digits as nat),
                unit > 0,
        ;
        assert(pow2((den_digits - 1) as nat) * double <= den as nat * double)
            by (nonlinear_arith)
            requires
                pow2((den_digits - 1) as nat) <= den,
        ;
        assert(den as nat * half < pow2(den_digits as nat) * half) by (nonlinear_arith)
            requires
                den < pow2(den_digits as nat),
                half > 0,
        ;
        assert(pow2((num_digits - 1) as nat) * unit <= num as nat * unit) by (nonlinear_arith)
            requires
                pow2((num_digits - 1) as nat) <= num,
        ;
        assert(den as nat * pow2(u) <= num as nat * pow2(53));
        assert(num as nat * pow2(53) < den as nat * pow2(u + 1));
        lemma_bracket_rescaled(num as nat, den as nat, u, (k - 53) as nat);
        lemma_quantum_from_leading(num as nat, den as nat, exp as int, t);
    }
    let shift: i64 = exp - quantum;
    if shift >= 0 {
        let factor: u128 = pow2_exec(shift as u32);
        proof {
            // num_digits + shift <= 54 + den_digits
            lemma_pow2_adds(num_digits as nat, shift as nat);
            lemma_pow2_monotone((num_digits + shift) as nat, 107);
            lemma_pow2_monotone(107, 120);
            assert(num * factor < pow2(num_digits as nat) * factor) by (nonlinear_arith)
                requires
                    num < pow2(num_digits as nat),
                    factor > 0,
            ;
        }
        let n: u128 = (num as u128) * factor;
        proof {
            let c: nat = pow2((quantum + SCALE) as nat);
            lemma_pow2_pos((quantum + SCALE) as nat);
            lemma_pow2_adds(shift as nat, (quantum + SCALE) as nat);
            assert(n as nat * c == num as nat * pow2(k)) by (nonlinear_arith)
                requires
                    n == num * factor,
                    pow2(k) == factor * c,
            ;
            lemma_reduced_fraction(
                num as nat,
                den as nat,
                exp as int,
                t,
                n as nat,
                den as nat,
                c,
            );
        }
        pack_nearest(n, den as u128, quantum)
    } else if shift < -60 {
        proof {
            // The quotient is below half of the least subnormal number.
            let s: nat = (-shift) as nat;
            lemma_pow2_monotone(60, s);
            lemma_pow2_adds(32, 28);
            lemma_pow2_pos(s);
            let d: nat = den as nat * pow2(s);
            lemma_pow2_adds(s, k);
            lemma_pow2_pos(k);
            assert(d * pow2(k) == den as nat * pow2((quantum + SCALE) as nat))
                by (nonlinear_arith)
                requires
                    d == den as nat * pow2(s),
                    pow2((quantum + SCALE) as nat) == pow2(s) * pow2(k),
            ;
            assert(d >= pow2(s)) by (nonlinear_arith)
                requires
                    d == den as nat * pow2(s),
                    den >= 1,
            ;
            lemma_reduced_fraction(
                num as nat,
                den as nat,
                exp as int,
                t,
                num as nat,
                d,
                pow2(k),
            );
            assert(num as nat / d == 0 && num as nat % d == num) by (nonlinear_arith)
                requires
                    num < d,
            ;
            assert(nearest_integer(num as nat, d) == 0);
            assert(0 * pow2(52) == 0) by (nonlinear_arith);
        }
        0
    } else {
        let spread: u128 = pow2_exec((-shift) as u32);
        proof {
            let s: nat = (-shift) as nat;
            lemma_pow2_monotone(s, 60);
            lemma_pow2_adds(32, 28);
            lemma_pow2_adds(53, 60);
            lemma_pow2_monotone(113, 120);
            assert(den * spread < pow2(53) * pow2(60)) by (nonlinear_arith)
                requires
                    den < pow2(53),
                    0 < spread <= pow2(60),
            ;
        }
        let divisor: u128 = (den as u128) * spread;
        proof {
            let s: nat = (-shift) as nat;
            lemma_pow2_adds(s, k);
            lemma_pow2_pos(k);
            assert(divisor as nat * pow2(k) == den as nat * pow2((quantum + SCALE) as nat))
                by (nonlinear_arith)
                requires
                    divisor == den * spread,
                    pow2((quantum + SCALE) as nat) == spread * pow2(k),
            ;
            assert(divisor > 0) by (nonlinear_arith)
                requires
                    divisor == den * spread,
                    den > 0,
                    spread > 0,
            ;
            lemma_reduced_fraction(
                num as nat,
                den as nat,
                exp as int,
                t,
                num as nat,
                divisor as nat,
                pow2(k),
            );
        }
        pack_nearest(num as u128, divisor, quantum)
    }
}

/// The value of `2^120`.
pub proof fn lemma_pow2_120()
    ensures
        pow2(120) == 0x100_0000_0000_0000_0000_0000_0000_0000,
        pow2(125) == 0x2000_0000_0000_0000_0000_0000_0000_0000,
        pow2(121) == 0x200_0000_0000_0000_0000_0000_0000_0000,
{
    lemma2_to64();
    lemma_pow2_adds(64, 56);
    lemma_pow2_adds(32, 24);
    lemma_pow2_adds(120, 5);
    lemma_pow2_adds(120, 1);
}

} // verus!
