//! That the rounding of this library is the rounding to nearest of IEEE 754:
//! the rounded significand is the integer nearest to the exact value counted
//! in quanta, the even one of two that are equally near; the quantum leaves
//! the significand its full 53 digits wherever the value is not subnormal;
//! and a value that the format holds is not changed.

use crate::arithmetic::count_bits;
use crate::binary::{
    bit_length, lemma_bit_length_bounds, lemma_bit_length_unique, lemma_pow2_monotone,
};
use crate::binary64::{
    exponent, is_finite, is_zero, lemma_finite_parts, magnitude, negative, significand,
    HIDDEN_BIT, MAX_EXPONENT,
};
use crate::rounding::{
    lemma_quantum_from_leading, lemma_quotient_at_least, lemma_reduced_fraction,
    nearest_integer, quantum_exponent, round_magnitude, INFINITY_BITS, MIN_EXPONENT, SCALE,
};
use vstd::arithmetic::div_mod::lemma_fundamental_div_mod_converse;
use vstd::arithmetic::power2::{lemma2_to64, lemma_pow2_adds, lemma_pow2_pos, pow2};
use vstd::prelude::*;

verus! {

/// The distance between two natural numbers.
pub open spec fn distance(a: nat, b: nat) -> nat {
    if a >= b {
        (a - b) as nat
    } else {
        (b - a) as nat
    }
}

/// The nearest integer to a fraction `n / d` is at most half a unit from
/// it, is even where the fraction lies half-way between two integers, and no
/// other integer `z` is nearer.
pub proof fn law_nearest_integer(n: nat, d: nat, z: nat)
    requires
        d > 0,
    ensures
        2 * distance(nearest_integer(n, d) * d, n) <= d,
        2 * distance(nearest_integer(n, d) * d, n) == d ==> nearest_integer(n, d) % 2 == 0,
        distance(nearest_integer(n, d) * d, n) <= distance(z * d, n),
{
    let q: nat = n / d;
    let r: nat = n % d;
    let m: nat = nearest_integer(n, d);
    assert(n == q * d + r && r < d) by (nonlinear_arith)
        requires
            q == n / d,
            r == n % d,
            d > 0,
    ;
    assert((q + 1) * d == q * d + d) by (nonlinear_arith);
    if z <= q {
        assert(z * d <= q * d) by (nonlinear_arith)
            requires
                z <= q,
        ;
    } else {
        assert(z * d >= (q + 1) * d) by (nonlinear_arith)
            requires
                z >= q + 1,
        ;
    }
}

/// The quantum at which `num / den * 2^exp` is rounded leaves the value
/// fewer than `2^53` quanta, and at least `2^52` of them unless the quantum
/// is that of the subnormal numbers.
pub proof fn law_quantum_keeps_precision(num: nat, den: nat, exp: int)
    requires
        den > 0,
        exp + SCALE >= 0,
        num * pow2((exp + SCALE) as nat) >= den,
    ensures
        quantum_exponent(num, den, exp) >= MIN_EXPONENT,
        num * pow2((exp + SCALE) as nat) < pow2(53) * (den * pow2(
            (quantum_exponent(num, den, exp) + SCALE) as nat,
        )),
        quantum_exponent(num, den, exp) > MIN_EXPONENT ==> pow2(52) * (den * pow2(
            (quantum_exponent(num, den, exp) + SCALE) as nat,
        )) <= num * pow2((exp + SCALE) as nat),
{
    let value: nat = num * pow2((exp + SCALE) as nat);
    let whole: nat = value / den;
    lemma_quotient_at_least(value, den, 1);
    lemma_bit_length_bounds(whole);
    let t: nat = (bit_length(whole) - 1) as nat;
    let low: nat = pow2(t);
    let high: nat = pow2(t + 1);
    assert(den * low <= value && value < den * high) by (nonlinear_arith)
        requires
            whole == value / den,
            den > 0,
            low <= whole,
            whole < high,
    ;
    let quantum: int = quantum_exponent(num, den, exp);
    let unit_exp: nat = (quantum + SCALE) as nat;
    let unit: nat = den * pow2(unit_exp);
    lemma_pow2_monotone(t + 1, unit_exp + 53);
    lemma_pow2_adds(53, unit_exp);
    assert(pow2(53) * unit == den * pow2(unit_exp + 53)) by (nonlinear_arith)
        requires
            unit == den * pow2(unit_exp),
            pow2(unit_exp + 53) == pow2(53) * pow2(unit_exp),
    ;
    assert(den * high <= den * pow2(unit_exp + 53)) by (nonlinear_arith)
        requires
            high <= pow2(unit_exp + 53),
    ;
    if quantum > MIN_EXPONENT {
        assert(unit_exp + 52 == t);
        lemma_pow2_adds(52, unit_exp);
        assert(pow2(52) * unit == den * low) by (nonlinear_arith)
            requires
                unit == den * pow2(unit_exp),
                low == pow2(52) * pow2(unit_exp),
        ;
    }
}

/// The magnitude with significand `m` at quantum exponent `e` reads back as
/// that significand and that exponent.
pub proof fn lemma_packed_parts(e: int, m: nat, bits: u64)
    requires
        MIN_EXPONENT <= e <= MAX_EXPONENT,
        m < pow2(53),
        e > MIN_EXPONENT ==> m >= pow2(52),
        bits == (e - MIN_EXPONENT) * pow2(52) + m,
        bits < INFINITY_BITS,
    ensures
        is_finite(bits),
        magnitude(bits) == bits,
        m >= pow2(52) ==> significand(bits) == m && exponent(bits) == e,
        m < pow2(52) ==> significand(bits) == m && exponent(bits) == MIN_EXPONENT,
{
    lemma2_to64();
    lemma_pow2_adds(32, 20);
    lemma_pow2_adds(32, 21);
    let steps: int = e - MIN_EXPONENT;
    assert(steps * pow2(52) == steps * 0x10_0000_0000_0000);
    if m >= pow2(52) {
        lemma_fundamental_div_mod_converse(
            bits as int,
            HIDDEN_BIT as int,
            steps + 1,
            m - 0x10_0000_0000_0000,
        );
    } else {
        lemma_fundamental_div_mod_converse(bits as int, HIDDEN_BIT as int, steps, m as int);
    }
}

/// A value that the format holds rounds to itself.
pub proof fn law_representable_is_fixed(bits: u64)
    requires
        is_finite(bits),
        !is_zero(bits),
    ensures
        round_magnitude(significand(bits), 1, exponent(bits)) == magnitude(bits),
{
    lemma_finite_parts(bits);
    let s: nat = significand(bits);
    let e: int = exponent(bits);
    let k: nat = (e + SCALE) as nat;
    lemma_bit_length_bounds(s);
    let digits: nat = bit_length(s);
    if digits > 53 {
        lemma_pow2_monotone(53, (digits - 1) as nat);
    }
    if e > MIN_EXPONENT {
        lemma_bit_length_unique(s, 52);
    }
    let t: nat = (digits - 1 + k) as nat;
    lemma_pow2_adds((digits - 1) as nat, k);
    lemma_pow2_adds(digits, k);
    lemma_pow2_pos(k);
    let c: nat = pow2(k);
    let low: nat = pow2((digits - 1) as nat);
    let high: nat = pow2(digits);
    assert(low * c <= s * c && s * c < high * c) by (nonlinear_arith)
        requires
            low <= s,
            s < high,
            c > 0,
    ;
    assert(1 * pow2(t) == pow2(t) && 1 * pow2(t + 1) == pow2(t + 1)) by (nonlinear_arith);
    lemma_quantum_from_leading(s, 1, e, t);
    assert(quantum_exponent(s, 1, e) == e);
    assert(1 * c == 1 * pow2((e + SCALE) as nat));
    lemma_reduced_fraction(s, 1, e, t, s, 1, c);
    assert(nearest_integer(s, 1) == s);
}

/// The magnitude of the value of a finite number, counted in units of the
/// least subnormal number, `2^-1074`.
pub open spec fn scaled_value(bits: u64) -> nat {
    significand(bits) * pow2((exponent(bits) - MIN_EXPONENT) as nat)
}

/// A count of up to `2^53` is held as it is.
pub proof fn law_count_exact(n: u64)
    requires
        n <= 0x20_0000_0000_0000,
    ensures
        is_finite(count_bits(n)),
        !negative(count_bits(n)),
        scaled_value(count_bits(n)) == n * pow2(1074),
{
    lemma2_to64();
    lemma_pow2_adds(32, 20);
    lemma_pow2_adds(32, 21);
    lemma_pow2_adds(32, 22);
    if n == 0 {
        assert(0 * pow2(0) == 0) by (nonlinear_arith);
        assert(0 * pow2(1074) == 0) by (nonlinear_arith);
    } else {
        let bits: u64 = count_bits(n);
        let k: nat = SCALE as nat;
        lemma_bit_length_bounds(n as nat);
        let digits: nat = bit_length(n as nat);
        if digits > 54 {
            lemma_pow2_monotone(54, (digits - 1) as nat);
        }
        let t: nat = (digits - 1 + k) as nat;
        lemma_pow2_adds((digits - 1) as nat, k);
        lemma_pow2_adds(digits, k);
        lemma_pow2_pos(k);
        let c: nat = pow2(k);
        let low: nat = pow2((digits - 1) as nat);
        let high: nat = pow2(digits);
        assert(low * c <= n as nat * c && n as nat * c < high * c) by (nonlinear_arith)
            requires
                low <= n,
                n < high,
                c > 0,
        ;
        assert(1 * pow2(t) == pow2(t) && 1 * pow2(t + 1) == pow2(t + 1)) by (nonlinear_arith);
        lemma_quantum_from_leading(n as nat, 1, 0, t);
        let quantum: int = quantum_exponent(n as nat, 1, 0);
        assert(quantum == digits - 53);
        let unit: nat = pow2((quantum + SCALE) as nat);
        lemma_pow2_pos((quantum + SCALE) as nat);
        if digits <= 53 {
            let shift: nat = (53 - digits) as nat;
            let m: nat = n as nat * pow2(shift);
            lemma_pow2_adds(shift, (quantum + SCALE) as nat);
            lemma_pow2_adds((digits - 1) as nat, shift);
            lemma_pow2_adds(digits, shift);
            lemma_pow2_pos(shift);
            assert(m * unit == n as nat * c) by (nonlinear_arith)
                requires
                    m == n as nat * pow2(shift),
                    c == pow2(shift) * unit,
            ;
            assert(1 * unit == 1 * pow2((quantum + SCALE) as nat));
            lemma_reduced_fraction(n as nat, 1, 0, t, m, 1, unit);
            assert(nearest_integer(m, 1) == m);
            assert(low * pow2(shift) <= m && m < high * pow2(shift)) by (nonlinear_arith)
                requires
                    m == n as nat * pow2(shift),
                    low <= n,
                    n < high,
                    pow2(shift) > 0,
            ;
            assert((quantum - MIN_EXPONENT) * pow2(52) + m < INFINITY_BITS) by (nonlinear_arith)
                requires
                    0 <= quantum - MIN_EXPONENT <= 1074,
                    m < 2 * pow2(52),
                    pow2(52) == 0x10_0000_0000_0000,
            ;
            lemma_packed_parts(quantum, m, bits);
            lemma_pow2_adds(shift, (quantum - MIN_EXPONENT) as nat);
            assert(m * pow2((quantum - MIN_EXPONENT) as nat) == n as nat * pow2(1074))
                by (nonlinear_arith)
                requires
                    m == n as nat * pow2(shift),
                    pow2(1074) == pow2(shift) * pow2((quantum - MIN_EXPONENT) as nat),
            ;
        } else {
            assert(n == 0x20_0000_0000_0000);
            lemma_pow2_adds(1, k);
            assert(2 * c == 1 * pow2((quantum + SCALE) as nat));
            lemma_reduced_fraction(n as nat, 1, 0, t, n as nat, 2, c);
            assert(nearest_integer(n as nat, 2) == pow2(52));
            assert((quantum - MIN_EXPONENT) * pow2(52) + pow2(52) < INFINITY_BITS)
                by (nonlinear_arith)
                requires
                    quantum - MIN_EXPONENT == 1075,
                    pow2(52) == 0x10_0000_0000_0000,
            ;
            lemma_packed_parts(quantum, pow2(52), bits);
            lemma_pow2_adds(1, 1074);
            assert(pow2(52) * pow2(1075) == n as nat * pow2(1074)) by (nonlinear_arith)
                requires
                    n == 2 * pow2(52),
                    pow2(1075) == 2 * pow2(1074),
            ;
        }
    }
}

} // verus!
