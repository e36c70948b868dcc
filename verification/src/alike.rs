//! Numbers that are the same number under different patterns, and what the
//! operations make of them.
//!
//! The two zeros are one number, and so are all NaNs. Two patterns are
//! *alike* when they are equal or stand for one number in this way, and
//! *opposite* when one is alike to the other with its sign turned. The
//! operations take numbers that are alike to numbers that are alike, which
//! is what lets the order of a merge be turned round: the two orders differ
//! in the signs of the differences they take, and in nothing else.

use crate::arithmetic::{
    difference_bits, finite_sum, negated_bits, product_bits, quotient_bits, signed_significand,
    sum_bits,
};
use crate::binary64::{
    exponent, is_finite, is_nan, is_zero, lemma_finite_parts, magnitude, negative, significand,
    with_sign, Binary64,
};
use crate::root::root_bits;
use crate::rounding::{lemma_rounding_bounded, round_magnitude, INFINITY_BITS};
use vstd::arithmetic::power2::{lemma_pow2_pos, pow2};
use vstd::prelude::*;

verus! {

/// Whether two patterns stand for the same number.
pub open spec fn alike(a: Binary64, b: Binary64) -> bool {
    a == b || (a.is_zero() && b.is_zero()) || (a.is_nan() && b.is_nan())
}

/// Whether one number is the other with its sign turned. A zero and a NaN
/// are their own opposites too.
pub open spec fn opposite(a: Binary64, b: Binary64) -> bool {
    alike(a, b.negated())
}

/// A zero adds nothing, whatever its sign, to a number that is not a zero.
proof fn lemma_zero_summand(z: u64, w: u64, b: u64)
    requires
        is_zero(z),
        is_zero(w),
        !is_zero(b),
    ensures
        sum_bits(z, b) == sum_bits(w, b),
        sum_bits(b, z) == sum_bits(b, w),
{
    if is_finite(b) {
        lemma_finite_parts(b);
        lemma_finite_parts(z);
        lemma_finite_parts(w);
        let e: int = exponent(z);
        assert(e == exponent(w) && e <= exponent(b));
        let p: nat = pow2((exponent(z) - e) as nat);
        let q: nat = pow2((exponent(b) - e) as nat);
        lemma_pow2_pos((exponent(b) - e) as nat);
        assert(signed_significand(z) == 0 && signed_significand(w) == 0);
        assert(0 * p == 0) by (nonlinear_arith);
        let s: int = signed_significand(b);
        assert(s * q != 0) by (nonlinear_arith)
            requires
                s != 0,
                q > 0,
        ;
        assert(finite_sum(z, b) == finite_sum(w, b));
        assert(finite_sum(b, z) == finite_sum(b, w));
    }
}

/// Sums of numbers that are alike are alike.
pub proof fn law_sum_of_alike(a: Binary64, a2: Binary64, b: Binary64, b2: Binary64)
    requires
        alike(a, a2),
        alike(b, b2),
    ensures
        alike(a.plus(b), a2.plus(b2)),
{
    if a.is_nan() || b.is_nan() {
    } else if a == a2 && b == b2 {
    } else if a.is_zero() && a2.is_zero() && b.is_zero() && b2.is_zero() {
        lemma_sum_of_zeros(a.bits, b.bits);
        lemma_sum_of_zeros(a2.bits, b2.bits);
    } else if a.is_zero() && a2.is_zero() {
        assert(b == b2);
        lemma_zero_summand(a.bits, a2.bits, b.bits);
    } else {
        assert(a == a2);
        lemma_zero_summand(b.bits, b2.bits, a.bits);
    }
}

/// The sum of two zeros is a zero.
proof fn lemma_sum_of_zeros(z: u64, w: u64)
    requires
        is_zero(z),
        is_zero(w),
    ensures
        is_zero(sum_bits(z, w)),
{
    lemma_finite_parts(z);
    lemma_finite_parts(w);
    let p: nat = pow2(0);
    assert(0 * p == 0) by (nonlinear_arith);
    assert(signed_significand(z) * p + signed_significand(w) * p == 0);
}

/// Products of numbers that are alike are alike.
pub proof fn law_product_of_alike(a: Binary64, a2: Binary64, b: Binary64, b2: Binary64)
    requires
        alike(a, a2),
        alike(b, b2),
    ensures
        alike(a.times(b), a2.times(b2)),
{
    let x: u64 = product_bits(a.bits, b.bits);
    let y: u64 = product_bits(a2.bits, b2.bits);
    assert(alike(Binary64 { bits: x }, Binary64 { bits: y }));
}

/// The product of two numbers and the product of their opposites are alike.
pub proof fn law_product_of_opposites(a: Binary64, a2: Binary64, b: Binary64, b2: Binary64)
    requires
        opposite(a, a2),
        opposite(b, b2),
    ensures
        alike(a.times(b), a2.times(b2)),
{
    lemma_magnitude_decides(a2.bits, a2.negated().bits);
    lemma_magnitude_decides(b2.bits, b2.negated().bits);
    let x: u64 = product_bits(a.bits, b.bits);
    let y: u64 = product_bits(a2.bits, b2.bits);
    let z: u64 = product_bits(a2.negated().bits, b2.negated().bits);
    lemma_rounding_bounded(
        significand(a2.bits) * significand(b2.bits),
        1,
        exponent(a2.bits) + exponent(b2.bits),
    );
    assert(alike(Binary64 { bits: y }, Binary64 { bits: z }));
    law_product_of_alike(a, a2.negated(), b, b2.negated());
}

/// The product of a number and a factor is opposite to the product of the
/// opposite number and a factor that is alike.
pub proof fn law_product_turns(a: Binary64, a2: Binary64, b: Binary64, b2: Binary64)
    requires
        opposite(a, a2),
        alike(b, b2),
    ensures
        opposite(a.times(b), a2.times(b2)),
{
    lemma_magnitude_decides(a2.bits, a2.negated().bits);
    let y: u64 = product_bits(a2.bits, b2.bits);
    let z: u64 = product_bits(a2.negated().bits, b2.bits);
    lemma_rounding_bounded(
        significand(a2.bits) * significand(b2.bits),
        1,
        exponent(a2.bits) + exponent(b2.bits),
    );
    assert(alike(Binary64 { bits: z }, Binary64 { bits: negated_bits(y) }));
    law_product_of_alike(a, a2.negated(), b, b2);
}

/// What of a pattern its magnitude decides: its class, its significand and
/// its exponent.
proof fn lemma_magnitude_decides(a: u64, b: u64)
    requires
        magnitude(a) == magnitude(b),
    ensures
        is_nan(a) == is_nan(b),
        is_zero(a) == is_zero(b),
        is_finite(a) == is_finite(b),
        significand(a) == significand(b),
        exponent(a) == exponent(b),
{
}

/// Quotients of numbers that are alike by one divisor are alike.
pub proof fn law_quotient_of_alike(a: Binary64, a2: Binary64, d: Binary64)
    requires
        alike(a, a2),
    ensures
        alike(a.over(d), a2.over(d)),
{
    let x: u64 = quotient_bits(a.bits, d.bits);
    let y: u64 = quotient_bits(a2.bits, d.bits);
    assert(alike(Binary64 { bits: x }, Binary64 { bits: y }));
}

/// A pattern put together from a sign and a magnitude has that sign and
/// that magnitude, and its opposite has the other sign.
proof fn lemma_with_sign(neg: bool, mag: nat)
    requires
        mag <= INFINITY_BITS,
    ensures
        magnitude(with_sign(neg, mag)) == mag,
        negative(with_sign(neg, mag)) == neg,
        negated_bits(with_sign(neg, mag)) == with_sign(!neg, mag),
{
}

/// The quotient of the opposite number is the opposite quotient, or both
/// are NaN.
proof fn lemma_quotient_of_negated(a: u64, d: u64)
    ensures
        is_nan(quotient_bits(a, d)) && is_nan(quotient_bits(negated_bits(a), d))
            || quotient_bits(negated_bits(a), d) == negated_bits(quotient_bits(a, d)),
{
    let na: u64 = negated_bits(a);
    lemma_magnitude_decides(a, na);
    assert(negative(na) == !negative(a));
    let neg: bool = negative(a) != negative(d);
    let rounded: nat = round_magnitude(significand(a), significand(d), exponent(a) - exponent(d));
    lemma_rounding_bounded(significand(a), significand(d), exponent(a) - exponent(d));
    lemma_with_sign(neg, rounded);
    lemma_with_sign(neg, 0);
    lemma_with_sign(neg, INFINITY_BITS as nat);
}

/// Quotients of opposite numbers by one divisor are opposite.
pub proof fn law_quotient_turns(a: Binary64, a2: Binary64, d: Binary64)
    requires
        opposite(a, a2),
    ensures
        opposite(a.over(d), a2.over(d)),
{
    lemma_quotient_of_negated(a2.bits, d.bits);
    law_quotient_of_alike(a, a2.negated(), d);
}

/// Square roots of numbers that are alike are alike.
pub proof fn law_root_of_alike(a: Binary64, a2: Binary64)
    requires
        alike(a, a2),
    ensures
        alike(a.sqrt(), a2.sqrt()),
{
    let x: u64 = root_bits(a.bits);
    let y: u64 = root_bits(a2.bits);
    assert(alike(Binary64 { bits: x }, Binary64 { bits: y }));
}

/// The two differences of two finite numbers are opposite.
proof fn lemma_finite_difference_turns(x: u64, y: u64)
    requires
        is_finite(x),
        is_finite(y),
    ensures
        is_zero(finite_sum(x, negated_bits(y))) && is_zero(finite_sum(y, negated_bits(x)))
            || finite_sum(x, negated_bits(y)) == negated_bits(finite_sum(y, negated_bits(x))),
{
    let nx: u64 = negated_bits(x);
    let ny: u64 = negated_bits(y);
    lemma_magnitude_decides(x, nx);
    lemma_magnitude_decides(y, ny);
    let e: int = if exponent(x) <= exponent(y) {
        exponent(x)
    } else {
        exponent(y)
    };
    let px: nat = pow2((exponent(x) - e) as nat);
    let py: nat = pow2((exponent(y) - e) as nat);
    let sx: int = signed_significand(x);
    let sy: int = signed_significand(y);
    assert(signed_significand(nx) == -sx);
    assert(signed_significand(ny) == -sy);
    assert((-sx) * px == -(sx * px)) by (nonlinear_arith);
    assert((-sy) * py == -(sy * py)) by (nonlinear_arith);
    let forth: int = sx * px + (-sy) * py;
    let back: int = sy * py + (-sx) * px;
    assert(back == -forth);
    if forth == 0 {
        lemma_with_sign(negative(x) && negative(ny), 0);
        lemma_with_sign(negative(y) && negative(nx), 0);
    } else if forth > 0 {
        let m: nat = round_magnitude(forth as nat, 1, e);
        lemma_rounding_bounded(forth as nat, 1, e);
        lemma_with_sign(true, m);
        lemma_with_sign(false, m);
        assert(finite_sum(x, ny) == with_sign(false, m));
        assert(finite_sum(y, nx) == with_sign(true, m));
    } else {
        let m: nat = round_magnitude(back as nat, 1, e);
        lemma_rounding_bounded(back as nat, 1, e);
        lemma_with_sign(true, m);
        lemma_with_sign(false, m);
        assert(finite_sum(x, ny) == with_sign(true, m));
        assert(finite_sum(y, nx) == with_sign(false, m));
    }
}

/// The two differences of two numbers are opposite.
pub proof fn law_difference_turns(a: Binary64, b: Binary64)
    ensures
        opposite(a.minus(b), b.minus(a)),
{
    let forth: u64 = difference_bits(a.bits, b.bits);
    let back: u64 = difference_bits(b.bits, a.bits);
    lemma_difference_bits_turn(a.bits, b.bits);
    lemma_turned_is_opposite(forth, back);
}

/// Whether two patterns are both NaN, both zero, or one the other with its
/// sign turned.
spec fn turned(forth: u64, back: u64) -> bool {
    ||| is_nan(forth) && is_nan(back)
    ||| is_zero(forth) && is_zero(back)
    ||| forth == negated_bits(back)
}

/// Patterns that are turned are the patterns of opposite numbers.
proof fn lemma_turned_is_opposite(forth: u64, back: u64)
    requires
        turned(forth, back),
    ensures
        opposite(Binary64 { bits: forth }, Binary64 { bits: back }),
{
    lemma_magnitude_decides(back, negated_bits(back));
}

/// The two differences of two patterns are turned.
proof fn lemma_difference_bits_turn(x: u64, y: u64)
    ensures
        turned(difference_bits(x, y), difference_bits(y, x)),
{
    let nx: u64 = negated_bits(x);
    let ny: u64 = negated_bits(y);
    lemma_negated_twice(x);
    lemma_negated_twice(y);
    lemma_magnitude_decides(x, nx);
    lemma_magnitude_decides(y, ny);
    if is_finite(x) && is_finite(y) {
        lemma_finite_difference_turns(x, y);
    } else if is_nan(x) || is_nan(y) {
    } else {
        lemma_infinite_difference_turns(x, y);
    }
}

/// The same where one of the two patterns is an infinity and none a NaN.
proof fn lemma_infinite_difference_turns(x: u64, y: u64)
    requires
        !is_nan(x),
        !is_nan(y),
        !is_finite(x) || !is_finite(y),
    ensures
        ({
            let forth = sum_bits(x, negated_bits(y));
            let back = sum_bits(y, negated_bits(x));
            is_nan(forth) && is_nan(back) || forth == negated_bits(back)
        }),
{
    let nx: u64 = negated_bits(x);
    let ny: u64 = negated_bits(y);
    let forth: u64 = sum_bits(x, ny);
    let back: u64 = sum_bits(y, nx);
    lemma_negated_twice(x);
    lemma_negated_twice(y);
    lemma_magnitude_decides(x, nx);
    lemma_magnitude_decides(y, ny);
    if is_finite(y) {
        assert(forth == x && back == nx);
    } else if is_finite(x) {
        assert(forth == ny && back == y);
    } else if negative(x) == negative(y) {
        assert(is_nan(forth) && is_nan(back));
    } else {
        assert(forth == x && back == y);
        assert(x == ny);
    }
}

/// Turning the sign twice gives the pattern back, and patterns of one
/// magnitude and one sign are one pattern.
proof fn lemma_negated_twice(x: u64)
    ensures
        negated_bits(negated_bits(x)) == x,
        magnitude(negated_bits(x)) == magnitude(x),
        negative(negated_bits(x)) == !negative(x),
        forall|y: u64|
            magnitude(y) == magnitude(x) && negative(y) == negative(x) ==> y == x,
{
}

} // verus!
