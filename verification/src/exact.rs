//! That an operation whose exact result the format holds returns that
//! result: sums, differences and products of numbers are not rounded where
//! there is nothing to round.

use crate::arithmetic::{finite_sum, product_bits, quotient_bits, signed_significand};
use crate::binary::lemma_cancel_common_factor;
use crate::binary64::{
    exponent, lemma_finite_parts, magnitude, negative, significand, with_sign, Binary64,
};
use crate::nearest::{law_representable_is_fixed, scaled_value};
use crate::rounding::{nearest_integer, quantum_exponent, round_magnitude, MIN_EXPONENT, SCALE};
use vstd::arithmetic::power2::{lemma_pow2_adds, lemma_pow2_pos, pow2};
use vstd::prelude::*;

verus! {

/// The value of a finite number, counted in units of the least subnormal
/// number, `2^-1074`.
pub open spec fn signed_value(bits: u64) -> int {
    if negative(bits) {
        -(scaled_value(bits) as int)
    } else {
        scaled_value(bits) as int
    }
}

/// The rounding of a dyadic value depends on the value alone, not on how it
/// is split into an integer and a power of two.
pub proof fn lemma_rounding_of_equal_values(num: nat, exp: int, num2: nat, exp2: int)
    requires
        exp + SCALE >= 0,
        exp2 + SCALE >= 0,
        num * pow2((exp + SCALE) as nat) == num2 * pow2((exp2 + SCALE) as nat),
    ensures
        round_magnitude(num, 1, exp) == round_magnitude(num2, 1, exp2),
{
}

/// A pattern is its sign and its magnitude.
proof fn lemma_sign_and_magnitude(x: u64, y: u64)
    requires
        negative(x) == negative(y),
        magnitude(x) == magnitude(y),
    ensures
        x == y,
        x == with_sign(negative(x), magnitude(x) as nat),
{
}

/// The sum of two finite numbers is exact where the format holds it:
/// a finite number `c` other than zero whose value is the sum of the values
/// of `a` and `b` is their sum.
pub proof fn law_exact_sum(a: Binary64, b: Binary64, c: Binary64)
    requires
        a.is_finite(),
        b.is_finite(),
        c.is_finite(),
        !c.is_zero(),
        signed_value(a.bits) + signed_value(b.bits) == signed_value(c.bits),
    ensures
        a.plus(b) == c,
{
    let x: u64 = a.bits;
    let y: u64 = b.bits;
    let z: u64 = c.bits;
    lemma_finite_parts(x);
    lemma_finite_parts(y);
    lemma_finite_parts(z);
    let e: int = if exponent(x) <= exponent(y) {
        exponent(x)
    } else {
        exponent(y)
    };
    let px: nat = pow2((exponent(x) - e) as nat);
    let py: nat = pow2((exponent(y) - e) as nat);
    let base: nat = pow2((e - MIN_EXPONENT) as nat);
    let lift: nat = pow2((MIN_EXPONENT + SCALE) as nat);
    lemma_pow2_adds((exponent(x) - e) as nat, (e - MIN_EXPONENT) as nat);
    lemma_pow2_adds((exponent(y) - e) as nat, (e - MIN_EXPONENT) as nat);
    lemma_pow2_adds((e - MIN_EXPONENT) as nat, (MIN_EXPONENT + SCALE) as nat);
    lemma_pow2_adds((exponent(z) - MIN_EXPONENT) as nat, (MIN_EXPONENT + SCALE) as nat);
    lemma_pow2_pos((e - MIN_EXPONENT) as nat);
    lemma_pow2_pos((exponent(z) - MIN_EXPONENT) as nat);
    let sx: int = signed_significand(x);
    let sy: int = signed_significand(y);
    let total: int = sx * px + sy * py;
    let mx: nat = scaled_value(x);
    assert(signed_value(x) == sx * (px * base)) by (nonlinear_arith)
        requires
            mx == significand(x) * pow2((exponent(x) - MIN_EXPONENT) as nat),
            negative(x) ==> signed_value(x) == -mx && sx == -significand(x),
            !negative(x) ==> signed_value(x) == mx && sx == significand(x),
            pow2((exponent(x) - MIN_EXPONENT) as nat) == px * base,
    ;
    let my: nat = scaled_value(y);
    assert(signed_value(y) == sy * (py * base)) by (nonlinear_arith)
        requires
            my == significand(y) * pow2((exponent(y) - MIN_EXPONENT) as nat),
            negative(y) ==> signed_value(y) == -my && sy == -significand(y),
            !negative(y) ==> signed_value(y) == my && sy == significand(y),
            pow2((exponent(y) - MIN_EXPONENT) as nat) == py * base,
    ;
    assert(signed_value(x) + signed_value(y) == total * base) by (nonlinear_arith)
        requires
            signed_value(x) == sx * (px * base),
            signed_value(y) == sy * (py * base),
            total == sx * px + sy * py,
    ;
    let target: nat = scaled_value(z);
    assert(target > 0) by (nonlinear_arith)
        requires
            target == significand(z) * pow2((exponent(z) - MIN_EXPONENT) as nat),
            significand(z) > 0,
            pow2((exponent(z) - MIN_EXPONENT) as nat) > 0,
    ;
    let size: nat = if total >= 0 {
        total as nat
    } else {
        (-total) as nat
    };
    assert(size * base == target && (total < 0) == negative(z) && total != 0)
        by (nonlinear_arith)
        requires
            total * base == signed_value(z),
            signed_value(z) == (if negative(z) {
                -(target as int)
            } else {
                target as int
            }),
            target > 0,
            base > 0,
            size == (if total >= 0 {
                total
            } else {
                -total
            }),
    ;
    assert(size * pow2((e + SCALE) as nat) == significand(z) * pow2((exponent(z) + SCALE) as nat))
        by (nonlinear_arith)
        requires
            size * base == significand(z) * pow2((exponent(z) - MIN_EXPONENT) as nat),
            pow2((e + SCALE) as nat) == base * lift,
            pow2((exponent(z) + SCALE) as nat) == pow2((exponent(z) - MIN_EXPONENT) as nat) * lift,
    ;
    lemma_rounding_of_equal_values(size, e, significand(z), exponent(z));
    law_representable_is_fixed(z);
    assert(finite_sum(x, y) == with_sign(total < 0, magnitude(z) as nat));
    lemma_sign_and_magnitude(finite_sum(x, y), z);
}

/// The product of two finite numbers is exact where the format holds it: a
/// finite number `c` other than zero whose value is the product of the
/// values of `a` and `b` is their product.
pub proof fn law_exact_product(a: Binary64, b: Binary64, c: Binary64)
    requires
        a.is_finite(),
        b.is_finite(),
        c.is_finite(),
        !c.is_zero(),
        signed_value(a.bits) * signed_value(b.bits) == signed_value(c.bits) * pow2(1074),
    ensures
        a.times(b) == c,
{
    let x: u64 = a.bits;
    let y: u64 = b.bits;
    let z: u64 = c.bits;
    lemma_finite_parts(x);
    lemma_finite_parts(y);
    lemma_finite_parts(z);
    let px: nat = pow2((exponent(x) - MIN_EXPONENT) as nat);
    let py: nat = pow2((exponent(y) - MIN_EXPONENT) as nat);
    let pz: nat = pow2((exponent(z) - MIN_EXPONENT) as nat);
    let unit: nat = pow2(1074);
    lemma_pow2_pos((exponent(x) - MIN_EXPONENT) as nat);
    lemma_pow2_pos((exponent(y) - MIN_EXPONENT) as nat);
    lemma_pow2_pos((exponent(z) - MIN_EXPONENT) as nat);
    lemma_pow2_pos(1074);
    let sx: nat = significand(x);
    let sy: nat = significand(y);
    let sz: nat = significand(z);
    let vx: int = signed_value(x);
    let vy: int = signed_value(y);
    let vz: int = signed_value(z);
    assert(sz * pz > 0) by (nonlinear_arith)
        requires
            sz > 0,
            pz > 0,
    ;
    // Neither factor is zero, and the signs multiply.
    assert(vx != 0 && vy != 0 && ((vx < 0) != (vy < 0)) == (vz < 0)) by (nonlinear_arith)
        requires
            vx * vy == vz * unit,
            vz != 0,
            unit > 0,
    ;
    assert(sx > 0 && sy > 0 && (vx < 0) == negative(x) && (vy < 0) == negative(y)) by {
        assert(sx * px >= 0 && sy * py >= 0) by (nonlinear_arith)
            requires
                sx >= 0,
                sy >= 0,
                px > 0,
                py > 0,
        ;
        assert(0 * px == 0 && 0 * py == 0) by (nonlinear_arith);
    }
    assert((sx * px) * (sy * py) == (sz * pz) * unit) by (nonlinear_arith)
        requires
            vx * vy == vz * unit,
            vx == sx * px || vx == -(sx * px),
            vy == sy * py || vy == -(sy * py),
            vz == sz * pz || vz == -(sz * pz),
            sx * px > 0,
            sy * py > 0,
            sz * pz > 0,
            unit > 0,
            (vx < 0) == (vx == -(sx * px)),
            (vy < 0) == (vy == -(sy * py)),
            (vz < 0) == (vz == -(sz * pz)),
            ((vx < 0) != (vy < 0)) == (vz < 0),
    ;
    // (sx * sy) * 2^(ex + ey + SCALE) == sz * 2^(ez + SCALE)
    let exy: int = exponent(x) + exponent(y);
    let lift: nat = pow2((exy + SCALE) as nat);
    let drop: nat = pow2((SCALE - 2 * 1074) as nat);
    lemma_pow2_adds((exponent(x) - MIN_EXPONENT) as nat, (exponent(y) - MIN_EXPONENT) as nat);
    lemma_pow2_adds((exy + 2 * 1074) as nat, (SCALE - 2 * 1074) as nat);
    lemma_pow2_adds((exponent(z) - MIN_EXPONENT) as nat, 1074);
    lemma_pow2_adds((exponent(z) + 2 * 1074) as nat, (SCALE - 2 * 1074) as nat);
    let both: nat = (sx * px) * (sy * py);
    assert(both == (sx * sy) * (px * py)) by (nonlinear_arith)
        requires
            both == (sx * px) * (sy * py),
    ;
    assert((sx * sy) * lift == both * drop) by (nonlinear_arith)
        requires
            both == (sx * sy) * (px * py),
            lift == (px * py) * drop,
    ;
    assert(sz * pow2((exponent(z) + SCALE) as nat) == ((sz * pz) * unit) * drop)
        by (nonlinear_arith)
        requires
            pow2((exponent(z) + SCALE) as nat) == (pz * unit) * drop,
    ;
    lemma_rounding_of_equal_values(sx * sy, exy, sz, exponent(z));
    law_representable_is_fixed(z);
    assert(product_bits(x, y) == with_sign(negative(x) != negative(y), magnitude(z) as nat));
    lemma_sign_and_magnitude(product_bits(x, y), z);
}

/// The rounding of a fraction that is a dyadic value is the rounding of that
/// value.
pub proof fn lemma_rounding_of_whole_ratio(num: nat, den: nat, exp: int, num2: nat, exp2: int)
    requires
        den > 0,
        exp + SCALE >= 0,
        exp2 + SCALE >= 0,
        num * pow2((exp + SCALE) as nat) == den * (num2 * pow2((exp2 + SCALE) as nat)),
    ensures
        round_magnitude(num, den, exp) == round_magnitude(num2, 1, exp2),
{
    let value: nat = num2 * pow2((exp2 + SCALE) as nat);
    assert(value * den == den * value) by (nonlinear_arith);
    assert(1 * den == den) by (nonlinear_arith);
    lemma_cancel_common_factor(value, 1, den);
    assert(value / 1 == value);
    let quantum: int = quantum_exponent(num2, 1, exp2);
    assert(quantum_exponent(num, den, exp) == quantum);
    let unit: nat = pow2((quantum + SCALE) as nat);
    lemma_pow2_pos((quantum + SCALE) as nat);
    assert(1 * unit == unit) by (nonlinear_arith);
    assert(unit * den == den * unit) by (nonlinear_arith);
    lemma_cancel_common_factor(value, unit, den);
    let r: nat = value % unit;
    assert((2 * (r * den) > unit * den) == (2 * r > unit) && (2 * (r * den) == unit * den) == (2
        * r == unit)) by (nonlinear_arith)
        requires
            den > 0,
    ;
    assert(nearest_integer(den * value, den * unit) == nearest_integer(value, unit));
}

/// The quotient of two finite numbers is exact where the format holds it: a
/// finite number `c` other than zero whose value times the value of `b` is
/// the value of `a` is the quotient of `a` by `b`.
pub proof fn law_exact_quotient(a: Binary64, b: Binary64, c: Binary64)
    requires
        a.is_finite(),
        b.is_finite(),
        c.is_finite(),
        !c.is_zero(),
        signed_value(a.bits) * pow2(1074) == signed_value(b.bits) * signed_value(c.bits),
    ensures
        !b.is_zero() ==> a.over(b) == c,
{
    let x: u64 = a.bits;
    let y: u64 = b.bits;
    let z: u64 = c.bits;
    lemma_finite_parts(x);
    lemma_finite_parts(y);
    lemma_finite_parts(z);
    if !b.is_zero() {
        let px: nat = pow2((exponent(x) - MIN_EXPONENT) as nat);
        let py: nat = pow2((exponent(y) - MIN_EXPONENT) as nat);
        let pz: nat = pow2((exponent(z) - MIN_EXPONENT) as nat);
        let unit: nat = pow2(1074);
        lemma_pow2_pos((exponent(x) - MIN_EXPONENT) as nat);
        lemma_pow2_pos((exponent(y) - MIN_EXPONENT) as nat);
        lemma_pow2_pos((exponent(z) - MIN_EXPONENT) as nat);
        lemma_pow2_pos(1074);
        let sx: nat = significand(x);
        let sy: nat = significand(y);
        let sz: nat = significand(z);
        let vx: int = signed_value(x);
        let vy: int = signed_value(y);
        let vz: int = signed_value(z);
        assert(sz * pz > 0 && sy * py > 0 && sx * px >= 0) by (nonlinear_arith)
            requires
                sz > 0,
                pz > 0,
                sy > 0,
                py > 0,
                sx >= 0,
                px > 0,
        ;
        assert(0 * px == 0) by (nonlinear_arith);
        // The dividend is not zero, and the signs divide.
        assert(vx != 0 && (vx < 0) == ((vy < 0) != (vz < 0))) by (nonlinear_arith)
            requires
                vx * unit == vy * vz,
                vy != 0,
                vz != 0,
                unit > 0,
        ;
        assert((sx * px) * unit == (sy * py) * (sz * pz)) by (nonlinear_arith)
            requires
                vx * unit == vy * vz,
                vx == sx * px || vx == -(sx * px),
                vy == sy * py || vy == -(sy * py),
                vz == sz * pz || vz == -(sz * pz),
                sx * px > 0,
                sy * py > 0,
                sz * pz > 0,
                unit > 0,
                (vx < 0) == (vx == -(sx * px)),
                (vy < 0) == (vy == -(sy * py)),
                (vz < 0) == (vz == -(sz * pz)),
                (vx < 0) == ((vy < 0) != (vz < 0)),
        ;
        // sx * 2^(ex - ey + SCALE) == sy * (sz * 2^(ez + SCALE))
        let gap: int = exponent(x) - exponent(y);
        let left: nat = sx * pow2((gap + SCALE) as nat);
        let right: nat = sy * (sz * pow2((exponent(z) + SCALE) as nat));
        let whole: nat = pow2(SCALE as nat);
        let drop: nat = pow2((SCALE - 1074) as nat);
        lemma_pow2_adds((gap + SCALE) as nat, (exponent(y) - MIN_EXPONENT) as nat);
        lemma_pow2_adds((exponent(x) - MIN_EXPONENT) as nat, SCALE as nat);
        lemma_pow2_adds((exponent(z) - MIN_EXPONENT) as nat, (SCALE - 1074) as nat);
        lemma_pow2_adds(1074, (SCALE - 1074) as nat);
        let both: nat = (sx * px) * unit;
        assert(left * py == (sx * px) * whole) by (nonlinear_arith)
            requires
                left == sx * pow2((gap + SCALE) as nat),
                pow2((gap + SCALE) as nat) * py == px * whole,
        ;
        assert((sx * px) * whole == both * drop) by (nonlinear_arith)
            requires
                both == (sx * px) * unit,
                whole == unit * drop,
        ;
        assert(right * py == both * drop) by (nonlinear_arith)
            requires
                right == sy * (sz * pow2((exponent(z) + SCALE) as nat)),
                pow2((exponent(z) + SCALE) as nat) == pz * drop,
                both == (sy * py) * (sz * pz),
        ;
        assert(left == right) by (nonlinear_arith)
            requires
                left * py == right * py,
                py > 0,
        ;
        lemma_rounding_of_whole_ratio(sx, sy, gap, sz, exponent(z));
        law_representable_is_fixed(z);
        assert(quotient_bits(x, y) == with_sign(negative(x) != negative(y), magnitude(z) as nat));
        lemma_sign_and_magnitude(quotient_bits(x, y), z);
    }
}

} // verus!
