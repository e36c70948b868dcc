//! The summary of one observation: the step from the empty summary.
//!
//! The first finite observation leaves its own value as the sum and zero in
//! every moment, exactly: there is one observation, and it does not deviate
//! from itself.

use crate::alike::{alike, law_sum_of_alike};
use crate::arithmetic::{count_bits, signed_significand};
use crate::binary64::{exponent, lemma_finite_parts, significand, Binary64};
use crate::exact::{law_exact_product, law_exact_quotient, law_exact_sum, signed_value};
use crate::method::Method;
use crate::moments::{spec_quartic_weight, Axis};
use crate::nearest::law_count_exact;
use crate::pair::{spec_cross_step, PairSummary};
use crate::rounding::MIN_EXPONENT;
use crate::scalar::ScalarSummary;
use vstd::arithmetic::power2::{lemma_pow2_pos, pow2};
use vstd::prelude::*;

verus! {

/// A count from one to `2^53` is a finite number above zero, and the value
/// of its pattern is the count.
pub proof fn lemma_count_is_positive(n: u64)
    requires
        0 < n <= 0x20_0000_0000_0000,
    ensures
        Binary64::from_count(n).is_finite(),
        !Binary64::from_count(n).is_zero(),
        signed_value(count_bits(n)) == n * pow2(1074),
{
    law_count_exact(n);
    lemma_pow2_pos(1074);
    lemma_finite_parts(count_bits(n));
    assert(n * pow2(1074) > 0) by (nonlinear_arith)
        requires
            n > 0,
            pow2(1074) > 0,
    ;
    let s: nat = significand(count_bits(n));
    let p: nat = pow2((exponent(count_bits(n)) - MIN_EXPONENT) as nat);
    assert(s != 0) by (nonlinear_arith)
        requires
            s * p > 0,
    ;
}

/// Counts add as the integers they are, as long as the sum is at most
/// `2^53`.
pub proof fn law_counts_add(n: u64, k: u64)
    requires
        0 < n + k <= 0x20_0000_0000_0000,
    ensures
        Binary64::from_count(n).plus(Binary64::from_count(k)) == Binary64::from_count(
            (n + k) as u64,
        ),
{
    law_count_exact(n);
    law_count_exact(k);
    lemma_count_is_positive((n + k) as u64);
    assert(n * pow2(1074) + k * pow2(1074) == (n + k) * pow2(1074)) by (nonlinear_arith);
    law_exact_sum(
        Binary64::from_count(n),
        Binary64::from_count(k),
        Binary64::from_count((n + k) as u64),
    );
}

/// Counts multiply as the integers they are, as long as the product is at
/// most `2^53`.
pub proof fn law_counts_multiply(n: u64, k: u64)
    requires
        0 < n * k <= 0x20_0000_0000_0000,
    ensures
        Binary64::from_count(n).times(Binary64::from_count(k)) == Binary64::from_count(
            (n * k) as u64,
        ),
{
    assert(0 < n <= 0x20_0000_0000_0000 && 0 < k <= 0x20_0000_0000_0000) by (nonlinear_arith)
        requires
            0 < n * k <= 0x20_0000_0000_0000,
    ;
    law_count_exact(n);
    law_count_exact(k);
    lemma_count_is_positive((n * k) as u64);
    let unit: nat = pow2(1074);
    assert((n * unit) * (k * unit) == ((n * k) * unit) * unit) by (nonlinear_arith);
    law_exact_product(
        Binary64::from_count(n),
        Binary64::from_count(k),
        Binary64::from_count((n * k) as u64),
    );
}

/// The weight of the fourth power in the update for the first observation
/// is one.
proof fn lemma_first_weight()
    ensures
        spec_quartic_weight(Binary64::from_count(1)) == Binary64::from_count(1),
{
    let one: Binary64 = Binary64::from_count(1);
    let two: Binary64 = Binary64::from_count(2);
    let three: Binary64 = Binary64::from_count(3);
    law_counts_multiply(1, 1);
    law_counts_multiply(3, 1);
    lemma_count_is_positive(1);
    lemma_count_is_positive(2);
    lemma_count_is_positive(3);
    // 1 - 3 == -2
    assert(signed_value(three.negated().bits) == -signed_value(three.bits));
    assert(signed_value(two.negated().bits) == -signed_value(two.bits));
    assert(1 * pow2(1074) - 3 * pow2(1074) == -(2 * pow2(1074))) by (nonlinear_arith);
    law_exact_sum(one, three.negated(), two.negated());
    assert(one.minus(three) == two.negated());
    // -2 + 3 == 1
    assert(-(2 * pow2(1074)) + 3 * pow2(1074) == 1 * pow2(1074)) by (nonlinear_arith);
    law_exact_sum(two.negated(), three, one);
}

/// A zero times a finite number, and a zero over a finite number that is not
/// zero, is a zero; sums and differences of zeros are zeros; and a finite
/// number less itself is a zero.
proof fn lemma_zeros(z: Binary64, w: Binary64, f: Binary64)
    requires
        z.is_zero(),
        w.is_zero(),
        f.is_finite(),
    ensures
        z.times(f).is_zero(),
        f.times(z).is_zero(),
        !f.is_zero() ==> z.over(f).is_zero(),
        z.plus(w).is_zero(),
        z.minus(w).is_zero(),
        f.minus(f).is_zero(),
{
    lemma_finite_parts(z.bits);
    lemma_finite_parts(w.bits);
    lemma_finite_parts(f.bits);
    let p: nat = pow2(0);
    assert(0 * p == 0) by (nonlinear_arith);
    let s: int = signed_significand(f.bits);
    assert(s * p + (-s) * p == 0) by (nonlinear_arith);
}

/// A finite number and a zero add up to the number.
proof fn lemma_plus_zero(v: Binary64, z: Binary64)
    requires
        v.is_finite(),
        z.is_zero(),
    ensures
        alike(v.plus(z), v),
        alike(z.plus(v), v),
{
    if v.is_zero() {
        lemma_zeros(v, z, v);
        lemma_zeros(z, v, v);
    } else {
        lemma_finite_parts(z.bits);
        assert(0 * pow2(0) == 0) by (nonlinear_arith);
        assert(signed_value(z.bits) == 0);
        law_exact_sum(v, z, v);
        law_exact_sum(z, v, v);
    }
}

/// The axis of the first observation, where it is finite: the observation as
/// the sum, and zero in every moment.
pub proof fn law_first_on_axis(value: Binary64)
    requires
        value.is_finite(),
    ensures
        alike(Axis::empty().accumulated(0, value).sum, value),
        Axis::empty().accumulated(0, value).m2.is_zero(),
        Axis::empty().accumulated(0, value).m3.is_zero(),
        Axis::empty().accumulated(0, value).m4.is_zero(),
        Axis::empty().deviation(0, value).is_zero(),
{
    let zero: Binary64 = Binary64::zero();
    let one: Binary64 = Binary64::from_count(1);
    assert(Binary64::from_count(0) == zero);
    lemma_first_deviation(value);
    let delta: Binary64 = value.minus(value);
    let delta_n: Binary64 = delta.over(one);
    let rest: Binary64 = value.minus(value.plus(delta_n));
    let term: Binary64 = delta.times(delta_n).times(zero);
    lemma_zeros(delta, zero, delta_n);
    lemma_zeros(delta.times(delta_n), zero, zero);
    // Second moment.
    lemma_zeros(delta, zero, rest);
    lemma_zeros(zero, delta.times(rest), zero);
    // Third and fourth moments.
    lemma_third_of_zeros(zero, zero, term, delta_n);
    lemma_fourth_of_zeros(zero, zero, zero, term, delta_n);
}

/// What the update makes of the first observation before it comes to the
/// moments: a deviation of zero, which stays zero over the count and leaves
/// the mean at the observation.
proof fn lemma_first_deviation(value: Binary64)
    requires
        value.is_finite(),
    ensures
        value.minus(value).is_zero(),
        value.minus(value).over(Binary64::from_count(1)).is_zero(),
        value.minus(value.plus(value.minus(value).over(Binary64::from_count(1)))).is_zero(),
        alike(Binary64::zero().plus(value), value),
{
    let zero: Binary64 = Binary64::zero();
    let one: Binary64 = Binary64::from_count(1);
    lemma_count_is_positive(1);
    let delta: Binary64 = value.minus(value);
    lemma_zeros(zero, zero, value);
    let delta_n: Binary64 = delta.over(one);
    lemma_zeros(delta, zero, one);
    let mean_after: Binary64 = value.plus(delta_n);
    lemma_plus_zero(value, delta_n);
    lemma_plus_zero(value, zero);
    assert(alike(mean_after.negated(), value.negated()));
    law_sum_of_alike(value, value, mean_after.negated(), value.negated());
}

/// The third moment after the first observation: zero, from a second and a
/// third moment of zero and a term and a deviation of zero.
proof fn lemma_third_of_zeros(m2: Binary64, m3: Binary64, term: Binary64, delta_n: Binary64)
    requires
        m2.is_zero(),
        m3.is_zero(),
        term.is_zero(),
        delta_n.is_zero(),
    ensures
        m3.plus(
            term.times(delta_n).times(Binary64::from_count(1).minus(Binary64::from_count(2))),
        ).minus(Binary64::from_count(3).times(delta_n).times(m2)).is_zero(),
{
    let one: Binary64 = Binary64::from_count(1);
    let two: Binary64 = Binary64::from_count(2);
    let three: Binary64 = Binary64::from_count(3);
    lemma_count_is_positive(1);
    lemma_count_is_positive(2);
    lemma_count_is_positive(3);
    let gap: Binary64 = one.minus(two);
    assert(gap.is_finite()) by {
        assert(signed_value(two.negated().bits) == -signed_value(two.bits));
        assert(signed_value(one.negated().bits) == -signed_value(one.bits));
        assert(1 * pow2(1074) - 2 * pow2(1074) == -(1 * pow2(1074))) by (nonlinear_arith);
        law_exact_sum(one, two.negated(), one.negated());
    }
    lemma_zeros(term, m3, delta_n);
    lemma_zeros(term.times(delta_n), m3, gap);
    lemma_zeros(m3, term.times(delta_n).times(gap), m3);
    lemma_zeros(delta_n, m3, three);
    lemma_zeros(three.times(delta_n), m3, m2);
    lemma_zeros(m3.plus(term.times(delta_n).times(gap)), three.times(delta_n).times(m2), m3);
}

/// The fourth moment after the first observation: zero, in the same way.
proof fn lemma_fourth_of_zeros(
    m2: Binary64,
    m3: Binary64,
    m4: Binary64,
    term: Binary64,
    delta_n: Binary64,
)
    requires
        m2.is_zero(),
        m3.is_zero(),
        m4.is_zero(),
        term.is_zero(),
        delta_n.is_zero(),
    ensures
        m4.plus(
            term.times(delta_n.times(delta_n)).times(
                spec_quartic_weight(Binary64::from_count(1)),
            ),
        ).plus(Binary64::from_count(6).times(delta_n.times(delta_n)).times(m2)).minus(
            Binary64::from_count(4).times(delta_n).times(m3),
        ).is_zero(),
{
    let one: Binary64 = Binary64::from_count(1);
    let four: Binary64 = Binary64::from_count(4);
    let six: Binary64 = Binary64::from_count(6);
    lemma_count_is_positive(1);
    lemma_count_is_positive(4);
    lemma_count_is_positive(6);
    lemma_first_weight();
    let delta_n2: Binary64 = delta_n.times(delta_n);
    lemma_zeros(delta_n, m4, delta_n);
    lemma_zeros(term, m4, delta_n2);
    lemma_zeros(term.times(delta_n2), m4, one);
    let first: Binary64 = m4.plus(term.times(delta_n2).times(one));
    lemma_zeros(m4, term.times(delta_n2).times(one), m4);
    lemma_zeros(delta_n2, m4, six);
    lemma_zeros(six.times(delta_n2), m4, m2);
    let second: Binary64 = first.plus(six.times(delta_n2).times(m2));
    lemma_zeros(first, six.times(delta_n2).times(m2), m4);
    lemma_zeros(delta_n, m4, four);
    lemma_zeros(four.times(delta_n), m4, m3);
    lemma_zeros(second, four.times(delta_n).times(m3), m4);
}

/// The summary of the first observation, where it is finite, holds the
/// observation as the sum and zero in every moment.
pub proof fn law_first_observation(value: Binary64)
    requires
        value.is_finite(),
    ensures
        ScalarSummary::new().accumulate(value).n == 1,
        alike(ScalarSummary::new().accumulate(value).sum, value),
        ScalarSummary::new().accumulate(value).m2.is_zero(),
        ScalarSummary::new().accumulate(value).m3.is_zero(),
        ScalarSummary::new().accumulate(value).m4.is_zero(),
{
    law_first_on_axis(value);
    assert(ScalarSummary::new().spec_axis() == Axis::empty());
}

/// The statistics of one finite observation: the observation is the mean,
/// and the population variance and standard deviation are zero.
pub proof fn law_first_statistics(value: Binary64)
    requires
        value.is_finite(),
    ensures
        ScalarSummary::new().accumulate(value).average() matches Some(mean) && alike(mean, value),
        ScalarSummary::new().accumulate(value).variance_population() matches Some(v)
            && v.is_zero(),
        ScalarSummary::new().accumulate(value).spec_stddev(Method::Population) matches Some(d)
            && d.is_zero(),
        ScalarSummary::new().accumulate(value).variance_sample() is None,
{
    law_first_observation(value);
    let s: ScalarSummary = ScalarSummary::new().accumulate(value);
    let one: Binary64 = Binary64::from_count(1);
    lemma_count_is_positive(1);
    lemma_zeros(s.m2, s.m2, one);
    lemma_zeros(s.m2.over(one), s.m2, one);
    assert(s.m2.over(one).sqrt().is_zero());
    if value.is_zero() {
        lemma_zeros(s.sum, s.sum, one);
    } else {
        assert(s.sum == value);
        assert(signed_value(value.bits) * pow2(1074) == signed_value(one.bits) * signed_value(
            value.bits,
        )) by (nonlinear_arith)
            requires
                signed_value(one.bits) == 1 * pow2(1074),
        ;
        law_exact_quotient(value, one, value);
    }
}

/// The summary of the first pair, where both of its parts are finite, holds
/// the parts as the sums and zero in every moment.
pub proof fn law_first_pair(x: Binary64, y: Binary64)
    requires
        x.is_finite(),
        y.is_finite(),
    ensures
        PairSummary::new().accumulate(x, y).n == 1,
        alike(PairSummary::new().accumulate(x, y).sum_x, x),
        alike(PairSummary::new().accumulate(x, y).sum_y, y),
        PairSummary::new().accumulate(x, y).m2x.is_zero(),
        PairSummary::new().accumulate(x, y).m3x.is_zero(),
        PairSummary::new().accumulate(x, y).m4x.is_zero(),
        PairSummary::new().accumulate(x, y).m2y.is_zero(),
        PairSummary::new().accumulate(x, y).m3y.is_zero(),
        PairSummary::new().accumulate(x, y).m4y.is_zero(),
        PairSummary::new().accumulate(x, y).c11.is_zero(),
{
    law_first_on_axis(x);
    law_first_on_axis(y);
    assert(PairSummary::new().spec_x_axis() == Axis::empty());
    assert(PairSummary::new().spec_y_axis() == Axis::empty());
    let zero: Binary64 = Binary64::zero();
    let one: Binary64 = Binary64::from_count(1);
    lemma_count_is_positive(1);
    assert(Binary64::from_count(0) == zero);
    let dx: Binary64 = Axis::empty().deviation(0, x);
    let dy: Binary64 = Axis::empty().deviation(0, y);
    lemma_zeros(zero, zero, one);
    lemma_zeros(zero.over(one), zero, dx);
    lemma_zeros(zero.over(one).times(dx), zero, dy);
    assert(spec_cross_step(dx, dy, 0) == zero.over(one).times(dx).times(dy));
    lemma_zeros(zero, spec_cross_step(dx, dy, 0), zero);
}

} // verus!
