//! That a merge gives the same numbers in either order, in every field.
//!
//! Turning the order of a merge round turns the sign of the difference of
//! the two means, and of the difference of the two counts. Each moment is
//! built from products in which these signs meet in pairs, so each comes out
//! as the same number. It may come out as a zero of the other sign, which is
//! why the law speaks of numbers that are alike and not of equal patterns.

use crate::alike::{
    alike, law_difference_turns, law_product_of_alike, law_product_of_opposites,
    law_product_turns, law_quotient_of_alike, law_root_of_alike, law_sum_of_alike, opposite,
};
use crate::binary64::Binary64;
use crate::laws::{law_axis_merge_commutes, law_product_commutes, law_sum_commutes};
use crate::moments::Axis;
use crate::pair::{spec_cross_shift, PairSummary};
use crate::scalar::ScalarSummary;
use vstd::prelude::*;

verus! {

/// Whether two statistics are the same: both absent, or alike.
pub open spec fn alike_if_any(a: Option<Binary64>, b: Option<Binary64>) -> bool {
    match (a, b) {
        (Some(x), Some(y)) => alike(x, y),
        (None, None) => true,
        _ => false,
    }
}

/// The product of a factor and a number is opposite to the product of a
/// factor that is alike and the opposite number.
proof fn lemma_product_turns_right(a: Binary64, a2: Binary64, b: Binary64, b2: Binary64)
    requires
        alike(a, a2),
        opposite(b, b2),
    ensures
        opposite(a.times(b), a2.times(b2)),
{
    law_product_commutes(a, b);
    law_product_commutes(a2, b2);
    law_product_turns(b, b2, a, a2);
}

/// The share of the difference of the means in the third moment is the same
/// in either order.
proof fn lemma_shift3_turns(
    d: Binary64,
    d2: Binary64,
    n: u64,
    k: u64,
    m2_n: Binary64,
    m2_k: Binary64,
)
    requires
        opposite(d, d2),
        n + k <= u64::MAX,
    ensures
        alike(Axis::spec_shift3(d, n, k, m2_n, m2_k), Axis::spec_shift3(d2, k, n, m2_k, m2_n)),
{
    let a: Binary64 = Binary64::from_count(n);
    let b: Binary64 = Binary64::from_count(k);
    let whole: Binary64 = Binary64::from_count((n + k) as u64);
    let three: Binary64 = Binary64::from_count(3);
    // delta^3 * n * k * (n - k) / (n + k)^2
    law_product_of_opposites(d, d2, d, d2);
    lemma_product_turns_right(d.times(d), d2.times(d2), d, d2);
    let cube: Binary64 = d.times(d).times(d);
    let cube2: Binary64 = d2.times(d2).times(d2);
    law_product_commutes(a, b);
    law_product_turns(cube, cube2, a.times(b), b.times(a));
    law_difference_turns(a, b);
    law_product_of_opposites(
        cube.times(a.times(b)),
        cube2.times(b.times(a)),
        a.minus(b),
        b.minus(a),
    );
    let first: Binary64 = cube.times(a.times(b)).times(a.minus(b)).over(whole.times(whole));
    let first2: Binary64 = cube2.times(b.times(a)).times(b.minus(a)).over(whole.times(whole));
    law_quotient_of_alike(
        cube.times(a.times(b)).times(a.minus(b)),
        cube2.times(b.times(a)).times(b.minus(a)),
        whole.times(whole),
    );
    assert(alike(first, first2));
    // 3 * delta * (n * m2_k - k * m2_n) / (n + k)
    lemma_product_turns_right(three, three, d, d2);
    law_difference_turns(a.times(m2_k), b.times(m2_n));
    let gap: Binary64 = a.times(m2_k).minus(b.times(m2_n));
    let gap2: Binary64 = b.times(m2_n).minus(a.times(m2_k));
    law_product_of_opposites(three.times(d), three.times(d2), gap, gap2);
    law_quotient_of_alike(three.times(d).times(gap), three.times(d2).times(gap2), whole);
    let second: Binary64 = three.times(d).times(gap).over(whole);
    let second2: Binary64 = three.times(d2).times(gap2).over(whole);
    assert(alike(second, second2));
    law_sum_of_alike(first, first2, second, second2);
    assert(Axis::spec_shift3(d, n, k, m2_n, m2_k) == first.plus(second));
    assert(Axis::spec_shift3(d2, k, n, m2_k, m2_n) == first2.plus(second2));
}

/// The share of the difference of the means in the fourth moment is the
/// same in either order.
proof fn lemma_shift4_turns(
    d: Binary64,
    d2: Binary64,
    n: u64,
    k: u64,
    m2_n: Binary64,
    m2_k: Binary64,
    m3_n: Binary64,
    m3_k: Binary64,
)
    requires
        opposite(d, d2),
        n + k <= u64::MAX,
    ensures
        alike(
            Axis::spec_shift4(d, n, k, m2_n, m2_k, m3_n, m3_k),
            Axis::spec_shift4(d2, k, n, m2_k, m2_n, m3_k, m3_n),
        ),
{
    let a: Binary64 = Binary64::from_count(n);
    let b: Binary64 = Binary64::from_count(k);
    let whole: Binary64 = Binary64::from_count((n + k) as u64);
    let four: Binary64 = Binary64::from_count(4);
    let six: Binary64 = Binary64::from_count(6);
    let sq: Binary64 = d.times(d);
    let sq2: Binary64 = d2.times(d2);
    law_product_of_opposites(d, d2, d, d2);
    // delta^4 * n * k * (n^2 + k^2 - n * k) / (n + k)^3
    law_product_of_alike(sq, sq2, sq, sq2);
    law_product_commutes(a, b);
    law_product_of_alike(sq.times(sq), sq2.times(sq2), a.times(b), b.times(a));
    law_sum_commutes(a.times(a), b.times(b));
    let weight: Binary64 = a.times(a).plus(b.times(b)).minus(a.times(b));
    let weight2: Binary64 = b.times(b).plus(a.times(a)).minus(b.times(a));
    assert(weight == weight2);
    law_product_of_alike(
        sq.times(sq).times(a.times(b)),
        sq2.times(sq2).times(b.times(a)),
        weight,
        weight2,
    );
    let cube: Binary64 = whole.times(whole).times(whole);
    law_quotient_of_alike(
        sq.times(sq).times(a.times(b)).times(weight),
        sq2.times(sq2).times(b.times(a)).times(weight2),
        cube,
    );
    let first: Binary64 = sq.times(sq).times(a.times(b)).times(weight).over(cube);
    let first2: Binary64 = sq2.times(sq2).times(b.times(a)).times(weight2).over(cube);
    assert(alike(first, first2));
    // 6 * delta^2 * (n^2 * m2_k + k^2 * m2_n) / (n + k)^2
    law_product_of_alike(six, six, sq, sq2);
    law_sum_commutes(a.times(a).times(m2_k), b.times(b).times(m2_n));
    let spread: Binary64 = a.times(a).times(m2_k).plus(b.times(b).times(m2_n));
    let spread2: Binary64 = b.times(b).times(m2_n).plus(a.times(a).times(m2_k));
    assert(spread == spread2);
    law_product_of_alike(six.times(sq), six.times(sq2), spread, spread2);
    law_quotient_of_alike(
        six.times(sq).times(spread),
        six.times(sq2).times(spread2),
        whole.times(whole),
    );
    let second: Binary64 = six.times(sq).times(spread).over(whole.times(whole));
    let second2: Binary64 = six.times(sq2).times(spread2).over(whole.times(whole));
    assert(alike(second, second2));
    // 4 * delta * (n * m3_k - k * m3_n) / (n + k)
    lemma_product_turns_right(four, four, d, d2);
    law_difference_turns(a.times(m3_k), b.times(m3_n));
    let gap: Binary64 = a.times(m3_k).minus(b.times(m3_n));
    let gap2: Binary64 = b.times(m3_n).minus(a.times(m3_k));
    law_product_of_opposites(four.times(d), four.times(d2), gap, gap2);
    law_quotient_of_alike(four.times(d).times(gap), four.times(d2).times(gap2), whole);
    let third: Binary64 = four.times(d).times(gap).over(whole);
    let third2: Binary64 = four.times(d2).times(gap2).over(whole);
    assert(alike(third, third2));
    law_sum_of_alike(first, first2, second, second2);
    law_sum_of_alike(first.plus(second), first2.plus(second2), third, third2);
    assert(Axis::spec_shift4(d, n, k, m2_n, m2_k, m3_n, m3_k) == first.plus(second).plus(third));
    assert(Axis::spec_shift4(d2, k, n, m2_k, m2_n, m3_k, m3_n) == first2.plus(second2).plus(
        third2,
    ));
}

/// The merge of two axes gives the same sum and the same second moment in
/// either order, and third and fourth moments that are alike.
pub proof fn law_axis_merge_alike(a: Axis, n: u64, b: Axis, k: u64)
    requires
        n + k <= u64::MAX,
    ensures
        a.combined(n, b, k).sum == b.combined(k, a, n).sum,
        a.combined(n, b, k).m2 == b.combined(k, a, n).m2,
        alike(a.combined(n, b, k).m3, b.combined(k, a, n).m3),
        alike(a.combined(n, b, k).m4, b.combined(k, a, n).m4),
{
    law_axis_merge_commutes(a, n, b, k);
    let d: Binary64 = a.spec_mean_gap(n, b, k);
    let d2: Binary64 = b.spec_mean_gap(k, a, n);
    law_difference_turns(b.spec_mean(k), a.spec_mean(n));
    law_sum_commutes(a.m3, b.m3);
    lemma_shift3_turns(d, d2, n, k, a.m2, b.m2);
    law_sum_of_alike(
        a.m3.plus(b.m3),
        b.m3.plus(a.m3),
        Axis::spec_shift3(d, n, k, a.m2, b.m2),
        Axis::spec_shift3(d2, k, n, b.m2, a.m2),
    );
    law_sum_commutes(a.m4, b.m4);
    lemma_shift4_turns(d, d2, n, k, a.m2, b.m2, a.m3, b.m3);
    law_sum_of_alike(
        a.m4.plus(b.m4),
        b.m4.plus(a.m4),
        Axis::spec_shift4(d, n, k, a.m2, b.m2, a.m3, b.m3),
        Axis::spec_shift4(d2, k, n, b.m2, a.m2, b.m3, a.m3),
    );
}

/// Two scalar summaries that hold the same numbers.
pub open spec fn alike_summaries(s: ScalarSummary, t: ScalarSummary) -> bool {
    &&& s.n == t.n
    &&& alike(s.sum, t.sum)
    &&& alike(s.m2, t.m2)
    &&& alike(s.m3, t.m3)
    &&& alike(s.m4, t.m4)
}

/// Two paired summaries that hold the same numbers.
pub open spec fn alike_pairs(s: PairSummary, t: PairSummary) -> bool {
    &&& alike_summaries(s.x_summary(), t.x_summary())
    &&& alike_summaries(s.y_summary(), t.y_summary())
    &&& alike(s.c11, t.c11)
}

/// Summaries that hold the same numbers have the same statistics.
pub proof fn law_alike_summaries_read_alike(s: ScalarSummary, t: ScalarSummary)
    requires
        alike_summaries(s, t),
    ensures
        alike_if_any(s.sum(), t.sum()),
        alike_if_any(s.average(), t.average()),
        alike_if_any(s.variance_population(), t.variance_population()),
        alike_if_any(s.variance_sample(), t.variance_sample()),
        alike_if_any(s.spec_stddev(crate::method::Method::Population), t.spec_stddev(
            crate::method::Method::Population,
        )),
        alike_if_any(s.spec_stddev(crate::method::Method::Sample), t.spec_stddev(
            crate::method::Method::Sample,
        )),
        alike_if_any(s.skewness(), t.skewness()),
        alike_if_any(s.kurtosis(), t.kurtosis()),
{
    let count: Binary64 = Binary64::from_count(s.n);
    law_quotient_of_alike(s.sum, t.sum, count);
    law_quotient_of_alike(s.m2, t.m2, count);
    let v: Binary64 = s.m2.over(count);
    let w: Binary64 = t.m2.over(count);
    law_root_of_alike(v, w);
    if s.n >= 2 {
        let less: Binary64 = Binary64::from_count((s.n - 1) as u64);
        law_quotient_of_alike(s.m2, t.m2, less);
        law_root_of_alike(s.m2.over(less), t.m2.over(less));
    }
    if s.n > 0 {
        law_quotient_of_alike(s.m3, t.m3, count);
        law_product_of_alike(v, w, v.sqrt(), w.sqrt());
        lemma_quotient_by_alike(s.m3.over(count), t.m3.over(count), v.times(v.sqrt()), w.times(
            w.sqrt(),
        ));
        law_quotient_of_alike(s.m4, t.m4, count);
        law_product_of_alike(v, w, v, w);
        lemma_quotient_by_alike(s.m4.over(count), t.m4.over(count), v.times(v), w.times(w));
    }
}

/// Quotients of numbers that are alike by divisors that are alike and not
/// negative are alike.
proof fn lemma_quotient_by_alike(a: Binary64, a2: Binary64, d: Binary64, d2: Binary64)
    requires
        alike(a, a2),
        alike(d, d2),
        d.is_zero() ==> d == d2,
    ensures
        alike(a.over(d), a2.over(d2)),
{
    law_quotient_of_alike(a, a2, d);
    if d != d2 {
        assert(d.is_nan() && d2.is_nan());
        assert(a2.over(d).is_nan() && a2.over(d2).is_nan());
    }
}

/// Differences of numbers that are alike are alike.
proof fn lemma_difference_of_alike(a: Binary64, a2: Binary64, b: Binary64, b2: Binary64)
    requires
        alike(a, a2),
        alike(b, b2),
    ensures
        alike(a.minus(b), a2.minus(b2)),
{
    assert(alike(b.negated(), b2.negated()));
    law_sum_of_alike(a, a2, b.negated(), b2.negated());
    assert(a.minus(b) == a.plus(b.negated()));
    assert(a2.minus(b2) == a2.plus(b2.negated()));
}

/// Paired summaries that hold the same numbers have the same statistics of
/// the pair; those of each variable are the statistics of its projection.
pub proof fn law_alike_pairs_read_alike(s: PairSummary, t: PairSummary)
    requires
        alike_pairs(s, t),
    ensures
        alike_if_any(s.slope(), t.slope()),
        alike_if_any(s.intercept(), t.intercept()),
        alike_if_any(s.x_intercept(), t.x_intercept()),
        alike_if_any(s.correlation(), t.correlation()),
        alike_if_any(s.determination_coefficient(), t.determination_coefficient()),
        alike_if_any(s.covariance_population(), t.covariance_population()),
        alike_if_any(s.covariance_sample(), t.covariance_sample()),
{
    let count: Binary64 = Binary64::from_count(s.n);
    law_quotient_of_alike(s.c11, t.c11, count);
    if s.n >= 2 {
        law_quotient_of_alike(s.c11, t.c11, Binary64::from_count((s.n - 1) as u64));
        law_quotient_of_alike(s.sum_x, t.sum_x, count);
        if !s.m2x.is_zero() {
            lemma_line_alike(s.sum_x, t.sum_x, s.sum_y, t.sum_y, s.c11, t.c11, s.m2x, t.m2x, count);
            if !s.m2y.is_zero() {
                lemma_fit_alike(s.c11, t.c11, s.m2x, t.m2x, s.m2y, t.m2y);
            }
        }
    }
}

/// Whether two patterns are equal or both NaN.
spec fn same_or_nan(a: Binary64, b: Binary64) -> bool {
    a == b || (a.is_nan() && b.is_nan())
}

/// Numbers that are alike and not zero are equal or both NaN, and so are
/// their products, quotients and square roots.
proof fn lemma_same_or_nan(a: Binary64, a2: Binary64, b: Binary64, b2: Binary64)
    requires
        alike(a, a2),
        alike(b, b2),
        !a.is_zero(),
        !b.is_zero(),
    ensures
        same_or_nan(a, a2),
        same_or_nan(a.times(b), a2.times(b2)),
        same_or_nan(a.over(b), a2.over(b2)),
        same_or_nan(a.sqrt(), a2.sqrt()),
{
}

/// The line of a regression is the same for sums and moments that are
/// alike: slope, intercept and intercept with the `x` axis.
proof fn lemma_line_alike(
    sx: Binary64,
    sx2: Binary64,
    sy: Binary64,
    sy2: Binary64,
    c: Binary64,
    c2: Binary64,
    m: Binary64,
    m2: Binary64,
    count: Binary64,
)
    requires
        alike(sx, sx2),
        alike(sy, sy2),
        alike(c, c2),
        alike(m, m2),
        !m.is_zero(),
    ensures
        alike(c.over(m), c2.over(m2)),
        alike(sy.minus(sx.times(c.over(m))).over(count), sy2.minus(sx2.times(c2.over(m2))).over(
            count,
        )),
        !c.is_zero() ==> alike(
            sy.minus(sx.times(c.over(m))).over(count).negated().over(c.over(m)),
            sy2.minus(sx2.times(c2.over(m2))).over(count).negated().over(c2.over(m2)),
        ),
{
    lemma_quotient_by_alike(c, c2, m, m2);
    let slope: Binary64 = c.over(m);
    let slope2: Binary64 = c2.over(m2);
    law_product_of_alike(sx, sx2, slope, slope2);
    lemma_difference_of_alike(sy, sy2, sx.times(slope), sx2.times(slope2));
    let top: Binary64 = sy.minus(sx.times(slope));
    let top2: Binary64 = sy2.minus(sx2.times(slope2));
    law_quotient_of_alike(top, top2, count);
    let intercept: Binary64 = top.over(count);
    let intercept2: Binary64 = top2.over(count);
    if !c.is_zero() {
        lemma_same_or_nan(c, c2, m, m2);
        lemma_negated_alike(intercept, intercept2);
        lemma_quotient_by_alike(intercept.negated(), intercept2.negated(), slope, slope2);
    }
}

/// The opposites of numbers that are alike are alike.
proof fn lemma_negated_alike(a: Binary64, a2: Binary64)
    requires
        alike(a, a2),
    ensures
        alike(a.negated(), a2.negated()),
{
}

/// The correlation and the coefficient of determination are the same for
/// moments that are alike.
proof fn lemma_fit_alike(
    c: Binary64,
    c2: Binary64,
    mx: Binary64,
    mx2: Binary64,
    my: Binary64,
    my2: Binary64,
)
    requires
        alike(c, c2),
        alike(mx, mx2),
        alike(my, my2),
        !mx.is_zero(),
        !my.is_zero(),
    ensures
        alike(c.over(mx.times(my).sqrt()), c2.over(mx2.times(my2).sqrt())),
        alike(c.times(c).over(mx.times(my)), c2.times(c2).over(mx2.times(my2))),
{
    lemma_same_or_nan(mx, mx2, my, my2);
    let spread: Binary64 = mx.times(my);
    let spread2: Binary64 = mx2.times(my2);
    lemma_root_same_or_nan(spread, spread2);
    lemma_quotient_by_alike(c, c2, spread.sqrt(), spread2.sqrt());
    law_product_of_alike(c, c2, c, c2);
    lemma_quotient_by_alike(c.times(c), c2.times(c2), spread, spread2);
}

/// The square roots of numbers that are equal or both NaN are equal or both
/// NaN.
proof fn lemma_root_same_or_nan(a: Binary64, a2: Binary64)
    requires
        same_or_nan(a, a2),
    ensures
        same_or_nan(a.sqrt(), a2.sqrt()),
{
}

/// The merge of two summaries holds the same numbers in either order: the
/// same count, sum and second moment, and third and fourth moments that are
/// alike.
pub proof fn law_combine_commutes_alike(a: ScalarSummary, b: ScalarSummary)
    requires
        a.well_formed(),
        b.well_formed(),
        a.n + b.n <= u64::MAX,
    ensures
        alike_summaries(a.combine(b), b.combine(a)),
        a.combine(b).n == b.combine(a).n,
        a.combine(b).sum == b.combine(a).sum,
        a.combine(b).m2 == b.combine(a).m2,
{
    if a.n > 0 && b.n > 0 {
        law_axis_merge_alike(a.spec_axis(), a.n, b.spec_axis(), b.n);
    }
}

/// The merge of two paired summaries holds the same numbers in either
/// order.
pub proof fn law_pair_combine_commutes_alike(a: PairSummary, b: PairSummary)
    requires
        a.well_formed(),
        b.well_formed(),
        a.n + b.n <= u64::MAX,
    ensures
        alike_pairs(a.combine(b), b.combine(a)),
{
    if a.n > 0 && b.n > 0 {
        law_axis_merge_alike(a.spec_x_axis(), a.n, b.spec_x_axis(), b.n);
        law_axis_merge_alike(a.spec_y_axis(), a.n, b.spec_y_axis(), b.n);
        let dx: Binary64 = a.spec_x_axis().spec_mean_gap(a.n, b.spec_x_axis(), b.n);
        let dx2: Binary64 = b.spec_x_axis().spec_mean_gap(b.n, a.spec_x_axis(), a.n);
        let dy: Binary64 = a.spec_y_axis().spec_mean_gap(a.n, b.spec_y_axis(), b.n);
        let dy2: Binary64 = b.spec_y_axis().spec_mean_gap(b.n, a.spec_y_axis(), a.n);
        law_difference_turns(b.spec_x_axis().spec_mean(b.n), a.spec_x_axis().spec_mean(a.n));
        law_difference_turns(b.spec_y_axis().spec_mean(b.n), a.spec_y_axis().spec_mean(a.n));
        let fa: Binary64 = Binary64::from_count(a.n);
        let fb: Binary64 = Binary64::from_count(b.n);
        let whole: Binary64 = Binary64::from_count((a.n + b.n) as u64);
        law_product_of_opposites(dx, dx2, dy, dy2);
        law_product_commutes(fa, fb);
        law_product_of_alike(dx.times(dy), dx2.times(dy2), fa.times(fb), fb.times(fa));
        law_quotient_of_alike(
            dx.times(dy).times(fa.times(fb)),
            dx2.times(dy2).times(fb.times(fa)),
            whole,
        );
        assert(alike(spec_cross_shift(dx, dy, a.n, b.n), spec_cross_shift(dx2, dy2, b.n, a.n)));
        law_sum_commutes(a.c11, b.c11);
        law_sum_of_alike(
            a.c11.plus(b.c11),
            b.c11.plus(a.c11),
            spec_cross_shift(dx, dy, a.n, b.n),
            spec_cross_shift(dx2, dy2, b.n, a.n),
        );
    }
}

} // verus!
