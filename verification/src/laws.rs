//! What holds of the arithmetic and of the summaries whatever the values:
//! the laws that rounding leaves exact.
//!
//! A merge of binary64 sums is exact only in part. The count of a merge is
//! the sum of the counts, the empty summary is its identity, and the order
//! of the two operands does not matter to the count, the sum and the second
//! moment, nor to the mean, the variance and the standard deviation read
//! from them. The third and fourth moments and the cross moment come out as
//! the same numbers in either order too, though a zero may change its sign:
//! that is shown in the module `commute`. Regrouping a merge, or undoing a
//! transition, gives the same sums up to rounding only, which no law states.

use crate::arithmetic::{finite_sum, negated_bits, product_bits, signed_significand, sum_bits};
use crate::binary64::{exponent, is_finite, magnitude, negative, significand, Binary64};
use crate::error::StatsError;
use crate::method::Method;
use crate::moments::Axis;
use crate::pair::PairSummary;
use crate::rounding::lemma_rounding_bounded;
use crate::scalar::ScalarSummary;
use vstd::arithmetic::power2::pow2;
use vstd::prelude::*;

verus! {

/// Addition does not depend on the order of its operands.
pub proof fn law_sum_commutes(a: Binary64, b: Binary64)
    ensures
        a.plus(b) == b.plus(a),
{
    assert(sum_bits(a.bits, b.bits) == sum_bits(b.bits, a.bits));
}

/// Multiplication does not depend on the order of its operands.
pub proof fn law_product_commutes(a: Binary64, b: Binary64)
    ensures
        a.times(b) == b.times(a),
{
    assert(significand(a.bits) * significand(b.bits) == significand(b.bits) * significand(a.bits))
        by (nonlinear_arith);
    assert(product_bits(a.bits, b.bits) == product_bits(b.bits, a.bits));
}

/// The two differences of two numbers are equal in magnitude.
pub proof fn law_difference_mirrored(a: Binary64, b: Binary64)
    ensures
        magnitude(a.minus(b).bits) == magnitude(b.minus(a).bits),
{
    let x: u64 = a.bits;
    let y: u64 = b.bits;
    let nx: u64 = negated_bits(x);
    let ny: u64 = negated_bits(y);
    assert(magnitude(nx) == magnitude(x) && negative(nx) == !negative(x));
    assert(magnitude(ny) == magnitude(y) && negative(ny) == !negative(y));
    if is_finite(x) && is_finite(y) {
        let e: int = if exponent(x) <= exponent(y) {
            exponent(x)
        } else {
            exponent(y)
        };
        let px: nat = pow2((exponent(x) - e) as nat);
        let py: nat = pow2((exponent(y) - e) as nat);
        let sx: int = signed_significand(x);
        let sy: int = signed_significand(y);
        assert(signed_significand(nx) == -sx);
        assert(signed_significand(ny) == -sy);
        assert((-sx) * px == -(sx * px)) by (nonlinear_arith);
        assert((-sy) * py == -(sy * py)) by (nonlinear_arith);
        let forth: int = sx * px + (-sy) * py;
        let back: int = sy * py + (-sx) * px;
        assert(back == -forth);
        if forth > 0 {
            lemma_rounding_bounded(forth as nat, 1, e);
        } else if forth < 0 {
            lemma_rounding_bounded(back as nat, 1, e);
        }
        assert(magnitude(finite_sum(x, ny)) == magnitude(finite_sum(y, nx)));
    }
}

/// A square depends on the magnitude of its operand only.
pub proof fn law_square_ignores_sign(a: Binary64, b: Binary64)
    requires
        magnitude(a.bits) == magnitude(b.bits),
    ensures
        a.times(a) == b.times(b),
{
    assert(product_bits(a.bits, a.bits) == product_bits(b.bits, b.bits));
}

/// The merge of two axes gives the same sum and the same second moment in
/// either order.
pub proof fn law_axis_merge_commutes(a: Axis, n: u64, b: Axis, k: u64)
    requires
        n + k <= u64::MAX,
    ensures
        a.combined(n, b, k).sum == b.combined(k, a, n).sum,
        a.combined(n, b, k).m2 == b.combined(k, a, n).m2,
{
    law_sum_commutes(a.sum, b.sum);
    law_sum_commutes(a.m2, b.m2);
    let forth: Binary64 = a.spec_mean_gap(n, b, k);
    let back: Binary64 = b.spec_mean_gap(k, a, n);
    assert(Axis::spec_shift2(forth, n, k) == Axis::spec_shift2(back, k, n)) by {
        law_difference_mirrored(b.spec_mean(k), a.spec_mean(n));
        law_square_ignores_sign(forth, back);
        law_product_commutes(Binary64::from_count(n), Binary64::from_count(k));
    }
}

/// The count of a merge is the sum of the counts, so counts merge in any
/// order and any grouping.
pub proof fn law_combine_adds_counts(a: ScalarSummary, b: ScalarSummary, c: ScalarSummary)
    requires
        a.n + b.n + c.n <= u64::MAX,
    ensures
        a.combine(b).n == a.n + b.n,
        a.combine(b).n == b.combine(a).n,
        a.combine(b).combine(c).n == a.combine(b.combine(c)).n,
{
}

/// The empty summary is the identity of the merge, on either side.
pub proof fn law_combine_identity(a: ScalarSummary)
    requires
        a.well_formed(),
    ensures
        ScalarSummary::new().combine(a) == a,
        a.combine(ScalarSummary::new()) == a,
{
}

/// The merge of two summaries has the same count, sum and second moment in
/// either order, and so the same mean, variance and standard deviation.
pub proof fn law_combine_commutes(a: ScalarSummary, b: ScalarSummary)
    requires
        a.well_formed(),
        b.well_formed(),
        a.n + b.n <= u64::MAX,
    ensures
        a.combine(b).n == b.combine(a).n,
        a.combine(b).sum == b.combine(a).sum,
        a.combine(b).m2 == b.combine(a).m2,
        a.combine(b).average() == b.combine(a).average(),
        forall|m: Method| #[trigger] a.combine(b).variance(m) == b.combine(a).variance(m),
        forall|m: Method| #[trigger] a.combine(b).stddev(m) == b.combine(a).stddev(m),
{
    if a.n > 0 && b.n > 0 {
        law_axis_merge_commutes(a.spec_axis(), a.n, b.spec_axis(), b.n);
    }
}

/// Taking an observation in and out again is never an error and gives back
/// the count: no state where the summary was empty, a summary of as many
/// observations where it was not.
pub proof fn law_remove_undoes_accumulate(s: ScalarSummary, value: Binary64)
    requires
        s.n < u64::MAX,
    ensures
        s.accumulate(value).remove(value) is Ok,
        s.n == 0 <==> s.accumulate(value).remove(value) == Ok::<
            Option<ScalarSummary>,
            StatsError,
        >(None),
        s.n > 0 ==> s.accumulate(value).remove(value)->Ok_0->Some_0.n == s.n,
{
}

/// Merging a part in and taking it out again is never an error where either
/// summary holds something, and gives back the count of the first: no state
/// where the first was empty, the first itself where the part was empty, a
/// summary of as many observations otherwise.
pub proof fn law_remove_combined_undoes_combine(a: ScalarSummary, part: ScalarSummary)
    requires
        a.n + part.n <= u64::MAX,
        a.n + part.n > 0,
    ensures
        a.combine(part).remove_combined(part) is Ok,
        a.n == 0 <==> a.combine(part).remove_combined(part) == Ok::<
            Option<ScalarSummary>,
            StatsError,
        >(None),
        a.n > 0 ==> a.combine(part).remove_combined(part)->Ok_0->Some_0.n == a.n,
        a.n > 0 && part.n == 0 ==> a.combine(part).remove_combined(part) == Ok::<
            Option<ScalarSummary>,
            StatsError,
        >(Some(a)),
{
}

/// The empty summary has a count of zero and no other statistic.
pub proof fn law_empty_has_no_statistics()
    ensures
        ScalarSummary::new().n == 0,
        ScalarSummary::new().well_formed(),
        ScalarSummary::new().sum() is None,
        ScalarSummary::new().average() is None,
        ScalarSummary::new().skewness() is None,
        ScalarSummary::new().kurtosis() is None,
        forall|m: Method| #[trigger] ScalarSummary::new().variance(m) is None,
        forall|m: Method| #[trigger] ScalarSummary::new().stddev(m) is None,
{
}

/// The count of a merge of paired summaries is the sum of the counts, so
/// counts merge in any order and any grouping.
pub proof fn law_pair_combine_adds_counts(a: PairSummary, b: PairSummary, c: PairSummary)
    requires
        a.n + b.n + c.n <= u64::MAX,
    ensures
        a.combine(b).n == a.n + b.n,
        a.combine(b).n == b.combine(a).n,
        a.combine(b).combine(c).n == a.combine(b.combine(c)).n,
{
}

/// The empty paired summary is the identity of the merge, on either side.
pub proof fn law_pair_combine_identity(a: PairSummary)
    requires
        a.well_formed(),
    ensures
        PairSummary::new().combine(a) == a,
        a.combine(PairSummary::new()) == a,
{
}

/// The merge of two paired summaries has the same count, and on each axis
/// the same sum and second moment, in either order.
pub proof fn law_pair_combine_commutes(a: PairSummary, b: PairSummary)
    requires
        a.well_formed(),
        b.well_formed(),
        a.n + b.n <= u64::MAX,
    ensures
        a.combine(b).n == b.combine(a).n,
        a.combine(b).sum_x == b.combine(a).sum_x,
        a.combine(b).m2x == b.combine(a).m2x,
        a.combine(b).sum_y == b.combine(a).sum_y,
        a.combine(b).m2y == b.combine(a).m2y,
{
    if a.n > 0 && b.n > 0 {
        law_axis_merge_commutes(a.spec_x_axis(), a.n, b.spec_x_axis(), b.n);
        law_axis_merge_commutes(a.spec_y_axis(), a.n, b.spec_y_axis(), b.n);
    }
}

/// Each variable of a paired summary goes through the transitions as it
/// would alone: the projection of the next state is the next state of the
/// projection.
pub proof fn law_pair_projects(a: PairSummary, b: PairSummary, x: Binary64, y: Binary64)
    requires
        a.n + b.n <= u64::MAX,
        a.n < u64::MAX,
        b.well_formed(),
    ensures
        a.accumulate(x, y).x_summary() == a.x_summary().accumulate(x),
        a.accumulate(x, y).y_summary() == a.y_summary().accumulate(y),
        a.combine(b).x_summary() == a.x_summary().combine(b.x_summary()),
        a.combine(b).y_summary() == a.y_summary().combine(b.y_summary()),
        a.n > 1 ==> a.remove(x, y)->Ok_0->Some_0.x_summary() == a.x_summary().remove(
            x,
        )->Ok_0->Some_0,
        a.n > 1 ==> a.remove(x, y)->Ok_0->Some_0.y_summary() == a.y_summary().remove(
            y,
        )->Ok_0->Some_0,
{
}

/// Taking a pair in and out again is never an error and gives back the
/// count.
pub proof fn law_pair_remove_undoes_accumulate(s: PairSummary, x: Binary64, y: Binary64)
    requires
        s.n < u64::MAX,
    ensures
        s.accumulate(x, y).remove(x, y) is Ok,
        s.n == 0 <==> s.accumulate(x, y).remove(x, y) == Ok::<Option<PairSummary>, StatsError>(
            None,
        ),
        s.n > 0 ==> s.accumulate(x, y).remove(x, y)->Ok_0->Some_0.n == s.n,
{
}

/// Merging a part in and taking it out again is never an error where either
/// summary holds something, and gives back the count of the first.
pub proof fn law_pair_remove_combined_undoes_combine(a: PairSummary, part: PairSummary)
    requires
        a.n + part.n <= u64::MAX,
        a.n + part.n > 0,
    ensures
        a.combine(part).remove_combined(part) is Ok,
        a.n == 0 <==> a.combine(part).remove_combined(part) == Ok::<
            Option<PairSummary>,
            StatsError,
        >(None),
        a.n > 0 ==> a.combine(part).remove_combined(part)->Ok_0->Some_0.n == a.n,
        a.n > 0 && part.n == 0 ==> a.combine(part).remove_combined(part) == Ok::<
            Option<PairSummary>,
            StatsError,
        >(Some(a)),
{
}

/// The empty paired summary has a count of zero and no other statistic.
pub proof fn law_empty_pair_has_no_statistics()
    ensures
        PairSummary::new().n == 0,
        PairSummary::new().well_formed(),
        PairSummary::new().x_summary() == ScalarSummary::new(),
        PairSummary::new().y_summary() == ScalarSummary::new(),
        PairSummary::new().slope() is None,
        PairSummary::new().intercept() is None,
        PairSummary::new().x_intercept() is None,
        PairSummary::new().correlation() is None,
        PairSummary::new().determination_coefficient() is None,
        forall|m: Method| #[trigger] PairSummary::new().covariance(m) is None,
{
}

/// A regression has a line exactly where there are two pairs or more and
/// `x` has spread; where it has one, the slope is the cross moment over the
/// second moment of `x`, and the line and the correlation stand or fall
/// together with the spread of `y`.
pub proof fn law_regression_defined(s: PairSummary)
    ensures
        s.slope() is Some <==> s.n >= 2 && !s.m2x.is_zero(),
        s.slope() is Some <==> s.intercept() is Some,
        s.slope() is Some <==> s.determination_coefficient() is Some,
        s.correlation() is Some <==> s.slope() is Some && !s.m2y.is_zero(),
        s.slope() matches Some(k) ==> k == s.c11.over(s.m2x),
        s.correlation() is Some ==> s.determination_coefficient() == Some(
            s.c11.times(s.c11).over(s.m2x.times(s.m2y)),
        ),
{
}

} // verus!
