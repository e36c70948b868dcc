//! One axis of a summary: the sum of a variable and its centred power sums
//! of second, third and fourth order, with the four transitions that keep
//! them in step with a count that the owner of the axis holds.
//!
//! The transitions are the single-pass updates of Welford and Pebay and the
//! pairwise merge of Chan and Pebay, each with its inverse. Every step is
//! one correctly rounded binary64 operation, taken in the order in which the
//! formulas below are written, so a result is a function of the operands'
//! patterns alone. Values that are not finite are not set apart: they go
//! through the same steps.

use crate::binary64::Binary64;
use vstd::prelude::*;

verus! {

/// The sum and the centred power sums of one variable.
#[derive(Clone, Copy, Debug, PartialEq, Eq, Structural)]
pub struct Axis {
    /// Sum of the observations.
    pub sum: Binary64,
    /// Sum of squared deviations from the mean.
    pub m2: Binary64,
    /// Sum of cubed deviations from the mean.
    pub m3: Binary64,
    /// Sum of fourth powers of deviations from the mean.
    pub m4: Binary64,
}

/// `n'^2 - 3n' + 3`, the weight of the fourth power of the scaled deviation
/// in the update of the fourth moment.
pub open spec fn spec_quartic_weight(count_after: Binary64) -> Binary64 {
    count_after.times(count_after).minus(Binary64::from_count(3).times(count_after)).plus(
        Binary64::from_count(3),
    )
}

/// See `spec_quartic_weight`.
#[verifier::when_used_as_spec(spec_quartic_weight)]
pub fn quartic_weight(count_after: Binary64) -> (r: Binary64)
    ensures
        r == spec_quartic_weight(count_after),
{
    let three: Binary64 = Binary64::from_count(3);
    count_after.times(count_after).minus(three.times(count_after)).plus(three)
}

impl Axis {
    /// The axis of no observations.
    pub open spec fn spec_empty() -> Axis {
        Axis {
            sum: Binary64::zero(),
            m2: Binary64::zero(),
            m3: Binary64::zero(),
            m4: Binary64::zero(),
        }
    }

    /// The mean of `n` observations.
    pub open spec fn spec_mean(self, n: u64) -> Binary64 {
        self.sum.over(Binary64::from_count(n))
    }

    /// The mean that a new observation is held against: the mean of the `n`
    /// observations so far, or the observation itself where there are none.
    pub open spec fn spec_reference(self, n: u64, value: Binary64) -> Binary64 {
        if n == 0 {
            value
        } else {
            self.spec_mean(n)
        }
    }

    /// The deviation of a new observation from the mean before it.
    pub open spec fn spec_deviation(self, n: u64, value: Binary64) -> Binary64 {
        value.minus(self.spec_reference(n, value))
    }

    /// The axis of `n + 1` observations, from the axis of the first `n` and
    /// the last observation. With `d` the deviation of the observation from
    /// the old mean, `n'` the new count and `d_n = d / n'`:
    ///
    /// ```text
    /// mean' = mean + d_n
    /// m2'   = m2 + d * (value - mean')
    /// m3'   = m3 + d * d_n * n * d_n * (n' - 2) - 3 * d_n * m2
    /// m4'   = m4 + d * d_n * n * d_n^2 * (n'^2 - 3n' + 3) + 6 * d_n^2 * m2 - 4 * d_n * m3
    /// sum'  = sum + value
    /// ```
    pub open spec fn spec_accumulated(self, n: u64, value: Binary64) -> Axis {
        let count_before = Binary64::from_count(n);
        let count_after = Binary64::from_count((n + 1) as u64);
        let mean = self.spec_reference(n, value);
        let delta = value.minus(mean);
        let delta_n = delta.over(count_after);
        let mean_after = mean.plus(delta_n);
        let delta_n2 = delta_n.times(delta_n);
        let term = delta.times(delta_n).times(count_before);
        Axis {
            sum: self.sum.plus(value),
            m2: self.m2.plus(delta.times(value.minus(mean_after))),
            m3: self.m3.plus(
                term.times(delta_n).times(count_after.minus(Binary64::from_count(2))),
            ).minus(Binary64::from_count(3).times(delta_n).times(self.m2)),
            m4: self.m4.plus(term.times(delta_n2).times(quartic_weight(count_after))).plus(
                Binary64::from_count(6).times(delta_n2).times(self.m2),
            ).minus(Binary64::from_count(4).times(delta_n).times(self.m3)),
        }
    }

    /// The axis of the other `n - 1` observations, from the axis of `n` and
    /// one of them: the update of `spec_accumulated` solved for the old
    /// sums, lowest order first, with the old mean taken from the old sum.
    pub open spec fn spec_removed(self, n: u64, value: Binary64) -> Axis {
        let count_before = Binary64::from_count((n - 1) as u64);
        let count_after = Binary64::from_count(n);
        let sum = self.sum.minus(value);
        let mean = sum.over(count_before);
        let delta = value.minus(mean);
        let delta_n = delta.over(count_after);
        let mean_after = mean.plus(delta_n);
        let delta_n2 = delta_n.times(delta_n);
        let term = delta.times(delta_n).times(count_before);
        let m2 = self.m2.minus(delta.times(value.minus(mean_after)));
        let m3 = self.m3.minus(
            term.times(delta_n).times(count_after.minus(Binary64::from_count(2))),
        ).plus(Binary64::from_count(3).times(delta_n).times(m2));
        let m4 = self.m4.minus(term.times(delta_n2).times(quartic_weight(count_after))).minus(
            Binary64::from_count(6).times(delta_n2).times(m2),
        ).plus(Binary64::from_count(4).times(delta_n).times(m3));
        Axis { sum, m2, m3, m4 }
    }

    /// The difference of the means of two axes, the second less the first.
    pub open spec fn spec_mean_gap(self, n: u64, other: Axis, k: u64) -> Binary64 {
        other.spec_mean(k).minus(self.spec_mean(n))
    }

    /// What the second moments of two parts of `n` and `k` observations,
    /// whose means differ by `delta`, lack of the second moment of the whole:
    /// `delta^2 * n * k / (n + k)`.
    pub open spec fn spec_shift2(delta: Binary64, n: u64, k: u64) -> Binary64 {
        let a = Binary64::from_count(n);
        let b = Binary64::from_count(k);
        let whole = Binary64::from_count((n + k) as u64);
        delta.times(delta).times(a.times(b)).over(whole)
    }

    /// The same for the third moments:
    /// `delta^3 * n * k * (n - k) / (n + k)^2 + 3 * delta * (n * m2_k - k * m2_n) / (n + k)`.
    pub open spec fn spec_shift3(
        delta: Binary64,
        n: u64,
        k: u64,
        m2_n: Binary64,
        m2_k: Binary64,
    ) -> Binary64 {
        let a = Binary64::from_count(n);
        let b = Binary64::from_count(k);
        let whole = Binary64::from_count((n + k) as u64);
        delta.times(delta).times(delta).times(a.times(b)).times(a.minus(b)).over(
            whole.times(whole),
        ).plus(
            Binary64::from_count(3).times(delta).times(a.times(m2_k).minus(b.times(m2_n))).over(
                whole,
            ),
        )
    }

    /// The same for the fourth moments:
    /// `delta^4 * n * k * (n^2 + k^2 - n * k) / (n + k)^3
    ///  + 6 * delta^2 * (n^2 * m2_k + k^2 * m2_n) / (n + k)^2
    ///  + 4 * delta * (n * m3_k - k * m3_n) / (n + k)`.
    pub open spec fn spec_shift4(
        delta: Binary64,
        n: u64,
        k: u64,
        m2_n: Binary64,
        m2_k: Binary64,
        m3_n: Binary64,
        m3_k: Binary64,
    ) -> Binary64 {
        let a = Binary64::from_count(n);
        let b = Binary64::from_count(k);
        let whole = Binary64::from_count((n + k) as u64);
        let delta2 = delta.times(delta);
        delta2.times(delta2).times(a.times(b)).times(
            a.times(a).plus(b.times(b)).minus(a.times(b)),
        ).over(whole.times(whole).times(whole)).plus(
            Binary64::from_count(6).times(delta2).times(
                a.times(a).times(m2_k).plus(b.times(b).times(m2_n)),
            ).over(whole.times(whole)),
        ).plus(
            Binary64::from_count(4).times(delta).times(a.times(m3_k).minus(b.times(m3_n))).over(
                whole,
            ),
        )
    }

    /// The axis of the union of two disjoint sets of `n` and `k`
    /// observations: the sums added, and each moment the sum of the parts'
    /// moments and of what the difference of their means contributes.
    pub open spec fn spec_combined(self, n: u64, other: Axis, k: u64) -> Axis {
        let delta = self.spec_mean_gap(n, other, k);
        Axis {
            sum: self.sum.plus(other.sum),
            m2: self.m2.plus(other.m2).plus(Axis::spec_shift2(delta, n, k)),
            m3: self.m3.plus(other.m3).plus(Axis::spec_shift3(delta, n, k, self.m2, other.m2)),
            m4: self.m4.plus(other.m4).plus(
                Axis::spec_shift4(delta, n, k, self.m2, other.m2, self.m3, other.m3),
            ),
        }
    }

    /// The axis of the `n - k` observations that are left when a part of `k`
    /// observations is taken out of a whole of `n`: the merge of
    /// `spec_combined` solved for the first part, lowest order first.
    pub open spec fn spec_uncombined(self, n: u64, part: Axis, k: u64) -> Axis {
        let rest = (n - k) as u64;
        let sum = self.sum.minus(part.sum);
        let delta = part.spec_mean(k).minus(sum.over(Binary64::from_count(rest)));
        let m2 = self.m2.minus(part.m2).minus(Axis::spec_shift2(delta, rest, k));
        let m3 = self.m3.minus(part.m3).minus(Axis::spec_shift3(delta, rest, k, m2, part.m2));
        let m4 = self.m4.minus(part.m4).minus(
            Axis::spec_shift4(delta, rest, k, m2, part.m2, m3, part.m3),
        );
        Axis { sum, m2, m3, m4 }
    }

    /// The axis of no observations: every sum is positive zero.
    #[verifier::when_used_as_spec(spec_empty)]
    pub fn empty() -> (r: Axis)
        ensures
            r == Axis::spec_empty(),
    {
        Axis {
            sum: Binary64::zero(),
            m2: Binary64::zero(),
            m3: Binary64::zero(),
            m4: Binary64::zero(),
        }
    }

    /// The mean of `n` observations, which is NaN where `n` is zero and the
    /// sum is.
    #[verifier::when_used_as_spec(spec_mean)]
    pub fn mean(self, n: u64) -> (r: Binary64)
        ensures
            r == self.spec_mean(n),
    {
        self.sum.over(Binary64::from_count(n))
    }

    /// The deviation of a new observation from the mean of the `n` before
    /// it, or from itself where it is the first.
    #[verifier::when_used_as_spec(spec_deviation)]
    pub fn deviation(self, n: u64, value: Binary64) -> (r: Binary64)
        ensures
            r == self.spec_deviation(n, value),
    {
        if n == 0 {
            value.minus(value)
        } else {
            value.minus(self.mean(n))
        }
    }

    /// Takes one more observation into an axis of `n`.
    #[verifier::when_used_as_spec(spec_accumulated)]
    pub fn accumulated(self, n: u64, value: Binary64) -> (r: Axis)
        requires
            n < u64::MAX,
        ensures
            r == self.spec_accumulated(n, value),
    {
        let count_before: Binary64 = Binary64::from_count(n);
        let count_after: Binary64 = Binary64::from_count(n + 1);
        let mean: Binary64 = if n == 0 {
            value
        } else {
            self.mean(n)
        };
        let delta: Binary64 = value.minus(mean);
        let delta_n: Binary64 = delta.over(count_after);
        let mean_after: Binary64 = mean.plus(delta_n);
        let delta_n2: Binary64 = delta_n.times(delta_n);
        let term: Binary64 = delta.times(delta_n).times(count_before);
        let two: Binary64 = Binary64::from_count(2);
        let three: Binary64 = Binary64::from_count(3);
        let four: Binary64 = Binary64::from_count(4);
        let six: Binary64 = Binary64::from_count(6);
        Axis {
            sum: self.sum.plus(value),
            m2: self.m2.plus(delta.times(value.minus(mean_after))),
            m3: self.m3.plus(term.times(delta_n).times(count_after.minus(two))).minus(
                three.times(delta_n).times(self.m2),
            ),
            m4: self.m4.plus(term.times(delta_n2).times(quartic_weight(count_after))).plus(
                six.times(delta_n2).times(self.m2),
            ).minus(four.times(delta_n).times(self.m3)),
        }
    }

    /// Takes one observation out of an axis of `n`.
    #[verifier::when_used_as_spec(spec_removed)]
    pub fn removed(self, n: u64, value: Binary64) -> (r: Axis)
        requires
            n >= 1,
        ensures
            r == self.spec_removed(n, value),
    {
        let count_before: Binary64 = Binary64::from_count(n - 1);
        let count_after: Binary64 = Binary64::from_count(n);
        let sum: Binary64 = self.sum.minus(value);
        let mean: Binary64 = sum.over(count_before);
        let delta: Binary64 = value.minus(mean);
        let delta_n: Binary64 = delta.over(count_after);
        let mean_after: Binary64 = mean.plus(delta_n);
        let delta_n2: Binary64 = delta_n.times(delta_n);
        let term: Binary64 = delta.times(delta_n).times(count_before);
        let two: Binary64 = Binary64::from_count(2);
        let three: Binary64 = Binary64::from_count(3);
        let four: Binary64 = Binary64::from_count(4);
        let six: Binary64 = Binary64::from_count(6);
        let m2: Binary64 = self.m2.minus(delta.times(value.minus(mean_after)));
        let m3: Binary64 = self.m3.minus(term.times(delta_n).times(count_after.minus(two))).plus(
            three.times(delta_n).times(m2),
        );
        let m4: Binary64 = self.m4.minus(
            term.times(delta_n2).times(quartic_weight(count_after)),
        ).minus(six.times(delta_n2).times(m2)).plus(four.times(delta_n).times(m3));
        Axis { sum, m2, m3, m4 }
    }

    /// See `spec_shift2`.
    #[verifier::when_used_as_spec(spec_shift2)]
    pub fn shift2(delta: Binary64, n: u64, k: u64) -> (r: Binary64)
        requires
            n + k <= u64::MAX,
        ensures
            r == Axis::spec_shift2(delta, n, k),
    {
        let a: Binary64 = Binary64::from_count(n);
        let b: Binary64 = Binary64::from_count(k);
        let whole: Binary64 = Binary64::from_count(n + k);
        delta.times(delta).times(a.times(b)).over(whole)
    }

    /// See `spec_shift3`.
    #[verifier::when_used_as_spec(spec_shift3)]
    pub fn shift3(delta: Binary64, n: u64, k: u64, m2_n: Binary64, m2_k: Binary64) -> (r: Binary64)
        requires
            n + k <= u64::MAX,
        ensures
            r == Axis::spec_shift3(delta, n, k, m2_n, m2_k),
    {
        let a: Binary64 = Binary64::from_count(n);
        let b: Binary64 = Binary64::from_count(k);
        let whole: Binary64 = Binary64::from_count(n + k);
        let three: Binary64 = Binary64::from_count(3);
        delta.times(delta).times(delta).times(a.times(b)).times(a.minus(b)).over(
            whole.times(whole),
        ).plus(three.times(delta).times(a.times(m2_k).minus(b.times(m2_n))).over(whole))
    }

    /// See `spec_shift4`.
    #[verifier::when_used_as_spec(spec_shift4)]
    pub fn shift4(
        delta: Binary64,
        n: u64,
        k: u64,
        m2_n: Binary64,
        m2_k: Binary64,
        m3_n: Binary64,
        m3_k: Binary64,
    ) -> (r: Binary64)
        requires
            n + k <= u64::MAX,
        ensures
            r == Axis::spec_shift4(delta, n, k, m2_n, m2_k, m3_n, m3_k),
    {
        let a: Binary64 = Binary64::from_count(n);
        let b: Binary64 = Binary64::from_count(k);
        let whole: Binary64 = Binary64::from_count(n + k);
        let four: Binary64 = Binary64::from_count(4);
        let six: Binary64 = Binary64::from_count(6);
        let delta2: Binary64 = delta.times(delta);
        delta2.times(delta2).times(a.times(b)).times(
            a.times(a).plus(b.times(b)).minus(a.times(b)),
        ).over(whole.times(whole).times(whole)).plus(
            six.times(delta2).times(a.times(a).times(m2_k).plus(b.times(b).times(m2_n))).over(
                whole.times(whole),
            ),
        ).plus(four.times(delta).times(a.times(m3_k).minus(b.times(m3_n))).over(whole))
    }

    /// Merges the axis of `k` other observations into an axis of `n`.
    #[verifier::when_used_as_spec(spec_combined)]
    pub fn combined(self, n: u64, other: Axis, k: u64) -> (r: Axis)
        requires
            n + k <= u64::MAX,
        ensures
            r == self.spec_combined(n, other, k),
    {
        let delta: Binary64 = other.mean(k).minus(self.mean(n));
        Axis {
            sum: self.sum.plus(other.sum),
            m2: self.m2.plus(other.m2).plus(Axis::shift2(delta, n, k)),
            m3: self.m3.plus(other.m3).plus(Axis::shift3(delta, n, k, self.m2, other.m2)),
            m4: self.m4.plus(other.m4).plus(
                Axis::shift4(delta, n, k, self.m2, other.m2, self.m3, other.m3),
            ),
        }
    }

    /// Takes the axis of `k` observations out of an axis of `n` that holds
    /// them.
    #[verifier::when_used_as_spec(spec_uncombined)]
    pub fn uncombined(self, n: u64, part: Axis, k: u64) -> (r: Axis)
        requires
            k <= n,
        ensures
            r == self.spec_uncombined(n, part, k),
    {
        let rest: u64 = n - k;
        let sum: Binary64 = self.sum.minus(part.sum);
        let delta: Binary64 = part.mean(k).minus(sum.over(Binary64::from_count(rest)));
        let m2: Binary64 = self.m2.minus(part.m2).minus(Axis::shift2(delta, rest, k));
        let m3: Binary64 = self.m3.minus(part.m3).minus(
            Axis::shift3(delta, rest, k, m2, part.m2),
        );
        let m4: Binary64 = self.m4.minus(part.m4).minus(
            Axis::shift4(delta, rest, k, m2, part.m2, m3, part.m3),
        );
        Axis { sum, m2, m3, m4 }
    }
}

} // verus!
