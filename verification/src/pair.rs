//! The summary of a stream of paired observations `(x, y)`.
//!
//! The two variables share one count: an observation is a complete pair, and
//! a caller that meets a pair with a missing part leaves the whole pair out.

use crate::binary64::Binary64;
use crate::error::StatsError;
use crate::method::Method;
use crate::moments::Axis;
use crate::scalar::ScalarSummary;
use vstd::prelude::*;

verus! {

/// The count of the pairs taken in so far, the sum and the centred power
/// sums of each variable, and the sum of the products of their deviations.
#[derive(Clone, Copy, Debug, PartialEq, Eq, Structural)]
pub struct PairSummary {
    /// Number of pairs.
    pub n: u64,
    pub sum_x: Binary64,
    pub m2x: Binary64,
    pub m3x: Binary64,
    pub m4x: Binary64,
    pub sum_y: Binary64,
    pub m2y: Binary64,
    pub m3y: Binary64,
    pub m4y: Binary64,
    /// Sum of the products of the deviations of `x` and `y` from their
    /// means.
    pub c11: Binary64,
}

/// What the cross moments of two parts of `n` and `k` pairs, whose means
/// differ by `dx` and `dy`, lack of the cross moment of the whole:
/// `dx * dy * n * k / (n + k)`.
pub open spec fn spec_cross_shift(dx: Binary64, dy: Binary64, n: u64, k: u64) -> Binary64 {
    dx.times(dy).times(Binary64::from_count(n).times(Binary64::from_count(k))).over(
        Binary64::from_count((n + k) as u64),
    )
}

/// See `spec_cross_shift`.
#[verifier::when_used_as_spec(spec_cross_shift)]
pub fn cross_shift(dx: Binary64, dy: Binary64, n: u64, k: u64) -> (r: Binary64)
    requires
        n + k <= u64::MAX,
    ensures
        r == spec_cross_shift(dx, dy, n, k),
{
    dx.times(dy).times(Binary64::from_count(n).times(Binary64::from_count(k))).over(
        Binary64::from_count(n + k),
    )
}

/// What a pair with deviations `dx` and `dy` from the means of the `n` pairs
/// before it adds to the cross moment: `n / (n + 1) * dx * dy`.
pub open spec fn spec_cross_step(dx: Binary64, dy: Binary64, n: u64) -> Binary64 {
    Binary64::from_count(n).over(Binary64::from_count((n + 1) as u64)).times(dx).times(dy)
}

/// See `spec_cross_step`.
#[verifier::when_used_as_spec(spec_cross_step)]
pub fn cross_step(dx: Binary64, dy: Binary64, n: u64) -> (r: Binary64)
    requires
        n < u64::MAX,
    ensures
        r == spec_cross_step(dx, dy, n),
{
    Binary64::from_count(n).over(Binary64::from_count(n + 1)).times(dx).times(dy)
}

impl PairSummary {
    /// The summary of no pairs.
    pub open spec fn spec_new() -> PairSummary {
        PairSummary::spec_from_axes(0, Axis::empty(), Axis::empty(), Binary64::zero())
    }

    /// A summary of no pairs holds zero in every sum. The constructor gives
    /// such a summary and the transitions keep to it.
    pub open spec fn well_formed(self) -> bool {
        self.n == 0 ==> self == PairSummary::spec_new()
    }

    /// The sums of the first variable.
    pub open spec fn spec_x_axis(self) -> Axis {
        Axis { sum: self.sum_x, m2: self.m2x, m3: self.m3x, m4: self.m4x }
    }

    /// The sums of the second variable.
    pub open spec fn spec_y_axis(self) -> Axis {
        Axis { sum: self.sum_y, m2: self.m2y, m3: self.m3y, m4: self.m4y }
    }

    /// The summary of `n` pairs with the given sums.
    pub open spec fn spec_from_axes(n: u64, x: Axis, y: Axis, c11: Binary64) -> PairSummary {
        PairSummary {
            n,
            sum_x: x.sum,
            m2x: x.m2,
            m3x: x.m3,
            m4x: x.m4,
            sum_y: y.sum,
            m2y: y.m2,
            m3y: y.m3,
            m4y: y.m4,
            c11,
        }
    }

    /// The first variable alone.
    pub open spec fn spec_x_summary(self) -> ScalarSummary {
        ScalarSummary::from_axis(self.n, self.spec_x_axis())
    }

    /// The second variable alone.
    pub open spec fn spec_y_summary(self) -> ScalarSummary {
        ScalarSummary::from_axis(self.n, self.spec_y_axis())
    }

    /// The state after one more pair: each variable as in a scalar summary,
    /// and the cross moment grown by the product of the two deviations from
    /// the means before the pair, weighted by `n / (n + 1)`.
    pub open spec fn spec_accumulate(self, x: Binary64, y: Binary64) -> PairSummary {
        PairSummary::spec_from_axes(
            (self.n + 1) as u64,
            self.spec_x_axis().accumulated(self.n, x),
            self.spec_y_axis().accumulated(self.n, y),
            self.c11.plus(
                cross_step(
                    self.spec_x_axis().deviation(self.n, x),
                    self.spec_y_axis().deviation(self.n, y),
                    self.n,
                ),
            ),
        )
    }

    /// The state before a pair was taken in: an error where the summary
    /// holds nothing, `None` where it held this pair only, otherwise the
    /// summary of the others, the cross moment less what the pair added to
    /// it.
    pub open spec fn spec_remove(self, x: Binary64, y: Binary64) -> Result<
        Option<PairSummary>,
        StatsError,
    > {
        if self.n == 0 {
            Err(StatsError::ProtocolViolation)
        } else if self.n == 1 {
            Ok(None)
        } else {
            let before = (self.n - 1) as u64;
            let x_axis = self.spec_x_axis().removed(self.n, x);
            let y_axis = self.spec_y_axis().removed(self.n, y);
            Ok(
                Some(
                    PairSummary::spec_from_axes(
                        before,
                        x_axis,
                        y_axis,
                        self.c11.minus(
                            cross_step(
                                x_axis.deviation(before, x),
                                y_axis.deviation(before, y),
                                before,
                            ),
                        ),
                    ),
                ),
            )
        }
    }

    /// The summary of the union of two disjoint sets of pairs. The empty
    /// summary is the identity.
    pub open spec fn spec_combine(self, other: PairSummary) -> PairSummary {
        if self.n == 0 {
            other
        } else if other.n == 0 {
            self
        } else {
            PairSummary::spec_from_axes(
                (self.n + other.n) as u64,
                self.spec_x_axis().combined(self.n, other.spec_x_axis(), other.n),
                self.spec_y_axis().combined(self.n, other.spec_y_axis(), other.n),
                self.c11.plus(other.c11).plus(
                    cross_shift(
                        self.spec_x_axis().spec_mean_gap(self.n, other.spec_x_axis(), other.n),
                        self.spec_y_axis().spec_mean_gap(self.n, other.spec_y_axis(), other.n),
                        self.n,
                        other.n,
                    ),
                ),
            )
        }
    }

    /// The summary of what is left when a part is taken out: an error where
    /// the summary holds nothing or less than the part, `None` where the
    /// part is all of it, the summary itself where the part is empty.
    pub open spec fn spec_remove_combined(self, part: PairSummary) -> Result<
        Option<PairSummary>,
        StatsError,
    > {
        if self.n == 0 || part.n > self.n {
            Err(StatsError::ProtocolViolation)
        } else if part.n == self.n {
            Ok(None)
        } else if part.n == 0 {
            Ok(Some(self))
        } else {
            let rest = (self.n - part.n) as u64;
            let x_axis = self.spec_x_axis().uncombined(self.n, part.spec_x_axis(), part.n);
            let y_axis = self.spec_y_axis().uncombined(self.n, part.spec_y_axis(), part.n);
            Ok(
                Some(
                    PairSummary::spec_from_axes(
                        rest,
                        x_axis,
                        y_axis,
                        self.c11.minus(part.c11).minus(
                            cross_shift(
                                x_axis.spec_mean_gap(rest, part.spec_x_axis(), part.n),
                                y_axis.spec_mean_gap(rest, part.spec_y_axis(), part.n),
                                rest,
                                part.n,
                            ),
                        ),
                    ),
                ),
            )
        }
    }

    /// Whether a regression of `y` on `x` has no line: fewer than two pairs,
    /// or no spread in `x`.
    pub open spec fn spec_degenerate(self) -> bool {
        self.n < 2 || self.m2x.is_zero()
    }

    /// The slope of the least-squares line: the cross moment over the second
    /// moment of `x`.
    pub open spec fn spec_slope(self) -> Option<Binary64> {
        if self.spec_degenerate() {
            None
        } else {
            Some(self.c11.over(self.m2x))
        }
    }

    /// The value of the least-squares line at `x = 0`: the mean of `y` less
    /// the slope times the mean of `x`, as one quotient.
    pub open spec fn spec_intercept(self) -> Option<Binary64> {
        if self.spec_degenerate() {
            None
        } else {
            Some(
                self.sum_y.minus(self.sum_x.times(self.c11.over(self.m2x))).over(
                    Binary64::from_count(self.n),
                ),
            )
        }
    }

    /// Where the least-squares line meets `y = 0`. A vertical line meets it
    /// at the mean of `x`; a horizontal line does not meet it.
    pub open spec fn spec_x_intercept(self) -> Option<Binary64> {
        if self.n < 2 {
            None
        } else if self.m2x.is_zero() {
            Some(self.sum_x.over(Binary64::from_count(self.n)))
        } else if self.c11.is_zero() {
            None
        } else {
            Some(
                self.sum_y.minus(self.sum_x.times(self.c11.over(self.m2x))).over(
                    Binary64::from_count(self.n),
                ).negated().over(self.c11.over(self.m2x)),
            )
        }
    }

    /// The correlation coefficient: the cross moment over the root of the
    /// product of the two second moments.
    pub open spec fn spec_correlation(self) -> Option<Binary64> {
        if self.spec_degenerate() || self.m2y.is_zero() {
            None
        } else {
            Some(self.c11.over(self.m2x.times(self.m2y).sqrt()))
        }
    }

    /// The coefficient of determination: the squared cross moment over the
    /// product of the two second moments, and one where `y` has no spread.
    pub open spec fn spec_determination_coefficient(self) -> Option<Binary64> {
        if self.spec_degenerate() {
            None
        } else if self.m2y.is_zero() {
            Some(Binary64::from_count(1))
        } else {
            Some(self.c11.times(self.c11).over(self.m2x.times(self.m2y)))
        }
    }

    /// The covariance of the pairs as a whole population.
    pub open spec fn spec_covariance_population(self) -> Option<Binary64> {
        if self.n == 0 {
            None
        } else {
            Some(self.c11.over(Binary64::from_count(self.n)))
        }
    }

    /// The covariance of the population that the pairs are a sample of.
    pub open spec fn spec_covariance_sample(self) -> Option<Binary64> {
        if self.n < 2 {
            None
        } else {
            Some(self.c11.over(Binary64::from_count((self.n - 1) as u64)))
        }
    }

    /// The covariance by the given method.
    pub open spec fn spec_covariance(self, method: Method) -> Option<Binary64> {
        match method {
            Method::Population => self.spec_covariance_population(),
            Method::Sample => self.spec_covariance_sample(),
        }
    }

    /// The summary of no pairs.
    #[verifier::when_used_as_spec(spec_new)]
    pub fn new() -> (r: PairSummary)
        ensures
            r == PairSummary::spec_new(),
            r.n == 0,
            r.well_formed(),
    {
        PairSummary::from_axes(0, Axis::empty(), Axis::empty(), Binary64::zero())
    }

    /// The sums of the first variable.
    #[verifier::when_used_as_spec(spec_x_axis)]
    pub fn x_axis(self) -> (r: Axis)
        ensures
            r == self.spec_x_axis(),
    {
        Axis { sum: self.sum_x, m2: self.m2x, m3: self.m3x, m4: self.m4x }
    }

    /// The sums of the second variable.
    #[verifier::when_used_as_spec(spec_y_axis)]
    pub fn y_axis(self) -> (r: Axis)
        ensures
            r == self.spec_y_axis(),
    {
        Axis { sum: self.sum_y, m2: self.m2y, m3: self.m3y, m4: self.m4y }
    }

    /// The summary of `n` pairs with the given sums.
    #[verifier::when_used_as_spec(spec_from_axes)]
    pub fn from_axes(n: u64, x: Axis, y: Axis, c11: Binary64) -> (r: PairSummary)
        ensures
            r == PairSummary::spec_from_axes(n, x, y, c11),
    {
        PairSummary {
            n,
            sum_x: x.sum,
            m2x: x.m2,
            m3x: x.m3,
            m4x: x.m4,
            sum_y: y.sum,
            m2y: y.m2,
            m3y: y.m3,
            m4y: y.m4,
            c11,
        }
    }

    /// The summary of the first variable alone.
    #[verifier::when_used_as_spec(spec_x_summary)]
    pub fn x_summary(self) -> (r: ScalarSummary)
        ensures
            r == self.spec_x_summary(),
    {
        ScalarSummary::from_axis(self.n, self.x_axis())
    }

    /// The summary of the second variable alone.
    #[verifier::when_used_as_spec(spec_y_summary)]
    pub fn y_summary(self) -> (r: ScalarSummary)
        ensures
            r == self.spec_y_summary(),
    {
        ScalarSummary::from_axis(self.n, self.y_axis())
    }

    /// Takes one more pair in. Any values are taken: one that is not finite
    /// leaves sums that are not, on its own axis and in the cross moment.
    #[verifier::when_used_as_spec(spec_accumulate)]
    pub fn accumulate(self, x: Binary64, y: Binary64) -> (r: PairSummary)
        requires
            self.n < u64::MAX,
        ensures
            r == self.spec_accumulate(x, y),
            r.n == self.n + 1,
            r.x_summary() == self.x_summary().accumulate(x),
            r.y_summary() == self.y_summary().accumulate(y),
            r.well_formed(),
    {
        let dx: Binary64 = self.x_axis().deviation(self.n, x);
        let dy: Binary64 = self.y_axis().deviation(self.n, y);
        PairSummary::from_axes(
            self.n + 1,
            self.x_axis().accumulated(self.n, x),
            self.y_axis().accumulated(self.n, y),
            self.c11.plus(cross_step(dx, dy, self.n)),
        )
    }

    /// Takes back a pair that was taken in. That the summary holds the pair
    /// is for the caller to see to; that it holds one at all is tested.
    #[verifier::when_used_as_spec(spec_remove)]
    pub fn remove(self, x: Binary64, y: Binary64) -> (r: Result<Option<PairSummary>, StatsError>)
        ensures
            r == self.spec_remove(x, y),
            r is Err <==> self.n == 0,
            r == Ok::<Option<PairSummary>, StatsError>(None) <==> self.n == 1,
            r matches Ok(Some(s)) ==> s.n == self.n - 1 && s.well_formed(),
    {
        if self.n == 0 {
            Err(StatsError::ProtocolViolation)
        } else if self.n == 1 {
            Ok(None)
        } else {
            let before: u64 = self.n - 1;
            let x_axis: Axis = self.x_axis().removed(self.n, x);
            let y_axis: Axis = self.y_axis().removed(self.n, y);
            let dx: Binary64 = x_axis.deviation(before, x);
            let dy: Binary64 = y_axis.deviation(before, y);
            Ok(
                Some(
                    PairSummary::from_axes(
                        before,
                        x_axis,
                        y_axis,
                        self.c11.minus(cross_step(dx, dy, before)),
                    ),
                ),
            )
        }
    }

    /// Merges the summary of other pairs into this one.
    #[verifier::when_used_as_spec(spec_combine)]
    pub fn combine(self, other: PairSummary) -> (r: PairSummary)
        requires
            self.n + other.n <= u64::MAX,
        ensures
            r == self.spec_combine(other),
            r.n == self.n + other.n,
            r.x_summary() == self.x_summary().combine(other.x_summary()),
            r.y_summary() == self.y_summary().combine(other.y_summary()),
            self.well_formed() && other.well_formed() ==> r.well_formed(),
    {
        if self.n == 0 {
            other
        } else if other.n == 0 {
            self
        } else {
            let dx: Binary64 = other.x_axis().mean(other.n).minus(self.x_axis().mean(self.n));
            let dy: Binary64 = other.y_axis().mean(other.n).minus(self.y_axis().mean(self.n));
            PairSummary::from_axes(
                self.n + other.n,
                self.x_axis().combined(self.n, other.x_axis(), other.n),
                self.y_axis().combined(self.n, other.y_axis(), other.n),
                self.c11.plus(other.c11).plus(cross_shift(dx, dy, self.n, other.n)),
            )
        }
    }

    /// Takes back a summary that was merged into this one.
    #[verifier::when_used_as_spec(spec_remove_combined)]
    pub fn remove_combined(self, part: PairSummary) -> (r: Result<
        Option<PairSummary>,
        StatsError,
    >)
        ensures
            r == self.spec_remove_combined(part),
            r is Err <==> self.n == 0 || part.n > self.n,
            r == Ok::<Option<PairSummary>, StatsError>(None) <==> 0 < self.n == part.n,
            r matches Ok(Some(s)) ==> s.n == self.n - part.n && s.well_formed(),
    {
        if self.n == 0 || part.n > self.n {
            Err(StatsError::ProtocolViolation)
        } else if part.n == self.n {
            Ok(None)
        } else if part.n == 0 {
            Ok(Some(self))
        } else {
            let rest: u64 = self.n - part.n;
            let x_axis: Axis = self.x_axis().uncombined(self.n, part.x_axis(), part.n);
            let y_axis: Axis = self.y_axis().uncombined(self.n, part.y_axis(), part.n);
            let dx: Binary64 = part.x_axis().mean(part.n).minus(x_axis.mean(rest));
            let dy: Binary64 = part.y_axis().mean(part.n).minus(y_axis.mean(rest));
            Ok(
                Some(
                    PairSummary::from_axes(
                        rest,
                        x_axis,
                        y_axis,
                        self.c11.minus(part.c11).minus(cross_shift(dx, dy, rest, part.n)),
                    ),
                ),
            )
        }
    }

    /// The number of pairs.
    pub fn count(self) -> (r: u64)
        ensures
            r == self.n,
    {
        self.n
    }

    /// The sum of `x`; `None` where there are no pairs.
    pub fn sum_x(self) -> (r: Option<Binary64>)
        ensures
            r == self.x_summary().sum(),
            r is None <==> self.n == 0,
    {
        self.x_summary().sum()
    }

    /// The sum of `y`; `None` where there are no pairs.
    pub fn sum_y(self) -> (r: Option<Binary64>)
        ensures
            r == self.y_summary().sum(),
            r is None <==> self.n == 0,
    {
        self.y_summary().sum()
    }

    /// The mean of `x`; `None` where there are no pairs.
    pub fn average_x(self) -> (r: Option<Binary64>)
        ensures
            r == self.x_summary().average(),
            r is None <==> self.n == 0,
    {
        self.x_summary().average()
    }

    /// The mean of `y`; `None` where there are no pairs.
    pub fn average_y(self) -> (r: Option<Binary64>)
        ensures
            r == self.y_summary().average(),
            r is None <==> self.n == 0,
    {
        self.y_summary().average()
    }

    /// The variance of `x` by the given method.
    pub fn variance_x(self, method: Method) -> (r: Option<Binary64>)
        ensures
            r == self.x_summary().variance(method),
            r is None <==> self.n < (match method {
                Method::Population => 1u64,
                Method::Sample => 2u64,
            }),
    {
        self.x_summary().variance(method)
    }

    /// The variance of `y` by the given method.
    pub fn variance_y(self, method: Method) -> (r: Option<Binary64>)
        ensures
            r == self.y_summary().variance(method),
            r is None <==> self.n < (match method {
                Method::Population => 1u64,
                Method::Sample => 2u64,
            }),
    {
        self.y_summary().variance(method)
    }

    /// The standard deviation of `x` by the given method.
    pub fn stddev_x(self, method: Method) -> (r: Option<Binary64>)
        ensures
            r == self.x_summary().stddev(method),
            r is None <==> self.n < (match method {
                Method::Population => 1u64,
                Method::Sample => 2u64,
            }),
    {
        self.x_summary().stddev(method)
    }

    /// The standard deviation of `y` by the given method.
    pub fn stddev_y(self, method: Method) -> (r: Option<Binary64>)
        ensures
            r == self.y_summary().stddev(method),
            r is None <==> self.n < (match method {
                Method::Population => 1u64,
                Method::Sample => 2u64,
            }),
    {
        self.y_summary().stddev(method)
    }

    /// The population skewness of `x`; `None` where there are no pairs.
    pub fn skewness_x(self) -> (r: Option<Binary64>)
        ensures
            r == self.x_summary().skewness(),
            r is None <==> self.n == 0,
    {
        self.x_summary().skewness()
    }

    /// The population skewness of `y`; `None` where there are no pairs.
    pub fn skewness_y(self) -> (r: Option<Binary64>)
        ensures
            r == self.y_summary().skewness(),
            r is None <==> self.n == 0,
    {
        self.y_summary().skewness()
    }

    /// The population kurtosis of `x`; `None` where there are no pairs.
    pub fn kurtosis_x(self) -> (r: Option<Binary64>)
        ensures
            r == self.x_summary().kurtosis(),
            r is None <==> self.n == 0,
    {
        self.x_summary().kurtosis()
    }

    /// The population kurtosis of `y`; `None` where there are no pairs.
    pub fn kurtosis_y(self) -> (r: Option<Binary64>)
        ensures
            r == self.y_summary().kurtosis(),
            r is None <==> self.n == 0,
    {
        self.y_summary().kurtosis()
    }

    /// The slope of the least-squares line of `y` on `x`; `None` where there
    /// are fewer than two pairs or `x` has no spread.
    #[verifier::when_used_as_spec(spec_slope)]
    pub fn slope(self) -> (r: Option<Binary64>)
        ensures
            r == self.spec_slope(),
            r is None <==> self.n < 2 || self.m2x.is_zero(),
    {
        if self.n < 2 || self.m2x.is_zero() {
            None
        } else {
            Some(self.c11.over(self.m2x))
        }
    }

    /// The intercept of the least-squares line with the `y` axis; `None`
    /// where there are fewer than two pairs or `x` has no spread.
    #[verifier::when_used_as_spec(spec_intercept)]
    pub fn intercept(self) -> (r: Option<Binary64>)
        ensures
            r == self.spec_intercept(),
            r is None <==> self.n < 2 || self.m2x.is_zero(),
    {
        match self.slope() {
            None => None,
            Some(slope) => Some(
                self.sum_y.minus(self.sum_x.times(slope)).over(Binary64::from_count(self.n)),
            ),
        }
    }

    /// The intercept of the least-squares line with the `x` axis; `None`
    /// where there are fewer than two pairs, or where `x` has spread and the
    /// cross moment is zero.
    #[verifier::when_used_as_spec(spec_x_intercept)]
    pub fn x_intercept(self) -> (r: Option<Binary64>)
        ensures
            r == self.spec_x_intercept(),
            r is None <==> self.n < 2 || (!self.m2x.is_zero() && self.c11.is_zero()),
    {
        if self.n < 2 {
            None
        } else if self.m2x.is_zero() {
            Some(self.sum_x.over(Binary64::from_count(self.n)))
        } else if self.c11.is_zero() {
            None
        } else {
            let slope: Binary64 = self.c11.over(self.m2x);
            let intercept: Binary64 = self.sum_y.minus(self.sum_x.times(slope)).over(
                Binary64::from_count(self.n),
            );
            Some(intercept.negated().over(slope))
        }
    }

    /// The correlation coefficient; `None` where there are fewer than two
    /// pairs or one of the variables has no spread.
    #[verifier::when_used_as_spec(spec_correlation)]
    pub fn correlation(self) -> (r: Option<Binary64>)
        ensures
            r == self.spec_correlation(),
            r is None <==> self.n < 2 || self.m2x.is_zero() || self.m2y.is_zero(),
    {
        if self.n < 2 || self.m2x.is_zero() || self.m2y.is_zero() {
            None
        } else {
            Some(self.c11.over(self.m2x.times(self.m2y).sqrt()))
        }
    }

    /// The coefficient of determination; `None` where there are fewer than
    /// two pairs or `x` has no spread.
    #[verifier::when_used_as_spec(spec_determination_coefficient)]
    pub fn determination_coefficient(self) -> (r: Option<Binary64>)
        ensures
            r == self.spec_determination_coefficient(),
            r is None <==> self.n < 2 || self.m2x.is_zero(),
    {
        if self.n < 2 || self.m2x.is_zero() {
            None
        } else if self.m2y.is_zero() {
            Some(Binary64::from_count(1))
        } else {
            Some(self.c11.times(self.c11).over(self.m2x.times(self.m2y)))
        }
    }

    /// The population covariance; `None` where there are no pairs.
    #[verifier::when_used_as_spec(spec_covariance_population)]
    pub fn covariance_population(self) -> (r: Option<Binary64>)
        ensures
            r == self.spec_covariance_population(),
            r is None <==> self.n == 0,
    {
        if self.n == 0 {
            None
        } else {
            Some(self.c11.over(Binary64::from_count(self.n)))
        }
    }

    /// The sample covariance; `None` where there are fewer than two pairs.
    #[verifier::when_used_as_spec(spec_covariance_sample)]
    pub fn covariance_sample(self) -> (r: Option<Binary64>)
        ensures
            r == self.spec_covariance_sample(),
            r is None <==> self.n < 2,
    {
        if self.n < 2 {
            None
        } else {
            Some(self.c11.over(Binary64::from_count(self.n - 1)))
        }
    }

    /// The covariance by the given method.
    #[verifier::when_used_as_spec(spec_covariance)]
    pub fn covariance(self, method: Method) -> (r: Option<Binary64>)
        ensures
            r == self.spec_covariance(method),
            r is None <==> self.n < (match method {
                Method::Population => 1u64,
                Method::Sample => 2u64,
            }),
    {
        match method {
            Method::Population => self.covariance_population(),
            Method::Sample => self.covariance_sample(),
        }
    }
}

} // verus!
