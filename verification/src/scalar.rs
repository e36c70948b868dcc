//! The summary of a stream of scalar observations.

use crate::binary64::Binary64;
use crate::error::StatsError;
use crate::method::Method;
use crate::moments::Axis;
use vstd::prelude::*;

verus! {

/// The count, the sum and the centred power sums of the observations taken
/// in so far. A value of this type is never changed: each transition returns
/// the next state.
#[derive(Clone, Copy, Debug, PartialEq, Eq, Structural)]
pub struct ScalarSummary {
    /// Number of observations.
    pub n: u64,
    /// Sum of the observations.
    pub sum: Binary64,
    /// Sum of squared deviations from the mean.
    pub m2: Binary64,
    /// Sum of cubed deviations from the mean.
    pub m3: Binary64,
    /// Sum of fourth powers of deviations from the mean.
    pub m4: Binary64,
}

impl ScalarSummary {
    /// The summary of no observations.
    pub open spec fn spec_new() -> ScalarSummary {
        ScalarSummary::spec_from_axis(0, Axis::empty())
    }

    /// A summary of no observations holds zero in every sum. The
    /// constructor gives such a summary and the transitions keep to it.
    pub open spec fn well_formed(self) -> bool {
        self.n == 0 ==> self == ScalarSummary::spec_new()
    }

    /// The sums without the count.
    pub open spec fn spec_axis(self) -> Axis {
        Axis { sum: self.sum, m2: self.m2, m3: self.m3, m4: self.m4 }
    }

    /// The summary of `n` observations with the given sums.
    pub open spec fn spec_from_axis(n: u64, axis: Axis) -> ScalarSummary {
        ScalarSummary { n, sum: axis.sum, m2: axis.m2, m3: axis.m3, m4: axis.m4 }
    }

    /// The state after one more observation.
    pub open spec fn spec_accumulate(self, value: Binary64) -> ScalarSummary {
        ScalarSummary::spec_from_axis(
            (self.n + 1) as u64,
            self.spec_axis().accumulated(self.n, value),
        )
    }

    /// The state before an observation was taken in: an error where the
    /// summary holds nothing, `None` where it held this observation only,
    /// otherwise the summary of the others.
    pub open spec fn spec_remove(self, value: Binary64) -> Result<
        Option<ScalarSummary>,
        StatsError,
    > {
        if self.n == 0 {
            Err(StatsError::ProtocolViolation)
        } else if self.n == 1 {
            Ok(None)
        } else {
            Ok(
                Some(
                    ScalarSummary::spec_from_axis(
                        (self.n - 1) as u64,
                        self.spec_axis().removed(self.n, value),
                    ),
                ),
            )
        }
    }

    /// The summary of the union of two disjoint sets of observations. The
    /// empty summary is the identity.
    pub open spec fn spec_combine(self, other: ScalarSummary) -> ScalarSummary {
        if self.n == 0 {
            other
        } else if other.n == 0 {
            self
        } else {
            ScalarSummary::spec_from_axis(
                (self.n + other.n) as u64,
                self.spec_axis().combined(self.n, other.spec_axis(), other.n),
            )
        }
    }

    /// The summary of what is left when a part is taken out: an error where
    /// the summary holds nothing or less than the part, `None` where the
    /// part is all of it, the summary itself where the part is empty.
    pub open spec fn spec_remove_combined(self, part: ScalarSummary) -> Result<
        Option<ScalarSummary>,
        StatsError,
    > {
        if self.n == 0 || part.n > self.n {
            Err(StatsError::ProtocolViolation)
        } else if part.n == self.n {
            Ok(None)
        } else if part.n == 0 {
            Ok(Some(self))
        } else {
            Ok(
                Some(
                    ScalarSummary::spec_from_axis(
                        (self.n - part.n) as u64,
                        self.spec_axis().uncombined(self.n, part.spec_axis(), part.n),
                    ),
                ),
            )
        }
    }

    /// The sum, which no observations do not have.
    pub open spec fn spec_sum(self) -> Option<Binary64> {
        if self.n == 0 {
            None
        } else {
            Some(self.sum)
        }
    }

    /// The mean: the sum over the count.
    pub open spec fn spec_average(self) -> Option<Binary64> {
        if self.n == 0 {
            None
        } else {
            Some(self.sum.over(Binary64::from_count(self.n)))
        }
    }

    /// The variance of the observations as a whole population: the second
    /// moment over the count.
    pub open spec fn spec_variance_population(self) -> Option<Binary64> {
        if self.n == 0 {
            None
        } else {
            Some(self.m2.over(Binary64::from_count(self.n)))
        }
    }

    /// The variance of the population that the observations are a sample
    /// of: the second moment over one less than the count.
    pub open spec fn spec_variance_sample(self) -> Option<Binary64> {
        if self.n < 2 {
            None
        } else {
            Some(self.m2.over(Binary64::from_count((self.n - 1) as u64)))
        }
    }

    /// The variance by the given method.
    pub open spec fn spec_variance(self, method: Method) -> Option<Binary64> {
        match method {
            Method::Population => self.spec_variance_population(),
            Method::Sample => self.spec_variance_sample(),
        }
    }

    /// The standard deviation by the given method: the square root of the
    /// variance.
    pub open spec fn spec_stddev(self, method: Method) -> Option<Binary64> {
        match self.spec_variance(method) {
            Some(v) => Some(v.sqrt()),
            None => None,
        }
    }

    /// The skewness of the observations as a population: the third moment
    /// over the count, over the variance to the power of three halves.
    pub open spec fn spec_skewness(self) -> Option<Binary64> {
        if self.n == 0 {
            None
        } else {
            let count = Binary64::from_count(self.n);
            let variance = self.m2.over(count);
            Some(self.m3.over(count).over(variance.times(variance.sqrt())))
        }
    }

    /// The kurtosis of the observations as a population: the fourth moment
    /// over the count, over the squared variance.
    pub open spec fn spec_kurtosis(self) -> Option<Binary64> {
        if self.n == 0 {
            None
        } else {
            let count = Binary64::from_count(self.n);
            let variance = self.m2.over(count);
            Some(self.m4.over(count).over(variance.times(variance)))
        }
    }

    /// The summary of no observations.
    #[verifier::when_used_as_spec(spec_new)]
    pub fn new() -> (r: ScalarSummary)
        ensures
            r == ScalarSummary::spec_new(),
            r.n == 0,
            r.well_formed(),
    {
        ScalarSummary::from_axis(0, Axis::empty())
    }

    /// The sums without the count.
    #[verifier::when_used_as_spec(spec_axis)]
    pub fn axis(self) -> (r: Axis)
        ensures
            r == self.spec_axis(),
    {
        Axis { sum: self.sum, m2: self.m2, m3: self.m3, m4: self.m4 }
    }

    /// The summary of `n` observations with the given sums.
    #[verifier::when_used_as_spec(spec_from_axis)]
    pub fn from_axis(n: u64, axis: Axis) -> (r: ScalarSummary)
        ensures
            r == ScalarSummary::spec_from_axis(n, axis),
    {
        ScalarSummary { n, sum: axis.sum, m2: axis.m2, m3: axis.m3, m4: axis.m4 }
    }

    /// Takes one more observation in. Any value is taken: one that is not
    /// finite leaves sums that are not.
    #[verifier::when_used_as_spec(spec_accumulate)]
    pub fn accumulate(self, value: Binary64) -> (r: ScalarSummary)
        requires
            self.n < u64::MAX,
        ensures
            r == self.spec_accumulate(value),
            r.n == self.n + 1,
            r.well_formed(),
    {
        ScalarSummary::from_axis(self.n + 1, self.axis().accumulated(self.n, value))
    }

    /// Takes back an observation that was taken in. That the summary holds
    /// the observation is for the caller to see to; that it holds one at all
    /// is tested.
    #[verifier::when_used_as_spec(spec_remove)]
    pub fn remove(self, value: Binary64) -> (r: Result<Option<ScalarSummary>, StatsError>)
        ensures
            r == self.spec_remove(value),
            r is Err <==> self.n == 0,
            r == Ok::<Option<ScalarSummary>, StatsError>(None) <==> self.n == 1,
            r matches Ok(Some(s)) ==> s.n == self.n - 1 && s.well_formed(),
    {
        if self.n == 0 {
            Err(StatsError::ProtocolViolation)
        } else if self.n == 1 {
            Ok(None)
        } else {
            Ok(Some(ScalarSummary::from_axis(self.n - 1, self.axis().removed(self.n, value))))
        }
    }

    /// Merges the summary of other observations into this one.
    #[verifier::when_used_as_spec(spec_combine)]
    pub fn combine(self, other: ScalarSummary) -> (r: ScalarSummary)
        requires
            self.n + other.n <= u64::MAX,
        ensures
            r == self.spec_combine(other),
            r.n == self.n + other.n,
            self.well_formed() && other.well_formed() ==> r.well_formed(),
    {
        if self.n == 0 {
            other
        } else if other.n == 0 {
            self
        } else {
            ScalarSummary::from_axis(
                self.n + other.n,
                self.axis().combined(self.n, other.axis(), other.n),
            )
        }
    }

    /// Takes back a summary that was merged into this one.
    #[verifier::when_used_as_spec(spec_remove_combined)]
    pub fn remove_combined(self, part: ScalarSummary) -> (r: Result<
        Option<ScalarSummary>,
        StatsError,
    >)
        ensures
            r == self.spec_remove_combined(part),
            r is Err <==> self.n == 0 || part.n > self.n,
            r == Ok::<Option<ScalarSummary>, StatsError>(None) <==> 0 < self.n == part.n,
            r matches Ok(Some(s)) ==> s.n == self.n - part.n && s.well_formed(),
    {
        if self.n == 0 || part.n > self.n {
            Err(StatsError::ProtocolViolation)
        } else if part.n == self.n {
            Ok(None)
        } else if part.n == 0 {
            Ok(Some(self))
        } else {
            Ok(
                Some(
                    ScalarSummary::from_axis(
                        self.n - part.n,
                        self.axis().uncombined(self.n, part.axis(), part.n),
                    ),
                ),
            )
        }
    }

    /// The number of observations.
    pub fn count(self) -> (r: u64)
        ensures
            r == self.n,
    {
        self.n
    }

    /// The sum of the observations; `None` where there are none.
    #[verifier::when_used_as_spec(spec_sum)]
    pub fn sum(self) -> (r: Option<Binary64>)
        ensures
            r == self.spec_sum(),
            r is None <==> self.n == 0,
    {
        if self.n == 0 {
            None
        } else {
            Some(self.sum)
        }
    }

    /// The mean of the observations; `None` where there are none.
    #[verifier::when_used_as_spec(spec_average)]
    pub fn average(self) -> (r: Option<Binary64>)
        ensures
            r == self.spec_average(),
            r is None <==> self.n == 0,
    {
        if self.n == 0 {
            None
        } else {
            Some(self.axis().mean(self.n))
        }
    }

    /// The population variance; `None` where there are no observations.
    #[verifier::when_used_as_spec(spec_variance_population)]
    pub fn variance_population(self) -> (r: Option<Binary64>)
        ensures
            r == self.spec_variance_population(),
            r is None <==> self.n == 0,
    {
        if self.n == 0 {
            None
        } else {
            Some(self.m2.over(Binary64::from_count(self.n)))
        }
    }

    /// The sample variance; `None` where there are fewer than two
    /// observations.
    #[verifier::when_used_as_spec(spec_variance_sample)]
    pub fn variance_sample(self) -> (r: Option<Binary64>)
        ensures
            r == self.spec_variance_sample(),
            r is None <==> self.n < 2,
    {
        if self.n < 2 {
            None
        } else {
            Some(self.m2.over(Binary64::from_count(self.n - 1)))
        }
    }

    /// The variance by the given method.
    #[verifier::when_used_as_spec(spec_variance)]
    pub fn variance(self, method: Method) -> (r: Option<Binary64>)
        ensures
            r == self.spec_variance(method),
            r is None <==> self.n < (match method {
                Method::Population => 1u64,
                Method::Sample => 2u64,
            }),
    {
        match method {
            Method::Population => self.variance_population(),
            Method::Sample => self.variance_sample(),
        }
    }

    /// The standard deviation by the given method.
    #[verifier::when_used_as_spec(spec_stddev)]
    pub fn stddev(self, method: Method) -> (r: Option<Binary64>)
        ensures
            r == self.spec_stddev(method),
            r is None <==> self.n < (match method {
                Method::Population => 1u64,
                Method::Sample => 2u64,
            }),
    {
        match self.variance(method) {
            Some(v) => Some(v.sqrt()),
            None => None,
        }
    }

    /// The population standard deviation; `None` where there are no
    /// observations.
    pub fn stddev_population(self) -> (r: Option<Binary64>)
        ensures
            r == self.spec_stddev(Method::Population),
            r is None <==> self.n == 0,
    {
        self.stddev(Method::Population)
    }

    /// The sample standard deviation; `None` where there are fewer than two
    /// observations.
    pub fn stddev_sample(self) -> (r: Option<Binary64>)
        ensures
            r == self.spec_stddev(Method::Sample),
            r is None <==> self.n < 2,
    {
        self.stddev(Method::Sample)
    }

    /// The population skewness; `None` where there are no observations. Of
    /// observations that are all alike it is NaN.
    #[verifier::when_used_as_spec(spec_skewness)]
    pub fn skewness(self) -> (r: Option<Binary64>)
        ensures
            r == self.spec_skewness(),
            r is None <==> self.n == 0,
    {
        if self.n == 0 {
            None
        } else {
            let count: Binary64 = Binary64::from_count(self.n);
            let variance: Binary64 = self.m2.over(count);
            Some(self.m3.over(count).over(variance.times(variance.sqrt())))
        }
    }

    /// The population kurtosis; `None` where there are no observations. Of
    /// observations that are all alike it is NaN.
    #[verifier::when_used_as_spec(spec_kurtosis)]
    pub fn kurtosis(self) -> (r: Option<Binary64>)
        ensures
            r == self.spec_kurtosis(),
            r is None <==> self.n == 0,
    {
        if self.n == 0 {
            None
        } else {
            let count: Binary64 = Binary64::from_count(self.n);
            let variance: Binary64 = self.m2.over(count);
            Some(self.m4.over(count).over(variance.times(variance)))
        }
    }
}

} // verus!
