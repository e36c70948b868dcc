//! The steps by which an aggregate over a stream or a window drives a
//! summary: the transition for each row, its inverse for rows that leave a
//! window, the merge of partial states, and the readers of the final state.
//!
//! A state or a value that is absent is `None`. A row with an absent value
//! leaves the state as it is; in a pair, one absent part makes the pair
//! absent. The inverse steps turn down an absent state with
//! `StatsError::ProtocolViolation`: the caller must end its aggregation.

use crate::binary64::Binary64;
use crate::error::StatsError;
use crate::method::{method_kind, method_of};
use crate::pair::PairSummary;
use crate::scalar::ScalarSummary;
use vstd::prelude::*;

verus! {

/// The pair that a row holds: present where both of its parts are.
pub open spec fn spec_pair_of(y: Option<Binary64>, x: Option<Binary64>) -> Option<
    (Binary64, Binary64),
> {
    match (x, y) {
        (Some(x), Some(y)) => Some((x, y)),
        _ => None,
    }
}

/// The pair `(x, y)` that a row holds: present where both of its parts are.
#[verifier::when_used_as_spec(spec_pair_of)]
pub fn pair_of(y: Option<Binary64>, x: Option<Binary64>) -> (r: Option<(Binary64, Binary64)>)
    ensures
        r == spec_pair_of(y, x),
        r is Some <==> x is Some && y is Some,
{
    match (x, y) {
        (Some(x), Some(y)) => Some((x, y)),
        _ => None,
    }
}

/// The state of a scalar aggregate after a row.
pub open spec fn spec_stats1d_trans(
    state: Option<ScalarSummary>,
    val: Option<Binary64>,
) -> ScalarSummary {
    let before = match state {
        Some(s) => s,
        None => ScalarSummary::new(),
    };
    match val {
        Some(v) => before.accumulate(v),
        None => before,
    }
}

/// Takes a row into a scalar aggregate. The result is never absent: a first
/// row without a value starts the aggregate with the empty summary.
pub fn stats1d_trans(state: Option<ScalarSummary>, val: Option<Binary64>) -> (r: Option<
    ScalarSummary,
>)
    requires
        val is Some ==> (state matches Some(s) ==> s.n < u64::MAX),
    ensures
        r == Some(spec_stats1d_trans(state, val)),
{
    match (state, val) {
        (None, None) => Some(ScalarSummary::new()),
        (Some(state), None) => Some(state),
        (None, Some(val)) => Some(ScalarSummary::new().accumulate(val)),
        (Some(state), Some(val)) => Some(state.accumulate(val)),
    }
}

/// The state of a paired aggregate after a row.
pub open spec fn spec_stats2d_trans(
    state: Option<PairSummary>,
    y: Option<Binary64>,
    x: Option<Binary64>,
) -> PairSummary {
    let before = match state {
        Some(s) => s,
        None => PairSummary::new(),
    };
    match pair_of(y, x) {
        Some((x, y)) => before.accumulate(x, y),
        None => before,
    }
}

/// Takes a row into a paired aggregate. A row that lacks `y` or `x` counts
/// for neither variable.
pub fn stats2d_trans(
    state: Option<PairSummary>,
    y: Option<Binary64>,
    x: Option<Binary64>,
) -> (r: Option<PairSummary>)
    requires
        x is Some && y is Some ==> (state matches Some(s) ==> s.n < u64::MAX),
    ensures
        r == Some(spec_stats2d_trans(state, y, x)),
{
    match (state, pair_of(y, x)) {
        (None, None) => Some(PairSummary::new()),
        (Some(state), None) => Some(state),
        (None, Some((x, y))) => Some(PairSummary::new().accumulate(x, y)),
        (Some(state), Some((x, y))) => Some(state.accumulate(x, y)),
    }
}

/// The state of a scalar window aggregate after a row has left the window.
pub open spec fn spec_stats1d_inv_trans(
    state: Option<ScalarSummary>,
    val: Option<Binary64>,
) -> Result<Option<ScalarSummary>, StatsError> {
    match (state, val) {
        (None, _) => Err(StatsError::ProtocolViolation),
        (Some(s), None) => Ok(Some(s)),
        (Some(s), Some(v)) => s.remove(v),
    }
}

/// Takes a row out of a scalar window aggregate. `Ok(None)` says that the
/// window is empty again.
pub fn stats1d_inv_trans(state: Option<ScalarSummary>, val: Option<Binary64>) -> (r: Result<
    Option<ScalarSummary>,
    StatsError,
>)
    ensures
        r == spec_stats1d_inv_trans(state, val),
        r is Err <==> (state matches Some(s) ==> val is Some && s.n == 0),
{
    match (state, val) {
        (None, _) => Err(StatsError::ProtocolViolation),
        (Some(state), None) => Ok(Some(state)),
        (Some(state), Some(val)) => state.remove(val),
    }
}

/// The state of a paired window aggregate after a row has left the window.
pub open spec fn spec_stats2d_inv_trans(
    state: Option<PairSummary>,
    y: Option<Binary64>,
    x: Option<Binary64>,
) -> Result<Option<PairSummary>, StatsError> {
    match (state, pair_of(y, x)) {
        (None, _) => Err(StatsError::ProtocolViolation),
        (Some(s), None) => Ok(Some(s)),
        (Some(s), Some((x, y))) => s.remove(x, y),
    }
}

/// Takes a row out of a paired window aggregate.
pub fn stats2d_inv_trans(
    state: Option<PairSummary>,
    y: Option<Binary64>,
    x: Option<Binary64>,
) -> (r: Result<Option<PairSummary>, StatsError>)
    ensures
        r == spec_stats2d_inv_trans(state, y, x),
        r is Err <==> (state matches Some(s) ==> x is Some && y is Some && s.n == 0),
{
    match (state, pair_of(y, x)) {
        (None, _) => Err(StatsError::ProtocolViolation),
        (Some(state), None) => Ok(Some(state)),
        (Some(state), Some((x, y))) => state.remove(x, y),
    }
}

/// The merge of two partial states, an absent one counting as empty and the
/// merge of two absent ones being absent.
pub open spec fn spec_stats1d_combine(
    state1: Option<ScalarSummary>,
    state2: Option<ScalarSummary>,
) -> Option<ScalarSummary> {
    match (state1, state2) {
        (None, None) => None,
        (None, Some(b)) => Some(b),
        (Some(a), None) => Some(a),
        (Some(a), Some(b)) => Some(a.combine(b)),
    }
}

/// Merges the partial states of two workers.
pub fn stats1d_combine(state1: Option<ScalarSummary>, state2: Option<ScalarSummary>) -> (r:
    Option<ScalarSummary>)
    requires
        state1 matches Some(a) ==> (state2 matches Some(b) ==> a.n + b.n <= u64::MAX),
    ensures
        r == spec_stats1d_combine(state1, state2),
        r is None <==> state1 is None && state2 is None,
{
    match (state1, state2) {
        (None, None) => None,
        (None, Some(state2)) => Some(state2),
        (Some(state1), None) => Some(state1),
        (Some(state1), Some(state2)) => Some(state1.combine(state2)),
    }
}

/// The merge of two partial states of a paired aggregate.
pub open spec fn spec_stats2d_combine(
    state1: Option<PairSummary>,
    state2: Option<PairSummary>,
) -> Option<PairSummary> {
    match (state1, state2) {
        (None, None) => None,
        (None, Some(b)) => Some(b),
        (Some(a), None) => Some(a),
        (Some(a), Some(b)) => Some(a.combine(b)),
    }
}

/// Merges the partial states of two workers.
pub fn stats2d_combine(state1: Option<PairSummary>, state2: Option<PairSummary>) -> (r: Option<
    PairSummary,
>)
    requires
        state1 matches Some(a) ==> (state2 matches Some(b) ==> a.n + b.n <= u64::MAX),
    ensures
        r == spec_stats2d_combine(state1, state2),
        r is None <==> state1 is None && state2 is None,
{
    match (state1, state2) {
        (None, None) => None,
        (None, Some(state2)) => Some(state2),
        (Some(state1), None) => Some(state1),
        (Some(state1), Some(state2)) => Some(state1.combine(state2)),
    }
}

/// Takes a whole summary into an aggregate of summaries: the merge of the
/// state and the summary, an absent one counting as empty.
pub fn stats1d_summary_trans(state: Option<ScalarSummary>, value: Option<ScalarSummary>) -> (r:
    Option<ScalarSummary>)
    requires
        state matches Some(a) ==> (value matches Some(b) ==> a.n + b.n <= u64::MAX),
    ensures
        r == spec_stats1d_combine(state, value),
        r is None <==> state is None && value is None,
{
    match (state, value) {
        (state, None) => state,
        (None, Some(value)) => Some(value),
        (Some(state), Some(value)) => Some(state.combine(value)),
    }
}

/// Takes a whole summary into an aggregate of paired summaries.
pub fn stats2d_summary_trans(state: Option<PairSummary>, value: Option<PairSummary>) -> (r:
    Option<PairSummary>)
    requires
        state matches Some(a) ==> (value matches Some(b) ==> a.n + b.n <= u64::MAX),
    ensures
        r == spec_stats2d_combine(state, value),
        r is None <==> state is None && value is None,
{
    match (state, value) {
        (state, None) => state,
        (None, Some(value)) => Some(value),
        (Some(state), Some(value)) => Some(state.combine(value)),
    }
}

/// The state of a window aggregate of summaries after a summary has left
/// the window.
pub open spec fn spec_stats1d_summary_inv_trans(
    state: Option<ScalarSummary>,
    value: Option<ScalarSummary>,
) -> Result<Option<ScalarSummary>, StatsError> {
    match (state, value) {
        (None, _) => Err(StatsError::ProtocolViolation),
        (Some(s), None) => Ok(Some(s)),
        (Some(s), Some(v)) => s.remove_combined(v),
    }
}

/// Takes a summary out of a window aggregate of summaries.
pub fn stats1d_summary_inv_trans(
    state: Option<ScalarSummary>,
    value: Option<ScalarSummary>,
) -> (r: Result<Option<ScalarSummary>, StatsError>)
    ensures
        r == spec_stats1d_summary_inv_trans(state, value),
        r is Err <==> (state matches Some(s) ==> (value matches Some(v) && (s.n == 0 || v.n
            > s.n))),
{
    match (state, value) {
        (None, _) => Err(StatsError::ProtocolViolation),
        (Some(state), None) => Ok(Some(state)),
        (Some(state), Some(value)) => state.remove_combined(value),
    }
}

/// The state of a window aggregate of paired summaries after a summary has
/// left the window.
pub open spec fn spec_stats2d_summary_inv_trans(
    state: Option<PairSummary>,
    value: Option<PairSummary>,
) -> Result<Option<PairSummary>, StatsError> {
    match (state, value) {
        (None, _) => Err(StatsError::ProtocolViolation),
        (Some(s), None) => Ok(Some(s)),
        (Some(s), Some(v)) => s.remove_combined(v),
    }
}

/// Takes a summary out of a window aggregate of paired summaries.
pub fn stats2d_summary_inv_trans(state: Option<PairSummary>, value: Option<PairSummary>) -> (r:
    Result<Option<PairSummary>, StatsError>)
    ensures
        r == spec_stats2d_summary_inv_trans(state, value),
        r is Err <==> (state matches Some(s) ==> (value matches Some(v) && (s.n == 0 || v.n
            > s.n))),
{
    match (state, value) {
        (None, _) => Err(StatsError::ProtocolViolation),
        (Some(state), None) => Ok(Some(state)),
        (Some(state), Some(value)) => state.remove_combined(value),
    }
}

/// The summary that a finished scalar aggregate reports: its state.
pub fn stats1d_final(state: Option<ScalarSummary>) -> (r: Option<ScalarSummary>)
    ensures
        r == state,
{
    state
}

/// The summary that a finished paired aggregate reports: its state.
pub fn stats2d_final(state: Option<PairSummary>) -> (r: Option<PairSummary>)
    ensures
        r == state,
{
    state
}

/// The mean of a scalar summary.
pub fn stats1d_average(summary: ScalarSummary) -> (r: Option<Binary64>)
    ensures
        r == summary.average(),
{
    summary.average()
}

/// The sum of a scalar summary.
pub fn stats1d_sum(summary: ScalarSummary) -> (r: Option<Binary64>)
    ensures
        r == summary.sum(),
{
    summary.sum()
}

/// The standard deviation of a scalar summary by the method that the text
/// names.
pub fn stats1d_stddev(summary: Option<ScalarSummary>, method: &str) -> (r: Result<
    Option<Binary64>,
    StatsError,
>)
    ensures
        method_of(method@) is None ==> r == Err::<Option<Binary64>, StatsError>(
            StatsError::InvalidMethod,
        ),
        method_of(method@) matches Some(m) ==> r == Ok::<Option<Binary64>, StatsError>(
            (match summary {
                Some(s) => s.stddev(m),
                None => None,
            }),
        ),
{
    match method_kind(method) {
        Err(e) => Err(e),
        Ok(m) => match summary {
            Some(s) => Ok(s.stddev(m)),
            None => Ok(None),
        },
    }
}

/// The variance of a scalar summary by the method that the text names.
pub fn stats1d_variance(summary: Option<ScalarSummary>, method: &str) -> (r: Result<
    Option<Binary64>,
    StatsError,
>)
    ensures
        method_of(method@) is None ==> r == Err::<Option<Binary64>, StatsError>(
            StatsError::InvalidMethod,
        ),
        method_of(method@) matches Some(m) ==> r == Ok::<Option<Binary64>, StatsError>(
            (match summary {
                Some(s) => s.variance(m),
                None => None,
            }),
        ),
{
    match method_kind(method) {
        Err(e) => Err(e),
        Ok(m) => match summary {
            Some(s) => Ok(s.variance(m)),
            None => Ok(None),
        },
    }
}

/// The skewness of a scalar summary.
pub fn stats1d_skewness(summary: ScalarSummary) -> (r: Option<Binary64>)
    ensures
        r == summary.skewness(),
{
    summary.skewness()
}

/// The kurtosis of a scalar summary.
pub fn stats1d_kurtosis(summary: ScalarSummary) -> (r: Option<Binary64>)
    ensures
        r == summary.kurtosis(),
{
    summary.kurtosis()
}

/// The count of a scalar summary as a signed number, a count above the
/// range of the signed type wrapping round.
pub fn stats1d_num_vals(summary: ScalarSummary) -> (r: i64)
    ensures
        r == (if summary.n <= i64::MAX {
            summary.n as int
        } else {
            summary.n - 0x1_0000_0000_0000_0000
        }),
{
    signed_count(summary.count())
}

/// The signed number with the pattern of a count.
fn signed_count(n: u64) -> (r: i64)
    ensures
        r == (if n <= i64::MAX {
            n as int
        } else {
            n - 0x1_0000_0000_0000_0000
        }),
{
    if n <= 0x7FFF_FFFF_FFFF_FFFF {
        n as i64
    } else {
        ((n - 0x8000_0000_0000_0000) as i64) + i64::MIN
    }
}

/// The mean of `x` in a paired summary.
pub fn stats2d_average_x(summary: PairSummary) -> (r: Option<Binary64>)
    ensures
        r == summary.x_summary().average(),
{
    summary.average_x()
}

/// The mean of `y` in a paired summary.
pub fn stats2d_average_y(summary: PairSummary) -> (r: Option<Binary64>)
    ensures
        r == summary.y_summary().average(),
{
    summary.average_y()
}

/// The sum of `x` in a paired summary.
pub fn stats2d_sum_x(summary: PairSummary) -> (r: Option<Binary64>)
    ensures
        r == summary.x_summary().sum(),
{
    summary.sum_x()
}

/// The sum of `y` in a paired summary.
pub fn stats2d_sum_y(summary: PairSummary) -> (r: Option<Binary64>)
    ensures
        r == summary.y_summary().sum(),
{
    summary.sum_y()
}

/// The standard deviation of `x` by the method that the text names.
pub fn stats2d_stddev_x(summary: Option<PairSummary>, method: &str) -> (r: Result<
    Option<Binary64>,
    StatsError,
>)
    ensures
        method_of(method@) is None ==> r == Err::<Option<Binary64>, StatsError>(
            StatsError::InvalidMethod,
        ),
        method_of(method@) matches Some(m) ==> r == Ok::<Option<Binary64>, StatsError>(
            (match summary {
                Some(s) => s.x_summary().stddev(m),
                None => None,
            }),
        ),
{
    match method_kind(method) {
        Err(e) => Err(e),
        Ok(m) => match summary {
            Some(s) => Ok(s.stddev_x(m)),
            None => Ok(None),
        },
    }
}

/// The standard deviation of `y` by the method that the text names.
pub fn stats2d_stddev_y(summary: Option<PairSummary>, method: &str) -> (r: Result<
    Option<Binary64>,
    StatsError,
>)
    ensures
        method_of(method@) is None ==> r == Err::<Option<Binary64>, StatsError>(
            StatsError::InvalidMethod,
        ),
        method_of(method@) matches Some(m) ==> r == Ok::<Option<Binary64>, StatsError>(
            (match summary {
                Some(s) => s.y_summary().stddev(m),
                None => None,
            }),
        ),
{
    match method_kind(method) {
        Err(e) => Err(e),
        Ok(m) => match summary {
            Some(s) => Ok(s.stddev_y(m)),
            None => Ok(None),
        },
    }
}

/// The variance of `x` by the method that the text names.
pub fn stats2d_variance_x(summary: Option<PairSummary>, method: &str) -> (r: Result<
    Option<Binary64>,
    StatsError,
>)
    ensures
        method_of(method@) is None ==> r == Err::<Option<Binary64>, StatsError>(
            StatsError::InvalidMethod,
        ),
        method_of(method@) matches Some(m) ==> r == Ok::<Option<Binary64>, StatsError>(
            (match summary {
                Some(s) => s.x_summary().variance(m),
                None => None,
            }),
        ),
{
    match method_kind(method) {
        Err(e) => Err(e),
        Ok(m) => match summary {
            Some(s) => Ok(s.variance_x(m)),
            None => Ok(None),
        },
    }
}

/// The variance of `y` by the method that the text names.
pub fn stats2d_variance_y(summary: Option<PairSummary>, method: &str) -> (r: Result<
    Option<Binary64>,
    StatsError,
>)
    ensures
        method_of(method@) is None ==> r == Err::<Option<Binary64>, StatsError>(
            StatsError::InvalidMethod,
        ),
        method_of(method@) matches Some(m) ==> r == Ok::<Option<Binary64>, StatsError>(
            (match summary {
                Some(s) => s.y_summary().variance(m),
                None => None,
            }),
        ),
{
    match method_kind(method) {
        Err(e) => Err(e),
        Ok(m) => match summary {
            Some(s) => Ok(s.variance_y(m)),
            None => Ok(None),
        },
    }
}

/// The skewness of `x` in a paired summary.
pub fn stats2d_skewness_x(summary: PairSummary) -> (r: Option<Binary64>)
    ensures
        r == summary.x_summary().skewness(),
{
    summary.skewness_x()
}

/// The skewness of `y` in a paired summary.
pub fn stats2d_skewness_y(summary: PairSummary) -> (r: Option<Binary64>)
    ensures
        r == summary.y_summary().skewness(),
{
    summary.skewness_y()
}

/// The kurtosis of `x` in a paired summary.
pub fn stats2d_kurtosis_x(summary: PairSummary) -> (r: Option<Binary64>)
    ensures
        r == summary.x_summary().kurtosis(),
{
    summary.kurtosis_x()
}

/// The kurtosis of `y` in a paired summary.
pub fn stats2d_kurtosis_y(summary: PairSummary) -> (r: Option<Binary64>)
    ensures
        r == summary.y_summary().kurtosis(),
{
    summary.kurtosis_y()
}

/// The count of a paired summary as a signed number, a count above the
/// range of the signed type wrapping round.
pub fn stats2d_num_vals(summary: PairSummary) -> (r: i64)
    ensures
        r == (if summary.n <= i64::MAX {
            summary.n as int
        } else {
            summary.n - 0x1_0000_0000_0000_0000
        }),
{
    signed_count(summary.count())
}

/// The slope of the least-squares line of a paired summary.
pub fn stats2d_slope(summary: PairSummary) -> (r: Option<Binary64>)
    ensures
        r == summary.slope(),
{
    summary.slope()
}

/// The correlation coefficient of a paired summary.
pub fn stats2d_corr(summary: PairSummary) -> (r: Option<Binary64>)
    ensures
        r == summary.correlation(),
{
    summary.correlation()
}

/// The intercept of the least-squares line of a paired summary.
pub fn stats2d_intercept(summary: PairSummary) -> (r: Option<Binary64>)
    ensures
        r == summary.intercept(),
{
    summary.intercept()
}

/// The intercept of the least-squares line with the `x` axis.
pub fn stats2d_x_intercept(summary: PairSummary) -> (r: Option<Binary64>)
    ensures
        r == summary.x_intercept(),
{
    summary.x_intercept()
}

/// The coefficient of determination of a paired summary.
pub fn stats2d_determination_coeff(summary: PairSummary) -> (r: Option<Binary64>)
    ensures
        r == summary.determination_coefficient(),
{
    summary.determination_coefficient()
}

/// The covariance of a paired summary by the method that the text names.
pub fn stats2d_covar(summary: Option<PairSummary>, method: &str) -> (r: Result<
    Option<Binary64>,
    StatsError,
>)
    ensures
        method_of(method@) is None ==> r == Err::<Option<Binary64>, StatsError>(
            StatsError::InvalidMethod,
        ),
        method_of(method@) matches Some(m) ==> r == Ok::<Option<Binary64>, StatsError>(
            (match summary {
                Some(s) => s.covariance(m),
                None => None,
            }),
        ),
{
    match method_kind(method) {
        Err(e) => Err(e),
        Ok(m) => match summary {
            Some(s) => Ok(s.covariance(m)),
            None => Ok(None),
        },
    }
}

} // verus!
