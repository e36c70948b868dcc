//! The readers of a summary as the right-hand sides of an arrow operator:
//! `summary -> average()` reads as a call and means the reader `average` of
//! the summary. There is one accessor type for each reader; an accessor of a
//! reader that takes a method carries the text of the method.

use crate::aggregate::{
    stats1d_average, stats1d_kurtosis, stats1d_num_vals, stats1d_skewness, stats1d_stddev,
    stats1d_sum, stats1d_variance, stats2d_average_x, stats2d_average_y, stats2d_corr,
    stats2d_covar, stats2d_determination_coeff, stats2d_intercept, stats2d_kurtosis_x,
    stats2d_kurtosis_y, stats2d_num_vals, stats2d_skewness_x, stats2d_skewness_y, stats2d_slope,
    stats2d_stddev_x, stats2d_stddev_y, stats2d_sum_x, stats2d_sum_y, stats2d_variance_x,
    stats2d_variance_y, stats2d_x_intercept,
};
use crate::binary64::Binary64;
use crate::error::StatsError;
use crate::method::method_of;
use crate::pair::PairSummary;
use crate::scalar::ScalarSummary;
use vstd::prelude::*;

verus! {

/// Asks a summary for the mean.
#[derive(Clone, Copy, Debug)]
pub struct AccessorAverage {}

/// Asks a summary for the sum.
#[derive(Clone, Copy, Debug)]
pub struct AccessorSum {}

/// Asks a summary for the standard deviation, by the method that the text names.
#[derive(Debug)]
pub struct AccessorStdDev {
    pub method: String,
}

/// Asks a summary for the variance, by the method that the text names.
#[derive(Debug)]
pub struct AccessorVariance {
    pub method: String,
}

/// Asks a summary for the skewness.
#[derive(Clone, Copy, Debug)]
pub struct AccessorSkewness {}

/// Asks a summary for the kurtosis.
#[derive(Clone, Copy, Debug)]
pub struct AccessorKurtosis {}

/// Asks a summary for its count.
#[derive(Clone, Copy, Debug)]
pub struct AccessorNumVals {}

/// Asks a summary for the mean of `x`.
#[derive(Clone, Copy, Debug)]
pub struct AccessorAverageX {}

/// Asks a summary for the mean of `y`.
#[derive(Clone, Copy, Debug)]
pub struct AccessorAverageY {}

/// Asks a summary for the sum of `x`.
#[derive(Clone, Copy, Debug)]
pub struct AccessorSumX {}

/// Asks a summary for the sum of `y`.
#[derive(Clone, Copy, Debug)]
pub struct AccessorSumY {}

/// Asks a summary for the standard deviation of `x`, by the method that the text names.
#[derive(Debug)]
pub struct AccessorStdDevX {
    pub method: String,
}

/// Asks a summary for the standard deviation of `y`, by the method that the text names.
#[derive(Debug)]
pub struct AccessorStdDevY {
    pub method: String,
}

/// Asks a summary for the variance of `x`, by the method that the text names.
#[derive(Debug)]
pub struct AccessorVarianceX {
    pub method: String,
}

/// Asks a summary for the variance of `y`, by the method that the text names.
#[derive(Debug)]
pub struct AccessorVarianceY {
    pub method: String,
}

/// Asks a summary for the skewness of `x`.
#[derive(Clone, Copy, Debug)]
pub struct AccessorSkewnessX {}

/// Asks a summary for the skewness of `y`.
#[derive(Clone, Copy, Debug)]
pub struct AccessorSkewnessY {}

/// Asks a summary for the kurtosis of `x`.
#[derive(Clone, Copy, Debug)]
pub struct AccessorKurtosisX {}

/// Asks a summary for the kurtosis of `y`.
#[derive(Clone, Copy, Debug)]
pub struct AccessorKurtosisY {}

/// Asks a summary for the slope of the least-squares line.
#[derive(Clone, Copy, Debug)]
pub struct AccessorSlope {}

/// Asks a summary for the correlation coefficient.
#[derive(Clone, Copy, Debug)]
pub struct AccessorCorr {}

/// Asks a summary for the intercept of the least-squares line.
#[derive(Clone, Copy, Debug)]
pub struct AccessorIntercept {}

/// Asks a summary for the intercept of the least-squares line with the `x` axis.
#[derive(Clone, Copy, Debug)]
pub struct AccessorXIntercept {}

/// Asks a summary for the coefficient of determination.
#[derive(Clone, Copy, Debug)]
pub struct AccessorDeterminationCoeff {}

/// Asks a summary for the covariance, by the method that the text names.
#[derive(Debug)]
pub struct AccessorCovar {
    pub method: String,
}

/// `sketch -> average()`: the mean.
pub fn arrow_stats1d_average(
    sketch: ScalarSummary,
    accessor: AccessorAverage,
) -> (r: Option<Binary64>)
    ensures
        r == sketch.average(),
{
    let _ = accessor;
    stats1d_average(sketch)
}

/// `sketch -> sum()`: the sum.
pub fn arrow_stats1d_sum(sketch: ScalarSummary, accessor: AccessorSum) -> (r: Option<Binary64>)
    ensures
        r == sketch.sum(),
{
    let _ = accessor;
    stats1d_sum(sketch)
}

/// `sketch -> stddev(method)`: the standard deviation.
pub fn arrow_stats1d_stddev(sketch: Option<ScalarSummary>, accessor: &AccessorStdDev) -> (r: Result<
    Option<Binary64>,
    StatsError,
>)
    ensures
        method_of(accessor.method@) is None ==> r == Err::<Option<Binary64>, StatsError>(
            StatsError::InvalidMethod,
        ),
        method_of(accessor.method@) matches Some(m) ==> r == Ok::<Option<Binary64>, StatsError>(
            (match sketch {
                Some(s) => s.stddev(m),
                None => None,
            }),
        ),
{
    stats1d_stddev(sketch, accessor.method.as_str())
}

/// `sketch -> variance(method)`: the variance.
pub fn arrow_stats1d_variance(
    sketch: Option<ScalarSummary>,
    accessor: &AccessorVariance,
) -> (r: Result<
    Option<Binary64>,
    StatsError,
>)
    ensures
        method_of(accessor.method@) is None ==> r == Err::<Option<Binary64>, StatsError>(
            StatsError::InvalidMethod,
        ),
        method_of(accessor.method@) matches Some(m) ==> r == Ok::<Option<Binary64>, StatsError>(
            (match sketch {
                Some(s) => s.variance(m),
                None => None,
            }),
        ),
{
    stats1d_variance(sketch, accessor.method.as_str())
}

/// `sketch -> skewness()`: the skewness.
pub fn arrow_stats1d_skewness(
    sketch: ScalarSummary,
    accessor: AccessorSkewness,
) -> (r: Option<Binary64>)
    ensures
        r == sketch.skewness(),
{
    let _ = accessor;
    stats1d_skewness(sketch)
}

/// `sketch -> kurtosis()`: the kurtosis.
pub fn arrow_stats1d_kurtosis(
    sketch: ScalarSummary,
    accessor: AccessorKurtosis,
) -> (r: Option<Binary64>)
    ensures
        r == sketch.kurtosis(),
{
    let _ = accessor;
    stats1d_kurtosis(sketch)
}

/// `sketch -> num_vals()`: the count, as a signed number.
pub fn arrow_stats1d_num_vals(sketch: ScalarSummary, accessor: AccessorNumVals) -> (r: i64)
    ensures
        r == (if sketch.n <= i64::MAX {
            sketch.n as int
        } else {
            sketch.n - 0x1_0000_0000_0000_0000
        }),
{
    let _ = accessor;
    stats1d_num_vals(sketch)
}

/// `sketch -> average_x()`: the mean of `x`.
pub fn arrow_stats2d_average_x(
    sketch: PairSummary,
    accessor: AccessorAverageX,
) -> (r: Option<Binary64>)
    ensures
        r == sketch.x_summary().average(),
{
    let _ = accessor;
    stats2d_average_x(sketch)
}

/// `sketch -> average_y()`: the mean of `y`.
pub fn arrow_stats2d_average_y(
    sketch: PairSummary,
    accessor: AccessorAverageY,
) -> (r: Option<Binary64>)
    ensures
        r == sketch.y_summary().average(),
{
    let _ = accessor;
    stats2d_average_y(sketch)
}

/// `sketch -> sum_x()`: the sum of `x`.
pub fn arrow_stats2d_sum_x(sketch: PairSummary, accessor: AccessorSumX) -> (r: Option<Binary64>)
    ensures
        r == sketch.x_summary().sum(),
{
    let _ = accessor;
    stats2d_sum_x(sketch)
}

/// `sketch -> sum_y()`: the sum of `y`.
pub fn arrow_stats2d_sum_y(sketch: PairSummary, accessor: AccessorSumY) -> (r: Option<Binary64>)
    ensures
        r == sketch.y_summary().sum(),
{
    let _ = accessor;
    stats2d_sum_y(sketch)
}

/// `sketch -> stddev_x(method)`: the standard deviation of `x`.
pub fn arrow_stats2d_stdddev_x(
    sketch: Option<PairSummary>,
    accessor: &AccessorStdDevX,
) -> (r: Result<
    Option<Binary64>,
    StatsError,
>)
    ensures
        method_of(accessor.method@) is None ==> r == Err::<Option<Binary64>, StatsError>(
            StatsError::InvalidMethod,
        ),
        method_of(accessor.method@) matches Some(m) ==> r == Ok::<Option<Binary64>, StatsError>(
            (match sketch {
                Some(s) => s.x_summary().stddev(m),
                None => None,
            }),
        ),
{
    stats2d_stddev_x(sketch, accessor.method.as_str())
}

/// `sketch -> stddev_y(method)`: the standard deviation of `y`.
pub fn arrow_stats2d_stdddev_y(
    sketch: Option<PairSummary>,
    accessor: &AccessorStdDevY,
) -> (r: Result<
    Option<Binary64>,
    StatsError,
>)
    ensures
        method_of(accessor.method@) is None ==> r == Err::<Option<Binary64>, StatsError>(
            StatsError::InvalidMethod,
        ),
        method_of(accessor.method@) matches Some(m) ==> r == Ok::<Option<Binary64>, StatsError>(
            (match sketch {
                Some(s) => s.y_summary().stddev(m),
                None => None,
            }),
        ),
{
    stats2d_stddev_y(sketch, accessor.method.as_str())
}

/// `sketch -> variance_x(method)`: the variance of `x`.
pub fn arrow_stats2d_variance_x(
    sketch: Option<PairSummary>,
    accessor: &AccessorVarianceX,
) -> (r: Result<
    Option<Binary64>,
    StatsError,
>)
    ensures
        method_of(accessor.method@) is None ==> r == Err::<Option<Binary64>, StatsError>(
            StatsError::InvalidMethod,
        ),
        method_of(accessor.method@) matches Some(m) ==> r == Ok::<Option<Binary64>, StatsError>(
            (match sketch {
                Some(s) => s.x_summary().variance(m),
                None => None,
            }),
        ),
{
    stats2d_variance_x(sketch, accessor.method.as_str())
}

/// `sketch -> variance_y(method)`: the variance of `y`.
pub fn arrow_stats2d_variance_y(
    sketch: Option<PairSummary>,
    accessor: &AccessorVarianceY,
) -> (r: Result<
    Option<Binary64>,
    StatsError,
>)
    ensures
        method_of(accessor.method@) is None ==> r == Err::<Option<Binary64>, StatsError>(
            StatsError::InvalidMethod,
        ),
        method_of(accessor.method@) matches Some(m) ==> r == Ok::<Option<Binary64>, StatsError>(
            (match sketch {
                Some(s) => s.y_summary().variance(m),
                None => None,
            }),
        ),
{
    stats2d_variance_y(sketch, accessor.method.as_str())
}

/// `sketch -> skewness_x()`: the skewness of `x`.
pub fn arrow_stats2d_skewness_x(
    sketch: PairSummary,
    accessor: AccessorSkewnessX,
) -> (r: Option<Binary64>)
    ensures
        r == sketch.x_summary().skewness(),
{
    let _ = accessor;
    stats2d_skewness_x(sketch)
}

/// `sketch -> skewness_y()`: the skewness of `y`.
pub fn arrow_stats2d_skewness_y(
    sketch: PairSummary,
    accessor: AccessorSkewnessY,
) -> (r: Option<Binary64>)
    ensures
        r == sketch.y_summary().skewness(),
{
    let _ = accessor;
    stats2d_skewness_y(sketch)
}

/// `sketch -> kurtosis_x()`: the kurtosis of `x`.
pub fn arrow_stats2d_kurtosis_x(
    sketch: PairSummary,
    accessor: AccessorKurtosisX,
) -> (r: Option<Binary64>)
    ensures
        r == sketch.x_summary().kurtosis(),
{
    let _ = accessor;
    stats2d_kurtosis_x(sketch)
}

/// `sketch -> kurtosis_y()`: the kurtosis of `y`.
pub fn arrow_stats2d_kurtosis_y(
    sketch: PairSummary,
    accessor: AccessorKurtosisY,
) -> (r: Option<Binary64>)
    ensures
        r == sketch.y_summary().kurtosis(),
{
    let _ = accessor;
    stats2d_kurtosis_y(sketch)
}

/// `sketch -> num_vals()`: the count, as a signed number.
pub fn arrow_stats2d_num_vals(sketch: PairSummary, accessor: AccessorNumVals) -> (r: i64)
    ensures
        r == (if sketch.n <= i64::MAX {
            sketch.n as int
        } else {
            sketch.n - 0x1_0000_0000_0000_0000
        }),
{
    let _ = accessor;
    stats2d_num_vals(sketch)
}

/// `sketch -> slope()`: the slope of the least-squares line.
pub fn arrow_stats2d_slope(sketch: PairSummary, accessor: AccessorSlope) -> (r: Option<Binary64>)
    ensures
        r == sketch.slope(),
{
    let _ = accessor;
    stats2d_slope(sketch)
}

/// `sketch -> corr()`: the correlation coefficient.
pub fn arrow_stats2d_corr(sketch: PairSummary, accessor: AccessorCorr) -> (r: Option<Binary64>)
    ensures
        r == sketch.correlation(),
{
    let _ = accessor;
    stats2d_corr(sketch)
}

/// `sketch -> intercept()`: the intercept of the least-squares line.
pub fn arrow_stats2d_intercept(
    sketch: PairSummary,
    accessor: AccessorIntercept,
) -> (r: Option<Binary64>)
    ensures
        r == sketch.intercept(),
{
    let _ = accessor;
    stats2d_intercept(sketch)
}

/// `sketch -> x_intercept()`: the intercept of the least-squares line with the `x` axis.
pub fn arrow_stats2d_x_intercept(
    sketch: PairSummary,
    accessor: AccessorXIntercept,
) -> (r: Option<Binary64>)
    ensures
        r == sketch.x_intercept(),
{
    let _ = accessor;
    stats2d_x_intercept(sketch)
}

/// `sketch -> determination_coeff()`: the coefficient of determination.
pub fn arrow_stats2d_determination_coeff(
    sketch: PairSummary,
    accessor: AccessorDeterminationCoeff,
) -> (r: Option<Binary64>)
    ensures
        r == sketch.determination_coefficient(),
{
    let _ = accessor;
    stats2d_determination_coeff(sketch)
}

/// `sketch -> covariance(method)`: the covariance.
pub fn arrow_stats2d_covar(sketch: Option<PairSummary>, accessor: &AccessorCovar) -> (r: Result<
    Option<Binary64>,
    StatsError,
>)
    ensures
        method_of(accessor.method@) is None ==> r == Err::<Option<Binary64>, StatsError>(
            StatsError::InvalidMethod,
        ),
        method_of(accessor.method@) matches Some(m) ==> r == Ok::<Option<Binary64>, StatsError>(
            (match sketch {
                Some(s) => s.covariance(m),
                None => None,
            }),
        ),
{
    stats2d_covar(sketch, accessor.method.as_str())
}

} // verus!
