//! The readers of a summary through the accessors of the arrow operator.

use stats_summary::accessors::{
    arrow_stats1d_average, arrow_stats1d_kurtosis, arrow_stats1d_num_vals, arrow_stats1d_skewness,
    arrow_stats1d_stddev, arrow_stats1d_sum, arrow_stats1d_variance, arrow_stats2d_average_x,
    arrow_stats2d_average_y, arrow_stats2d_corr, arrow_stats2d_covar,
    arrow_stats2d_determination_coeff, arrow_stats2d_intercept, arrow_stats2d_kurtosis_x,
    arrow_stats2d_kurtosis_y, arrow_stats2d_num_vals, arrow_stats2d_skewness_x,
    arrow_stats2d_skewness_y, arrow_stats2d_slope, arrow_stats2d_stdddev_x,
    arrow_stats2d_stdddev_y, arrow_stats2d_sum_x, arrow_stats2d_sum_y, arrow_stats2d_variance_x,
    arrow_stats2d_variance_y, arrow_stats2d_x_intercept, AccessorAverage, AccessorAverageX,
    AccessorAverageY, AccessorCorr, AccessorCovar, AccessorDeterminationCoeff, AccessorIntercept,
    AccessorKurtosis, AccessorKurtosisX, AccessorKurtosisY, AccessorNumVals, AccessorSkewness,
    AccessorSkewnessX, AccessorSkewnessY, AccessorSlope, AccessorStdDev, AccessorStdDevX,
    AccessorStdDevY, AccessorSum, AccessorSumX, AccessorSumY, AccessorVariance,
    AccessorVarianceX, AccessorVarianceY, AccessorXIntercept,
};
use stats_summary::binary64::Binary64;
use stats_summary::error::StatsError;
use stats_summary::pair::PairSummary;
use stats_summary::scalar::ScalarSummary;

fn b(x: f64) -> Binary64 {
    Binary64::from_bits(x.to_bits())
}

fn f(x: Binary64) -> f64 {
    f64::from_bits(x.to_bits())
}

fn value(r: Result<Option<Binary64>, StatsError>) -> f64 {
    f(r.unwrap().unwrap())
}

fn line() -> PairSummary {
    // y = 2x + 1
    let mut s: PairSummary = PairSummary::new();
    for (x, y) in [(0.0, 1.0), (1.0, 3.0), (2.0, 5.0), (3.0, 7.0)] {
        s = s.accumulate(b(x), b(y));
    }
    s
}

#[test]
fn arrows_read_a_scalar_summary() {
    let s: ScalarSummary = ScalarSummary::new().accumulate(b(10.0)).accumulate(b(20.0));
    assert_eq!(f(arrow_stats1d_average(s, AccessorAverage {}).unwrap()), 15.0);
    assert_eq!(f(arrow_stats1d_sum(s, AccessorSum {}).unwrap()), 30.0);
    assert_eq!(f(arrow_stats1d_skewness(s, AccessorSkewness {}).unwrap()), 0.0);
    assert_eq!(f(arrow_stats1d_kurtosis(s, AccessorKurtosis {}).unwrap()), 1.0);
    assert_eq!(arrow_stats1d_num_vals(s, AccessorNumVals {}), 2);
    assert_eq!(arrow_stats1d_average(ScalarSummary::new(), AccessorAverage {}), None);
}

#[test]
fn arrows_with_a_method_read_a_scalar_summary() {
    let s: ScalarSummary = ScalarSummary::new().accumulate(b(10.0)).accumulate(b(20.0));
    let population = AccessorStdDev { method: "population".to_string() };
    let sample = AccessorStdDev { method: " SAMPLE ".to_string() };
    assert_eq!(value(arrow_stats1d_stddev(Some(s), &population)), 5.0);
    assert_eq!(value(arrow_stats1d_stddev(Some(s), &sample)), 50.0f64.sqrt());
    assert_eq!(arrow_stats1d_stddev(None, &sample), Ok(None));
    let pop = AccessorVariance { method: "pop".to_string() };
    let bogus = AccessorVariance { method: "bogus".to_string() };
    assert_eq!(value(arrow_stats1d_variance(Some(s), &pop)), 25.0);
    assert_eq!(arrow_stats1d_variance(Some(s), &bogus), Err(StatsError::InvalidMethod));
    assert_eq!(arrow_stats1d_variance(None, &bogus), Err(StatsError::InvalidMethod));
}

#[test]
fn arrows_read_a_pair_summary() {
    let p: PairSummary = line();
    assert_eq!(f(arrow_stats2d_average_x(p, AccessorAverageX {}).unwrap()), 1.5);
    assert_eq!(f(arrow_stats2d_average_y(p, AccessorAverageY {}).unwrap()), 4.0);
    assert_eq!(f(arrow_stats2d_sum_x(p, AccessorSumX {}).unwrap()), 6.0);
    assert_eq!(f(arrow_stats2d_sum_y(p, AccessorSumY {}).unwrap()), 16.0);
    assert_eq!(f(arrow_stats2d_skewness_x(p, AccessorSkewnessX {}).unwrap()), 0.0);
    assert_eq!(f(arrow_stats2d_skewness_y(p, AccessorSkewnessY {}).unwrap()), 0.0);
    assert_eq!(f(arrow_stats2d_kurtosis_x(p, AccessorKurtosisX {}).unwrap()), 1.64);
    assert_eq!(f(arrow_stats2d_kurtosis_y(p, AccessorKurtosisY {}).unwrap()), 1.64);
    assert_eq!(arrow_stats2d_num_vals(p, AccessorNumVals {}), 4);
    assert_eq!(f(arrow_stats2d_slope(p, AccessorSlope {}).unwrap()), 2.0);
    assert_eq!(f(arrow_stats2d_corr(p, AccessorCorr {}).unwrap()), 1.0);
    assert_eq!(f(arrow_stats2d_intercept(p, AccessorIntercept {}).unwrap()), 1.0);
    assert_eq!(f(arrow_stats2d_x_intercept(p, AccessorXIntercept {}).unwrap()), -0.5);
    assert_eq!(
        f(arrow_stats2d_determination_coeff(p, AccessorDeterminationCoeff {}).unwrap()),
        1.0
    );
    assert_eq!(arrow_stats2d_slope(PairSummary::new(), AccessorSlope {}), None);
}

#[test]
fn arrows_with_a_method_read_a_pair_summary() {
    let p: PairSummary = line();
    let pop: String = "population".to_string();
    let samp: String = "samp".to_string();
    assert_eq!(
        value(arrow_stats2d_stdddev_x(Some(p), &AccessorStdDevX { method: pop.clone() })),
        1.25f64.sqrt()
    );
    assert_eq!(
        value(arrow_stats2d_stdddev_y(Some(p), &AccessorStdDevY { method: pop.clone() })),
        5.0f64.sqrt()
    );
    assert_eq!(
        value(arrow_stats2d_variance_x(Some(p), &AccessorVarianceX { method: samp.clone() })),
        5.0 / 3.0
    );
    assert_eq!(
        value(arrow_stats2d_variance_y(Some(p), &AccessorVarianceY { method: pop.clone() })),
        5.0
    );
    assert_eq!(value(arrow_stats2d_covar(Some(p), &AccessorCovar { method: pop })), 2.5);
    assert_eq!(value(arrow_stats2d_covar(Some(p), &AccessorCovar { method: samp })), 10.0 / 3.0);
    assert_eq!(
        arrow_stats2d_covar(Some(p), &AccessorCovar { method: "".to_string() }),
        Err(StatsError::InvalidMethod)
    );
    assert_eq!(arrow_stats2d_covar(None, &AccessorCovar { method: "pop".to_string() }), Ok(None));
}
