//! Paired summaries: exact scenarios, the behaviour of values that are not
//! finite, and the derived statistics against a two-pass computation.

use stats_summary::binary64::Binary64;
use stats_summary::error::StatsError;
use stats_summary::method::Method;
use stats_summary::pair::PairSummary;

fn b(x: f64) -> Binary64 {
    Binary64::from_bits(x.to_bits())
}

fn f(x: Binary64) -> f64 {
    f64::from_bits(x.to_bits())
}

fn close(got: f64, want: f64, tolerance: f64) -> bool {
    if want == 0.0 {
        got.abs() <= tolerance
    } else {
        ((got - want) / want).abs() <= tolerance
    }
}

fn summary_of(points: &[(f64, f64)]) -> PairSummary {
    let mut s: PairSummary = PairSummary::new();
    for (x, y) in points {
        s = s.accumulate(b(*x), b(*y));
    }
    s
}

fn sample_points() -> Vec<(f64, f64)> {
    let mut state: u64 = 0x2545_F491_4F6C_DD1D;
    let mut points: Vec<(f64, f64)> = Vec::new();
    for i in 0..500u64 {
        state ^= state << 13;
        state ^= state >> 7;
        state ^= state << 17;
        let noise: f64 = ((state >> 11) as f64) / ((1u64 << 53) as f64) - 0.5;
        let x: f64 = (i as f64) * 0.37 - 40.0 + noise;
        let y: f64 = 2.5 * x - 7.0 + 30.0 * noise * noise * (if state & 1 == 0 { 1.0 } else { -1.0 });
        points.push((x, y));
    }
    points
}

#[test]
fn two_pairs_give_exact_sums() {
    let s: PairSummary = summary_of(&[(10.0, 10.0), (20.0, 20.0)]);
    assert_eq!(s.n, 2);
    assert_eq!(f(s.sum_x), 30.0);
    assert_eq!(f(s.m2x), 50.0);
    assert_eq!(f(s.m3x), 0.0);
    assert_eq!(f(s.m4x), 1250.0);
    assert_eq!(f(s.sum_y), 30.0);
    assert_eq!(f(s.m2y), 50.0);
    assert_eq!(f(s.m3y), 0.0);
    assert_eq!(f(s.m4y), 1250.0);
    assert_eq!(f(s.c11), 50.0);
}

#[test]
fn first_pair_leaves_zero_moments() {
    let s: PairSummary = summary_of(&[(10.0, 10.0)]);
    assert_eq!(s.n, 1);
    assert_eq!(f(s.sum_x), 10.0);
    assert_eq!(f(s.sum_y), 10.0);
    for v in [s.m2x, s.m3x, s.m4x, s.m2y, s.m3y, s.m4y, s.c11] {
        assert_eq!(f(v), 0.0);
    }
}

#[test]
fn nan_poisons_its_own_axis_and_the_cross_moment() {
    let s: PairSummary = summary_of(&[(10.0, 10.0), (20.0, 20.0), (f64::NAN, 30.0)]);
    assert_eq!(s.n, 3);
    assert!(f(s.sum_x).is_nan());
    assert!(f(s.m2x).is_nan());
    assert!(f(s.m3x).is_nan());
    assert!(f(s.m4x).is_nan());
    assert!(f(s.c11).is_nan());
    assert_eq!(f(s.sum_y), 60.0);
    assert_eq!(f(s.m2y), 200.0);
    assert_eq!(f(s.m3y), 0.0);
    assert_eq!(f(s.m4y), 20000.0);
}

#[test]
fn infinity_poisons_the_moments_of_its_axis() {
    let s: PairSummary =
        summary_of(&[(10.0, 10.0), (20.0, 20.0), (f64::NAN, 30.0), (40.0, f64::INFINITY)]);
    assert_eq!(s.n, 4);
    assert!(f(s.sum_x).is_nan());
    assert!(f(s.m2x).is_nan());
    assert!(f(s.m3x).is_nan());
    assert!(f(s.m4x).is_nan());
    assert_eq!(f(s.sum_y), f64::INFINITY);
    assert!(f(s.m2y).is_nan());
    assert!(f(s.m3y).is_nan());
    assert!(f(s.m4y).is_nan());
    assert!(f(s.c11).is_nan());
}

#[test]
fn a_finite_value_keeps_its_axis_exact_beside_an_infinite_one() {
    let s: PairSummary =
        summary_of(&[(10.0, 10.0), (20.0, 20.0), (f64::NAN, 30.0), (f64::INFINITY, 40.0)]);
    assert_eq!(s.n, 4);
    assert!(f(s.sum_x).is_nan());
    assert!(f(s.m2x).is_nan());
    assert!(f(s.c11).is_nan());
    assert_eq!(f(s.sum_y), 100.0);
    assert_eq!(f(s.m2y), 500.0);
    assert_eq!(f(s.m3y), 0.0);
    assert_eq!(f(s.m4y), 102500.0);
}

#[test]
fn infinity_as_first_value_gives_nan_moments() {
    let s: PairSummary = summary_of(&[(f64::INFINITY, 1.0)]);
    assert_eq!(f(s.sum_x), f64::INFINITY);
    assert!(f(s.m2x).is_nan());
    assert!(f(s.c11).is_nan());
    assert_eq!(f(s.sum_y), 1.0);
    assert_eq!(f(s.m2y), 0.0);
}

#[test]
fn empty_pair_summary_has_no_statistics() {
    let s: PairSummary = PairSummary::new();
    assert_eq!(s.count(), 0);
    assert_eq!(s.sum_x(), None);
    assert_eq!(s.sum_y(), None);
    assert_eq!(s.average_x(), None);
    assert_eq!(s.average_y(), None);
    for method in [Method::Population, Method::Sample] {
        assert_eq!(s.variance_x(method), None);
        assert_eq!(s.variance_y(method), None);
        assert_eq!(s.stddev_x(method), None);
        assert_eq!(s.stddev_y(method), None);
        assert_eq!(s.covariance(method), None);
    }
    assert_eq!(s.skewness_x(), None);
    assert_eq!(s.skewness_y(), None);
    assert_eq!(s.kurtosis_x(), None);
    assert_eq!(s.kurtosis_y(), None);
    assert_eq!(s.slope(), None);
    assert_eq!(s.intercept(), None);
    assert_eq!(s.x_intercept(), None);
    assert_eq!(s.correlation(), None);
    assert_eq!(s.determination_coefficient(), None);
    assert_eq!(s.covariance_population(), None);
    assert_eq!(s.covariance_sample(), None);
    for v in [s.sum_x, s.m2x, s.m3x, s.m4x, s.sum_y, s.m2y, s.m3y, s.m4y, s.c11] {
        assert_eq!(v.to_bits(), 0);
    }
}

#[test]
fn one_pair_has_population_statistics_only() {
    let s: PairSummary = summary_of(&[(3.0, 4.0)]);
    assert_eq!(f(s.average_x().unwrap()), 3.0);
    assert_eq!(f(s.average_y().unwrap()), 4.0);
    assert_eq!(f(s.variance_x(Method::Population).unwrap()), 0.0);
    assert_eq!(f(s.stddev_y(Method::Population).unwrap()), 0.0);
    assert_eq!(f(s.covariance_population().unwrap()), 0.0);
    assert_eq!(s.variance_x(Method::Sample), None);
    assert_eq!(s.stddev_y(Method::Sample), None);
    assert_eq!(s.covariance_sample(), None);
    assert_eq!(s.slope(), None);
    assert_eq!(s.intercept(), None);
    assert_eq!(s.x_intercept(), None);
    assert_eq!(s.correlation(), None);
    assert_eq!(s.determination_coefficient(), None);
}

#[test]
fn vertical_line_has_no_slope() {
    let s: PairSummary = summary_of(&[(5.0, 1.0), (5.0, 2.0), (5.0, 4.0)]);
    assert_eq!(f(s.m2x), 0.0);
    assert_eq!(s.slope(), None);
    assert_eq!(s.intercept(), None);
    assert_eq!(s.correlation(), None);
    assert_eq!(s.determination_coefficient(), None);
    assert_eq!(f(s.x_intercept().unwrap()), 5.0);
    assert!(s.covariance_sample().is_some());
}

#[test]
fn horizontal_line_has_slope_zero_and_no_x_intercept() {
    let s: PairSummary = summary_of(&[(1.0, 7.0), (2.0, 7.0), (4.0, 7.0)]);
    assert_eq!(f(s.slope().unwrap()), 0.0);
    assert_eq!(f(s.intercept().unwrap()), 7.0);
    assert_eq!(s.x_intercept(), None);
    assert_eq!(s.correlation(), None);
    assert_eq!(f(s.determination_coefficient().unwrap()), 1.0);
}

#[test]
fn exact_line_is_recovered() {
    // y = 2x + 1
    let s: PairSummary = summary_of(&[(0.0, 1.0), (1.0, 3.0), (2.0, 5.0), (3.0, 7.0)]);
    assert_eq!(f(s.slope().unwrap()), 2.0);
    assert_eq!(f(s.intercept().unwrap()), 1.0);
    assert_eq!(f(s.x_intercept().unwrap()), -0.5);
    assert_eq!(f(s.correlation().unwrap()), 1.0);
    assert_eq!(f(s.determination_coefficient().unwrap()), 1.0);
    assert_eq!(f(s.covariance_population().unwrap()), 2.5);
    assert_eq!(f(s.covariance(Method::Sample).unwrap()), 10.0 / 3.0);
    assert_eq!(f(s.average_x().unwrap()), 1.5);
    assert_eq!(f(s.average_y().unwrap()), 4.0);
    assert_eq!(f(s.sum_x().unwrap()), 6.0);
    assert_eq!(f(s.sum_y().unwrap()), 16.0);
    assert_eq!(f(s.variance_x(Method::Population).unwrap()), 1.25);
    assert_eq!(f(s.variance_y(Method::Population).unwrap()), 5.0);
    assert_eq!(f(s.variance_y(Method::Sample).unwrap()), 20.0 / 3.0);
    assert_eq!(f(s.stddev_x(Method::Population).unwrap()), 1.25f64.sqrt());
    assert_eq!(f(s.skewness_x().unwrap()), 0.0);
    assert_eq!(f(s.skewness_y().unwrap()), 0.0);
    assert_eq!(f(s.kurtosis_x().unwrap()), 1.64);
    assert_eq!(f(s.kurtosis_y().unwrap()), 1.64);
}

#[test]
fn regression_line_passes_through_the_means() {
    let s: PairSummary = summary_of(&sample_points());
    let slope: f64 = f(s.slope().unwrap());
    let intercept: f64 = f(s.intercept().unwrap());
    let mean_x: f64 = f(s.average_x().unwrap());
    let mean_y: f64 = f(s.average_y().unwrap());
    assert_eq!(slope, f(s.c11) / f(s.m2x));
    assert!(close(intercept + slope * mean_x, mean_y, 1e-12));
    let r: f64 = f(s.correlation().unwrap());
    let r2: f64 = f(s.determination_coefficient().unwrap());
    assert!(close(r2, r * r, 1e-14));
    let x0: f64 = f(s.x_intercept().unwrap());
    assert!((intercept + slope * x0).abs() < 1e-9);
}

#[test]
fn pair_statistics_agree_with_a_two_pass_computation() {
    let points: Vec<(f64, f64)> = sample_points();
    let s: PairSummary = summary_of(&points);
    let n: f64 = points.len() as f64;
    let mean_x: f64 = points.iter().map(|p| p.0).sum::<f64>() / n;
    let mean_y: f64 = points.iter().map(|p| p.1).sum::<f64>() / n;
    let m2x: f64 = points.iter().map(|p| (p.0 - mean_x).powi(2)).sum();
    let m2y: f64 = points.iter().map(|p| (p.1 - mean_y).powi(2)).sum();
    let m3y: f64 = points.iter().map(|p| (p.1 - mean_y).powi(3)).sum();
    let m4y: f64 = points.iter().map(|p| (p.1 - mean_y).powi(4)).sum();
    let c11: f64 = points.iter().map(|p| (p.0 - mean_x) * (p.1 - mean_y)).sum();
    assert_eq!(s.count(), 500);
    assert!(close(f(s.average_x().unwrap()), mean_x, 1e-13));
    assert!(close(f(s.average_y().unwrap()), mean_y, 1e-13));
    assert!(close(f(s.m2x), m2x, 1e-12));
    assert!(close(f(s.m2y), m2y, 1e-12));
    assert!(close(f(s.m3y), m3y, 1e-9));
    assert!(close(f(s.m4y), m4y, 1e-10));
    assert!(close(f(s.c11), c11, 1e-12));
    assert!(close(f(s.variance_x(Method::Sample).unwrap()), m2x / (n - 1.0), 1e-12));
    assert!(close(f(s.stddev_y(Method::Population).unwrap()), (m2y / n).sqrt(), 1e-12));
    assert!(close(f(s.covariance_sample().unwrap()), c11 / (n - 1.0), 1e-12));
    assert!(close(f(s.slope().unwrap()), c11 / m2x, 1e-12));
    assert!(close(f(s.correlation().unwrap()), c11 / (m2x * m2y).sqrt(), 1e-12));
    assert!(close(f(s.skewness_y().unwrap()), m3y / n / (m2y / n).powf(1.5), 1e-9));
    assert!(close(f(s.kurtosis_y().unwrap()), m4y / n / (m2y / n).powi(2), 1e-10));
}

fn assert_same(a: &PairSummary, b: &PairSummary, tolerance: f64) {
    assert_eq!(a.n, b.n);
    let pairs: [(Binary64, Binary64); 9] = [
        (a.sum_x, b.sum_x),
        (a.m2x, b.m2x),
        (a.m3x, b.m3x),
        (a.m4x, b.m4x),
        (a.sum_y, b.sum_y),
        (a.m2y, b.m2y),
        (a.m3y, b.m3y),
        (a.m4y, b.m4y),
        (a.c11, b.c11),
    ];
    for (i, (x, y)) in pairs.iter().enumerate() {
        assert!(close(f(*x), f(*y), tolerance), "field {}: {} vs {}", i, f(*x), f(*y));
    }
}

#[test]
fn pair_combining_parts_in_any_grouping_matches_one_pass() {
    let points: Vec<(f64, f64)> = sample_points();
    let whole: PairSummary = summary_of(&points);
    let a: PairSummary = summary_of(&points[..120]);
    let c: PairSummary = summary_of(&points[120..121]);
    let d: PairSummary = summary_of(&points[121..400]);
    let e: PairSummary = summary_of(&points[400..]);
    let left: PairSummary = a.combine(c).combine(d).combine(e);
    let right: PairSummary = a.combine(c.combine(d.combine(e)));
    let shuffled: PairSummary = e.combine(a).combine(d.combine(c));
    assert_same(&left, &whole, 1e-9);
    assert_same(&right, &whole, 1e-9);
    assert_same(&shuffled, &whole, 1e-9);
    assert_same(&a.combine(d), &d.combine(a), 1e-12);
}

#[test]
fn pair_combine_with_empty_is_identity() {
    let s: PairSummary = summary_of(&sample_points()[..17]);
    assert_eq!(PairSummary::new().combine(s), s);
    assert_eq!(s.combine(PairSummary::new()), s);
    assert_eq!(PairSummary::new().combine(PairSummary::new()), PairSummary::new());
}

#[test]
fn pair_remove_undoes_accumulate() {
    let points: Vec<(f64, f64)> = sample_points();
    let s: PairSummary = summary_of(&points[..200]);
    let back: PairSummary =
        s.accumulate(b(12.5), b(-3.25)).remove(b(12.5), b(-3.25)).unwrap().unwrap();
    assert_same(&back, &s, 1e-9);
    // Removal commutes with further accumulation.
    let later: PairSummary = s
        .accumulate(b(12.5), b(-3.25))
        .accumulate(b(1.0), b(2.0))
        .remove(b(12.5), b(-3.25))
        .unwrap()
        .unwrap();
    assert_same(&later, &s.accumulate(b(1.0), b(2.0)), 1e-9);
}

#[test]
fn remove_of_the_only_pair_gives_none() {
    let s: PairSummary = summary_of(&[(1.0, 2.0)]);
    assert_eq!(s.remove(b(1.0), b(2.0)), Ok(None));
}

#[test]
fn pair_remove_from_empty_is_a_protocol_violation() {
    assert_eq!(PairSummary::new().remove(b(1.0), b(2.0)), Err(StatsError::ProtocolViolation));
    assert_eq!(
        PairSummary::new().remove_combined(PairSummary::new()),
        Err(StatsError::ProtocolViolation)
    );
}

#[test]
fn pair_remove_combined_undoes_combine() {
    let points: Vec<(f64, f64)> = sample_points();
    let a: PairSummary = summary_of(&points[..300]);
    let part: PairSummary = summary_of(&points[300..]);
    let back: PairSummary = a.combine(part).remove_combined(part).unwrap().unwrap();
    assert_same(&back, &a, 1e-8);
}

#[test]
fn pair_remove_combined_boundaries() {
    let points: Vec<(f64, f64)> = sample_points();
    let a: PairSummary = summary_of(&points[..10]);
    let bigger: PairSummary = summary_of(&points[..11]);
    assert_eq!(a.remove_combined(bigger), Err(StatsError::ProtocolViolation));
    assert_eq!(a.remove_combined(a), Ok(None));
    assert_eq!(a.remove_combined(PairSummary::new()), Ok(Some(a)));
}

#[test]
fn projections_match_scalar_summaries() {
    let points: Vec<(f64, f64)> = sample_points();
    let s: PairSummary = summary_of(&points[..50]);
    let mut xs = stats_summary::scalar::ScalarSummary::new();
    let mut ys = stats_summary::scalar::ScalarSummary::new();
    for (x, y) in &points[..50] {
        xs = xs.accumulate(b(*x));
        ys = ys.accumulate(b(*y));
    }
    assert_eq!(s.x_summary(), xs);
    assert_eq!(s.y_summary(), ys);
}

fn same_number(x: Binary64, y: Binary64) -> bool {
    let (p, q): (f64, f64) = (f(x), f(y));
    (p.is_nan() && q.is_nan()) || p == q
}

#[test]
fn pair_merge_order_does_not_change_the_numbers() {
    let points: Vec<(f64, f64)> = sample_points();
    for split in [1usize, 2, 250, 499] {
        let left: PairSummary = summary_of(&points[..split]);
        let right: PairSummary = summary_of(&points[split..]);
        let forth: PairSummary = left.combine(right);
        let back: PairSummary = right.combine(left);
        assert_eq!(forth.n, back.n);
        assert_eq!(forth.sum_x, back.sum_x);
        assert_eq!(forth.sum_y, back.sum_y);
        assert_eq!(forth.m2x, back.m2x);
        assert_eq!(forth.m2y, back.m2y);
        for (x, y) in [
            (forth.m3x, back.m3x),
            (forth.m4x, back.m4x),
            (forth.m3y, back.m3y),
            (forth.m4y, back.m4y),
            (forth.c11, back.c11),
        ] {
            assert!(same_number(x, y));
        }
        for (x, y) in [
            (forth.slope(), back.slope()),
            (forth.intercept(), back.intercept()),
            (forth.x_intercept(), back.x_intercept()),
            (forth.correlation(), back.correlation()),
            (forth.determination_coefficient(), back.determination_coefficient()),
            (forth.covariance_sample(), back.covariance_sample()),
        ] {
            assert!(same_number(x.unwrap(), y.unwrap()));
        }
    }
}

#[test]
fn combine_and_remove_combined_are_exact_on_small_integers() {
    // y = 2x + 1 in two halves
    let left: PairSummary = summary_of(&[(0.0, 1.0), (1.0, 3.0)]);
    let right: PairSummary = summary_of(&[(2.0, 5.0), (3.0, 7.0)]);
    let whole: PairSummary = left.combine(right);
    assert_eq!(whole.n, 4);
    assert_eq!(f(whole.sum_x), 6.0);
    assert_eq!(f(whole.sum_y), 16.0);
    assert_eq!(f(whole.m2x), 5.0);
    assert_eq!(f(whole.m2y), 20.0);
    assert_eq!(f(whole.m3x), 0.0);
    assert_eq!(f(whole.m3y), 0.0);
    assert_eq!(f(whole.m4x), 10.25);
    assert_eq!(f(whole.m4y), 164.0);
    assert_eq!(f(whole.c11), 10.0);
    assert_eq!(whole, summary_of(&[(0.0, 1.0), (1.0, 3.0), (2.0, 5.0), (3.0, 7.0)]));
    let back: PairSummary = whole.remove_combined(right).unwrap().unwrap();
    assert_eq!(back.n, 2);
    assert_eq!(f(back.sum_x), 1.0);
    assert_eq!(f(back.sum_y), 4.0);
    assert_eq!(f(back.m2x), 0.5);
    assert_eq!(f(back.m2y), 2.0);
    assert_eq!(f(back.c11), 1.0);
    assert_eq!(f(back.m4x), 0.125);
    assert_eq!(f(back.m4y), 2.0);
}
