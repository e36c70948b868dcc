//! Scalar summaries: exact scenarios, boundaries of the readers, and the
//! transitions against each other.

use stats_summary::binary64::Binary64;
use stats_summary::error::StatsError;
use stats_summary::method::Method;
use stats_summary::scalar::ScalarSummary;

fn b(x: f64) -> Binary64 {
    Binary64::from_bits(x.to_bits())
}

fn f(x: Binary64) -> f64 {
    f64::from_bits(x.to_bits())
}

fn close(got: f64, want: f64, tolerance: f64) -> bool {
    if want == 0.0 {
        got.abs() <= tolerance
    } else {
        ((got - want) / want).abs() <= tolerance
    }
}

fn summary_of(values: &[f64]) -> ScalarSummary {
    let mut s: ScalarSummary = ScalarSummary::new();
    for v in values {
        s = s.accumulate(b(*v));
    }
    s
}

fn sample_values(count: usize, seed: u64) -> Vec<f64> {
    let mut state: u64 = seed;
    let mut values: Vec<f64> = Vec::new();
    for _ in 0..count {
        state ^= state << 13;
        state ^= state >> 7;
        state ^= state << 17;
        let unit: f64 = ((state >> 11) as f64) / ((1u64 << 53) as f64);
        values.push((unit - 0.3) * 1000.0 + unit * unit * 50.0);
    }
    values
}

fn assert_same(a: &ScalarSummary, b: &ScalarSummary, tolerance: f64) {
    assert_eq!(a.n, b.n);
    let pairs: [(Binary64, Binary64); 4] =
        [(a.sum, b.sum), (a.m2, b.m2), (a.m3, b.m3), (a.m4, b.m4)];
    for (i, (x, y)) in pairs.iter().enumerate() {
        assert!(close(f(*x), f(*y), tolerance), "field {}: {} vs {}", i, f(*x), f(*y));
    }
}

#[test]
fn new_summary_is_empty() {
    let s: ScalarSummary = ScalarSummary::new();
    assert_eq!(s.n, 0);
    assert_eq!(s.count(), 0);
    for v in [s.sum, s.m2, s.m3, s.m4] {
        assert_eq!(v.to_bits(), 0);
    }
}

#[test]
fn empty_summary_has_no_statistics() {
    let s: ScalarSummary = ScalarSummary::new();
    assert_eq!(s.sum(), None);
    assert_eq!(s.average(), None);
    assert_eq!(s.variance_population(), None);
    assert_eq!(s.variance_sample(), None);
    assert_eq!(s.stddev_population(), None);
    assert_eq!(s.stddev_sample(), None);
    assert_eq!(s.variance(Method::Population), None);
    assert_eq!(s.variance(Method::Sample), None);
    assert_eq!(s.stddev(Method::Population), None);
    assert_eq!(s.stddev(Method::Sample), None);
    assert_eq!(s.skewness(), None);
    assert_eq!(s.kurtosis(), None);
}

#[test]
fn one_observation_has_population_statistics_only() {
    let s: ScalarSummary = summary_of(&[42.0]);
    assert_eq!(s.count(), 1);
    assert_eq!(f(s.sum().unwrap()), 42.0);
    assert_eq!(f(s.average().unwrap()), 42.0);
    assert_eq!(f(s.variance_population().unwrap()), 0.0);
    assert_eq!(f(s.stddev_population().unwrap()), 0.0);
    assert_eq!(s.variance_sample(), None);
    assert_eq!(s.stddev_sample(), None);
    assert!(f(s.skewness().unwrap()).is_nan());
    assert!(f(s.kurtosis().unwrap()).is_nan());
}

#[test]
fn two_observations_have_sample_statistics() {
    let s: ScalarSummary = summary_of(&[10.0, 20.0]);
    assert_eq!(f(s.sum), 30.0);
    assert_eq!(f(s.m2), 50.0);
    assert_eq!(f(s.m3), 0.0);
    assert_eq!(f(s.m4), 1250.0);
    assert_eq!(f(s.average().unwrap()), 15.0);
    assert_eq!(f(s.variance_population().unwrap()), 25.0);
    assert_eq!(f(s.variance_sample().unwrap()), 50.0);
    assert_eq!(f(s.stddev_population().unwrap()), 5.0);
    assert_eq!(f(s.stddev_sample().unwrap()), 50.0f64.sqrt());
    assert_eq!(f(s.variance(Method::Sample).unwrap()), 50.0);
    assert_eq!(f(s.stddev(Method::Population).unwrap()), 5.0);
    assert_eq!(f(s.skewness().unwrap()), 0.0);
    assert_eq!(f(s.kurtosis().unwrap()), 1.0);
}

#[test]
fn skewed_observations_have_exact_moments() {
    // mean 2, deviations -1, -1, 2
    let s: ScalarSummary = summary_of(&[1.0, 1.0, 4.0]);
    assert_eq!(f(s.sum), 6.0);
    assert_eq!(f(s.m2), 6.0);
    assert_eq!(f(s.m3), 6.0);
    assert_eq!(f(s.m4), 18.0);
    assert_eq!(f(s.variance_population().unwrap()), 2.0);
    assert_eq!(f(s.skewness().unwrap()), 2.0 / (2.0 * 2.0f64.sqrt()));
    assert_eq!(f(s.kurtosis().unwrap()), 1.5);
}

#[test]
fn scalar_statistics_agree_with_a_two_pass_computation() {
    let values: Vec<f64> = sample_values(1000, 0x9E37_79B9_7F4A_7C15);
    let s: ScalarSummary = summary_of(&values);
    let n: f64 = values.len() as f64;
    let mean: f64 = values.iter().sum::<f64>() / n;
    let m2: f64 = values.iter().map(|v| (v - mean).powi(2)).sum();
    let m3: f64 = values.iter().map(|v| (v - mean).powi(3)).sum();
    let m4: f64 = values.iter().map(|v| (v - mean).powi(4)).sum();
    assert_eq!(s.count(), 1000);
    assert!(close(f(s.average().unwrap()), mean, 1e-13));
    assert!(close(f(s.variance_sample().unwrap()), m2 / (n - 1.0), 1e-12));
    assert!(close(f(s.variance_population().unwrap()), m2 / n, 1e-12));
    assert!(close(f(s.stddev_sample().unwrap()), (m2 / (n - 1.0)).sqrt(), 1e-12));
    assert!(close(f(s.skewness().unwrap()), m3 / n / (m2 / n).powf(1.5), 1e-9));
    assert!(close(f(s.kurtosis().unwrap()), m4 / n / (m2 / n).powi(2), 1e-9));
}

#[test]
fn sum_is_the_running_machine_sum() {
    let values: Vec<f64> = sample_values(300, 77);
    let s: ScalarSummary = summary_of(&values);
    let mut total: f64 = 0.0;
    for v in &values {
        total += v;
    }
    assert_eq!(f(s.sum), total);
    assert_eq!(f(s.average().unwrap()), total / 300.0);
}

#[test]
fn scalar_combining_parts_in_any_grouping_matches_one_pass() {
    let values: Vec<f64> = sample_values(600, 0xDEAD_BEEF_1234_5678);
    let whole: ScalarSummary = summary_of(&values);
    let a: ScalarSummary = summary_of(&values[..100]);
    let c: ScalarSummary = summary_of(&values[100..350]);
    let d: ScalarSummary = summary_of(&values[350..351]);
    let e: ScalarSummary = summary_of(&values[351..]);
    assert_same(&a.combine(c).combine(d).combine(e), &whole, 1e-9);
    assert_same(&a.combine(c.combine(d.combine(e))), &whole, 1e-9);
    assert_same(&e.combine(d).combine(c).combine(a), &whole, 1e-9);
    assert_same(&a.combine(c), &c.combine(a), 1e-12);
    let left: ScalarSummary = a.combine(c).combine(e);
    let right: ScalarSummary = a.combine(c.combine(e));
    for (x, y) in [
        (left.average(), right.average()),
        (left.variance_sample(), right.variance_sample()),
        (left.skewness(), right.skewness()),
        (left.kurtosis(), right.kurtosis()),
    ] {
        assert!(close(f(x.unwrap()), f(y.unwrap()), 1e-9));
    }
}

#[test]
fn scalar_combine_with_empty_is_identity() {
    let s: ScalarSummary = summary_of(&sample_values(9, 5));
    assert_eq!(ScalarSummary::new().combine(s), s);
    assert_eq!(s.combine(ScalarSummary::new()), s);
    assert_eq!(ScalarSummary::new().combine(ScalarSummary::new()), ScalarSummary::new());
}

#[test]
fn combine_of_two_singletons_is_exact() {
    let s: ScalarSummary = summary_of(&[10.0]).combine(summary_of(&[20.0]));
    assert_eq!(s.n, 2);
    assert_eq!(f(s.sum), 30.0);
    assert_eq!(f(s.m2), 50.0);
    assert_eq!(f(s.m3), 0.0);
    assert_eq!(f(s.m4), 1250.0);
}

#[test]
fn combine_of_unequal_parts_is_exact() {
    // {1, 1} and {4}: the whole has mean 2 and moments 6, 6, 18.
    let s: ScalarSummary = summary_of(&[1.0, 1.0]).combine(summary_of(&[4.0]));
    assert_eq!(s.n, 3);
    assert_eq!(f(s.sum), 6.0);
    assert_eq!(f(s.m2), 6.0);
    assert_eq!(f(s.m3), 6.0);
    assert_eq!(f(s.m4), 18.0);
}

#[test]
fn scalar_remove_undoes_accumulate() {
    let values: Vec<f64> = sample_values(250, 31337);
    let s: ScalarSummary = summary_of(&values);
    let back: ScalarSummary = s.accumulate(b(17.75)).remove(b(17.75)).unwrap().unwrap();
    assert_same(&back, &s, 1e-9);
    let later: ScalarSummary =
        s.accumulate(b(17.75)).accumulate(b(-4.0)).remove(b(17.75)).unwrap().unwrap();
    assert_same(&later, &s.accumulate(b(-4.0)), 1e-9);
}

#[test]
fn remove_is_exact_on_small_integers() {
    let s: ScalarSummary = summary_of(&[1.0, 1.0, 4.0]);
    let back: ScalarSummary = s.remove(b(4.0)).unwrap().unwrap();
    assert_eq!(back.n, 2);
    assert_eq!(f(back.sum), 2.0);
    assert_eq!(f(back.m2), 0.0);
    assert_eq!(f(back.m3), 0.0);
    assert_eq!(f(back.m4), 0.0);
}

#[test]
fn sliding_window_follows_its_frame() {
    let values: Vec<f64> = sample_values(200, 4242);
    let mut s: ScalarSummary = summary_of(&values[..20]);
    for i in 20..200 {
        s = s.accumulate(b(values[i]));
        s = s.remove(b(values[i - 20])).unwrap().unwrap();
        assert_eq!(s.count(), 20);
    }
    assert_same(&s, &summary_of(&values[180..]), 1e-7);
}

#[test]
fn remove_of_the_only_observation_gives_none() {
    assert_eq!(summary_of(&[3.0]).remove(b(3.0)), Ok(None));
    assert_eq!(ScalarSummary::new().accumulate(b(3.0)).remove(b(3.0)), Ok(None));
}

#[test]
fn scalar_remove_from_empty_is_a_protocol_violation() {
    assert_eq!(ScalarSummary::new().remove(b(1.0)), Err(StatsError::ProtocolViolation));
}

#[test]
fn scalar_remove_combined_undoes_combine() {
    let values: Vec<f64> = sample_values(500, 99);
    let a: ScalarSummary = summary_of(&values[..320]);
    let part: ScalarSummary = summary_of(&values[320..]);
    let back: ScalarSummary = a.combine(part).remove_combined(part).unwrap().unwrap();
    assert_same(&back, &a, 1e-8);
}

#[test]
fn remove_combined_is_exact_on_small_integers() {
    let whole: ScalarSummary = summary_of(&[1.0, 1.0, 4.0]);
    let back: ScalarSummary = whole.remove_combined(summary_of(&[4.0])).unwrap().unwrap();
    assert_eq!(back.n, 2);
    assert_eq!(f(back.sum), 2.0);
    assert_eq!(f(back.m2), 0.0);
    assert_eq!(f(back.m3), 0.0);
    assert_eq!(f(back.m4), 0.0);
}

#[test]
fn scalar_remove_combined_boundaries() {
    let a: ScalarSummary = summary_of(&[1.0, 2.0, 3.0]);
    let bigger: ScalarSummary = summary_of(&[1.0, 2.0, 3.0, 4.0]);
    assert_eq!(a.remove_combined(bigger), Err(StatsError::ProtocolViolation));
    assert_eq!(
        ScalarSummary::new().remove_combined(ScalarSummary::new()),
        Err(StatsError::ProtocolViolation)
    );
    assert_eq!(ScalarSummary::new().remove_combined(a), Err(StatsError::ProtocolViolation));
    assert_eq!(a.remove_combined(a), Ok(None));
    assert_eq!(a.remove_combined(ScalarSummary::new()), Ok(Some(a)));
}

#[test]
fn values_that_are_not_finite_are_taken() {
    let s: ScalarSummary = summary_of(&[1.0, f64::NAN]);
    assert_eq!(s.count(), 2);
    assert!(f(s.sum).is_nan());
    assert!(f(s.m2).is_nan());
    assert!(f(s.average().unwrap()).is_nan());
    let t: ScalarSummary = summary_of(&[1.0, 2.0, f64::NEG_INFINITY]);
    assert_eq!(t.count(), 3);
    assert_eq!(f(t.sum), f64::NEG_INFINITY);
    assert!(f(t.m2).is_nan());
    assert!(f(t.m3).is_nan());
    assert!(f(t.m4).is_nan());
}

#[test]
fn error_messages_name_the_fault() {
    assert_eq!(
        StatsError::InvalidMethod.message(),
        "unknown analysis method. Valid methods are 'population' and 'sample'"
    );
    assert!(StatsError::ProtocolViolation.message().contains("inverse"));
}

fn same_number(x: Binary64, y: Binary64) -> bool {
    let (p, q): (f64, f64) = (f(x), f(y));
    (p.is_nan() && q.is_nan()) || p == q
}

#[test]
fn merge_order_does_not_change_the_numbers() {
    let values: Vec<f64> = sample_values(400, 0x5EED_5EED_5EED_5EED);
    let specials: [f64; 6] = [0.0, -0.0, f64::INFINITY, f64::NAN, 1e-310, -7.0];
    for split in [1usize, 2, 3, 57, 200, 399] {
        for extra in specials {
            let mut left: ScalarSummary = summary_of(&values[..split]);
            let right: ScalarSummary = summary_of(&values[split..]);
            if split % 2 == 1 {
                left = left.accumulate(b(extra));
            }
            let forth: ScalarSummary = left.combine(right);
            let back: ScalarSummary = right.combine(left);
            assert_eq!(forth.n, back.n);
            assert!(same_number(forth.sum, back.sum));
            assert!(same_number(forth.m2, back.m2));
            assert!(same_number(forth.m3, back.m3));
            assert!(same_number(forth.m4, back.m4));
            if !f(forth.sum).is_nan() {
                assert_eq!(forth.sum, back.sum);
                assert_eq!(forth.m2, back.m2);
            }
            for (x, y) in [
                (forth.average(), back.average()),
                (forth.variance_sample(), back.variance_sample()),
                (forth.stddev_population(), back.stddev_population()),
                (forth.skewness(), back.skewness()),
                (forth.kurtosis(), back.kurtosis()),
            ] {
                assert!(same_number(x.unwrap(), y.unwrap()));
            }
        }
    }
}

#[test]
fn merge_of_parts_with_equal_means_adds_the_moments() {
    // Equal counts and equal means: every share of the difference is a zero.
    let left: ScalarSummary = summary_of(&[1.0, 3.0]);
    let right: ScalarSummary = summary_of(&[2.0, 2.0]);
    let forth: ScalarSummary = left.combine(right);
    let back: ScalarSummary = right.combine(left);
    assert_eq!(f(forth.m3), 0.0);
    assert_eq!(f(back.m3), 0.0);
    assert_eq!(f(forth.m2), 2.0);
    assert_eq!(forth.m2, back.m2);
    assert_eq!(f(forth.m4), 2.0);
    assert_eq!(f(back.m4), 2.0);
}

#[test]
fn first_observation_has_zero_moments() {
    for v in [0.0, -0.0, 1.0, -2.5, 1e308, -1e-320, f64::MAX, f64::MIN_POSITIVE, 12345.678] {
        let s: ScalarSummary = ScalarSummary::new().accumulate(b(v));
        assert_eq!(s.n, 1);
        assert_eq!(f(s.sum), v);
        assert_eq!(f(s.m2), 0.0);
        assert_eq!(f(s.m3), 0.0);
        assert_eq!(f(s.m4), 0.0);
    }
}

#[test]
fn small_counts_are_exact_integers() {
    for n in 0..2000u64 {
        for k in [0u64, 1, 3, 77, 4096, 1 << 40] {
            let sum: Binary64 = Binary64::from_count(n).plus(Binary64::from_count(k));
            assert_eq!(sum, Binary64::from_count(n + k));
            let product: Binary64 = Binary64::from_count(n).times(Binary64::from_count(k));
            assert_eq!(product, Binary64::from_count(n * k));
            assert_eq!(f(Binary64::from_count(n)), n as f64);
        }
    }
    assert_eq!(Binary64::from_count(1u64 << 53).to_bits(), 9007199254740992.0f64.to_bits());
    assert_eq!(Binary64::from_count((1u64 << 53) + 1).to_bits(), 9007199254740992.0f64.to_bits());
    assert_eq!(Binary64::from_count((1u64 << 53) + 3).to_bits(), 9007199254740996.0f64.to_bits());
}
