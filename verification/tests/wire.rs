//! The byte form of the summaries.

use stats_summary::binary64::Binary64;
use stats_summary::pair::PairSummary;
use stats_summary::scalar::ScalarSummary;
use stats_summary::wire::{
    stats1d_trans_deserialize, stats1d_trans_serialize, stats2d_trans_deserialize,
    stats2d_trans_serialize, PAIR_BYTES, SCALAR_BYTES,
};

fn b(x: f64) -> Binary64 {
    Binary64::from_bits(x.to_bits())
}

#[test]
fn scalar_summary_survives_bytes() {
    let mut s: ScalarSummary = ScalarSummary::new();
    for v in [1.5, -2.25, 1e300, 4.0] {
        s = s.accumulate(b(v));
    }
    let bytes: Vec<u8> = stats1d_trans_serialize(s);
    assert_eq!(bytes.len(), SCALAR_BYTES);
    assert_eq!(stats1d_trans_deserialize(&bytes), Some(s));
}

#[test]
fn scalar_layout_is_fields_in_order_least_significant_byte_first() {
    let s: ScalarSummary = ScalarSummary {
        n: 0x0102_0304_0506_0708,
        sum: b(1.0),
        m2: b(2.0),
        m3: b(-0.0),
        m4: Binary64::from_bits(0x7FF8_0000_0000_0001),
    };
    let bytes: Vec<u8> = stats1d_trans_serialize(s);
    let mut expected: Vec<u8> = Vec::new();
    expected.extend_from_slice(&0x0102_0304_0506_0708u64.to_le_bytes());
    expected.extend_from_slice(&1.0f64.to_le_bytes());
    expected.extend_from_slice(&2.0f64.to_le_bytes());
    expected.extend_from_slice(&(-0.0f64).to_le_bytes());
    expected.extend_from_slice(&0x7FF8_0000_0000_0001u64.to_le_bytes());
    assert_eq!(bytes, expected);
    assert_eq!(bytes[0], 0x08);
    assert_eq!(bytes[7], 0x01);
}

#[test]
fn values_that_are_not_finite_survive_bytes() {
    let s: PairSummary = PairSummary {
        n: 7,
        sum_x: b(f64::INFINITY),
        m2x: b(f64::NAN),
        m3x: Binary64::from_bits(0xFFF8_0000_0000_1234),
        m4x: b(f64::NEG_INFINITY),
        sum_y: b(-0.0),
        m2y: b(f64::MIN_POSITIVE),
        m3y: Binary64::from_bits(1),
        m4y: b(f64::MAX),
        c11: b(-1.0),
    };
    let bytes: Vec<u8> = stats2d_trans_serialize(s);
    assert_eq!(bytes.len(), PAIR_BYTES);
    let back: PairSummary = stats2d_trans_deserialize(&bytes).unwrap();
    assert_eq!(back, s);
    assert_eq!(back.m3x.to_bits(), 0xFFF8_0000_0000_1234);
}

#[test]
fn pair_layout_is_fields_in_order() {
    let mut s: PairSummary = PairSummary::new();
    for (x, y) in [(10.0, 10.0), (20.0, 20.0)] {
        s = s.accumulate(b(x), b(y));
    }
    let bytes: Vec<u8> = stats2d_trans_serialize(s);
    let fields: [f64; 9] = [30.0, 50.0, 0.0, 1250.0, 30.0, 50.0, 0.0, 1250.0, 50.0];
    assert_eq!(&bytes[0..8], &2u64.to_le_bytes());
    for (i, v) in fields.iter().enumerate() {
        let word: [u8; 8] = bytes[8 * (i + 1)..8 * (i + 2)].try_into().unwrap();
        assert_eq!(f64::from_le_bytes(word), *v, "field {}", i);
    }
}

#[test]
fn bytes_of_another_length_are_no_summary() {
    assert_eq!(stats1d_trans_deserialize(&[]), None);
    assert_eq!(stats1d_trans_deserialize(&[0u8; 39]), None);
    assert_eq!(stats1d_trans_deserialize(&[0u8; 41]), None);
    assert_eq!(stats1d_trans_deserialize(&[0u8; 80]), None);
    assert_eq!(stats2d_trans_deserialize(&[0u8; 40]), None);
    assert_eq!(stats2d_trans_deserialize(&[0u8; 79]), None);
    assert_eq!(stats1d_trans_deserialize(&[0u8; 40]), Some(ScalarSummary::new()));
    assert_eq!(stats2d_trans_deserialize(&[0u8; 80]), Some(PairSummary::new()));
}

#[test]
fn any_bytes_of_the_right_length_come_back() {
    let mut bytes: Vec<u8> = Vec::new();
    for i in 0..80u32 {
        bytes.push((i.wrapping_mul(37) ^ 0xA5) as u8);
    }
    let p: PairSummary = stats2d_trans_deserialize(&bytes).unwrap();
    assert_eq!(stats2d_trans_serialize(p), bytes);
    let s: ScalarSummary = stats1d_trans_deserialize(&bytes[..40]).unwrap();
    assert_eq!(stats1d_trans_serialize(s), &bytes[..40]);
}
