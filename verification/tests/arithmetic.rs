//! The integer arithmetic of `Binary64` against the machine's own binary64
//! arithmetic, pattern for pattern.

use stats_summary::binary64::Binary64;

fn next(state: &mut u64) -> u64 {
    let mut x: u64 = *state;
    x ^= x << 13;
    x ^= x >> 7;
    x ^= x << 17;
    *state = x;
    x.wrapping_mul(0x2545_F491_4F6C_DD1D)
}

/// A pattern drawn so that every class of number and every kind of rounding
/// comes up often: any pattern at all, numbers of nearby exponents, numbers
/// with few significant digits, subnormal numbers and the special values.
fn draw(state: &mut u64, anchor: u64) -> u64 {
    let r: u64 = next(state);
    let kind: u64 = next(state) % 8;
    let sign: u64 = r & 0x8000_0000_0000_0000;
    let fraction: u64 = r & 0x000F_FFFF_FFFF_FFFF;
    match kind {
        0 => r,
        1 | 2 => {
            let spread: u64 = next(state) % 120;
            let biased: u64 = (anchor + spread).min(2046);
            sign | (biased << 52) | fraction
        }
        3 => {
            let keep: u64 = next(state) % 52;
            let mask: u64 = !((1u64 << keep) - 1);
            let biased: u64 = (anchor + next(state) % 4).min(2046);
            sign | (biased << 52) | (fraction & mask)
        }
        4 => sign | (fraction >> (next(state) % 52)),
        5 => {
            let specials: [u64; 8] = [
                0,
                0x7FF0_0000_0000_0000,
                0x7FF8_0000_0000_0000,
                0x7FEF_FFFF_FFFF_FFFF,
                1,
                0x0010_0000_0000_0000,
                0x3FF0_0000_0000_0000,
                0x000F_FFFF_FFFF_FFFF,
            ];
            sign | specials[(r % 8) as usize]
        }
        6 => sign | (((r >> 52) & 0x7FF).min(2046) << 52) | fraction,
        _ => {
            let whole: u64 = next(state) % 1000;
            (whole as f64).to_bits() | sign
        }
    }
}

fn agree(ours: Binary64, theirs: f64) -> bool {
    let got: f64 = f64::from_bits(ours.to_bits());
    (got.is_nan() && theirs.is_nan()) || ours.to_bits() == theirs.to_bits()
}

fn anchor_of(state: &mut u64) -> u64 {
    match next(state) % 4 {
        0 => next(state) % 64,
        1 => 960 + next(state) % 128,
        2 => 1900 + next(state) % 100,
        _ => next(state) % 2000,
    }
}

#[test]
fn plus_matches_hardware() {
    let mut state: u64 = 0x9E37_79B9_7F4A_7C15;
    for _ in 0..400_000 {
        let anchor: u64 = anchor_of(&mut state);
        let a: u64 = draw(&mut state, anchor);
        let b: u64 = draw(&mut state, anchor);
        let ours: Binary64 = Binary64::from_bits(a).plus(Binary64::from_bits(b));
        let theirs: f64 = f64::from_bits(a) + f64::from_bits(b);
        assert!(agree(ours, theirs), "{:#x} + {:#x}: {:#x} vs {:#x}", a, b, ours.to_bits(), theirs.to_bits());
    }
}

#[test]
fn minus_matches_hardware() {
    let mut state: u64 = 0xD1B5_4A32_D192_ED03;
    for _ in 0..400_000 {
        let anchor: u64 = anchor_of(&mut state);
        let a: u64 = draw(&mut state, anchor);
        let b: u64 = draw(&mut state, anchor);
        let ours: Binary64 = Binary64::from_bits(a).minus(Binary64::from_bits(b));
        let theirs: f64 = f64::from_bits(a) - f64::from_bits(b);
        assert!(agree(ours, theirs), "{:#x} - {:#x}: {:#x} vs {:#x}", a, b, ours.to_bits(), theirs.to_bits());
    }
}

#[test]
fn times_matches_hardware() {
    let mut state: u64 = 0x2545_F491_4F6C_DD1D;
    for _ in 0..400_000 {
        let anchor: u64 = anchor_of(&mut state);
        let a: u64 = draw(&mut state, anchor);
        let other: u64 = anchor_of(&mut state);
        let b: u64 = draw(&mut state, other);
        let ours: Binary64 = Binary64::from_bits(a).times(Binary64::from_bits(b));
        let theirs: f64 = f64::from_bits(a) * f64::from_bits(b);
        assert!(agree(ours, theirs), "{:#x} * {:#x}: {:#x} vs {:#x}", a, b, ours.to_bits(), theirs.to_bits());
    }
}

#[test]
fn over_matches_hardware() {
    let mut state: u64 = 0x1234_5678_9ABC_DEF1;
    for _ in 0..400_000 {
        let anchor: u64 = anchor_of(&mut state);
        let a: u64 = draw(&mut state, anchor);
        let other: u64 = anchor_of(&mut state);
        let b: u64 = draw(&mut state, other);
        let ours: Binary64 = Binary64::from_bits(a).over(Binary64::from_bits(b));
        let theirs: f64 = f64::from_bits(a) / f64::from_bits(b);
        assert!(agree(ours, theirs), "{:#x} / {:#x}: {:#x} vs {:#x}", a, b, ours.to_bits(), theirs.to_bits());
    }
}

#[test]
fn sqrt_matches_hardware() {
    let mut state: u64 = 0x0F0F_1234_ABCD_9876;
    for _ in 0..400_000 {
        let anchor: u64 = anchor_of(&mut state);
        let a: u64 = draw(&mut state, anchor);
        let ours: Binary64 = Binary64::from_bits(a).sqrt();
        let theirs: f64 = f64::from_bits(a).sqrt();
        assert!(agree(ours, theirs), "sqrt {:#x}: {:#x} vs {:#x}", a, ours.to_bits(), theirs.to_bits());
    }
}

#[test]
fn from_count_matches_hardware() {
    let mut state: u64 = 0xABCD_EF01_2345_6789;
    for i in 0..200_000u64 {
        let wide: u64 = next(&mut state) >> (next(&mut state) % 64);
        for n in [i, wide, u64::MAX - i, (1u64 << 53) + i, (1u64 << 62) - i] {
            let ours: Binary64 = Binary64::from_count(n);
            assert_eq!(ours.to_bits(), (n as f64).to_bits(), "count {}", n);
        }
    }
}

#[test]
fn sums_of_halfway_cases_round_to_even() {
    // 2^53 + 1 is half-way between 2^53 and 2^53 + 2.
    let big: f64 = 9007199254740992.0;
    let one: f64 = 1.0;
    let r: Binary64 = Binary64::from_bits(big.to_bits()).plus(Binary64::from_bits(one.to_bits()));
    assert_eq!(f64::from_bits(r.to_bits()), 9007199254740992.0);
    let three: f64 = 3.0;
    let r: Binary64 = Binary64::from_bits(big.to_bits()).plus(Binary64::from_bits(three.to_bits()));
    assert_eq!(f64::from_bits(r.to_bits()), 9007199254740996.0);
}

#[test]
fn operations_without_a_value_give_nan() {
    let inf: Binary64 = Binary64::from_bits(f64::INFINITY.to_bits());
    let minus_inf: Binary64 = Binary64::from_bits(f64::NEG_INFINITY.to_bits());
    let zero: Binary64 = Binary64::zero();
    assert!(inf.plus(minus_inf).is_nan());
    assert!(inf.minus(inf).is_nan());
    assert!(zero.times(inf).is_nan());
    assert!(zero.over(zero).is_nan());
    assert!(inf.over(inf).is_nan());
    assert!(minus_inf.sqrt().is_nan());
    assert_eq!(inf.plus(minus_inf).to_bits(), 0x7FF8_0000_0000_0000);
}

#[test]
fn signs_of_zero_follow_the_standard() {
    let pz: Binary64 = Binary64::zero();
    let nz: Binary64 = Binary64::zero().negated();
    assert_eq!(nz.to_bits(), 0x8000_0000_0000_0000);
    assert_eq!(pz.plus(nz).to_bits(), 0);
    assert_eq!(nz.plus(nz).to_bits(), 0x8000_0000_0000_0000);
    assert_eq!(nz.sqrt().to_bits(), 0x8000_0000_0000_0000);
    let five: Binary64 = Binary64::from_count(5);
    assert_eq!(five.minus(five).to_bits(), 0);
    assert_eq!(five.negated().plus(five).to_bits(), 0);
    assert_eq!(nz.times(five).to_bits(), 0x8000_0000_0000_0000);
    assert_eq!(pz.over(five.negated()).to_bits(), 0x8000_0000_0000_0000);
    assert_eq!(five.over(nz).to_bits(), f64::NEG_INFINITY.to_bits());
}
