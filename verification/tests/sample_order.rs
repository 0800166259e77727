use osci::sample::Sample;

fn sample_of(value: f32) -> Sample {
    Sample::from_bits(value.to_bits())
}

fn landmarks() -> Vec<f32> {
    vec![
        f32::NEG_INFINITY,
        f32::MIN,
        -1.0e10,
        -2.5,
        -1.0,
        -0.75,
        -f32::MIN_POSITIVE,
        -1.0e-45,
        -0.0,
        0.0,
        1.0e-45,
        f32::MIN_POSITIVE,
        0.1,
        0.75,
        1.0,
        1.0000001,
        2.5,
        1.0e10,
        f32::MAX,
        f32::INFINITY,
        f32::NAN,
        -f32::NAN,
        f32::from_bits(0x7f80_0001),
        f32::from_bits(0xffff_ffff),
    ]
}

#[test]
fn less_than_agrees_with_binary32_order() {
    let values = landmarks();
    for &a in &values {
        for &b in &values {
            assert_eq!(sample_of(a).lt(sample_of(b)), a < b, "{:?} < {:?}", a, b);
        }
    }
}

#[test]
fn at_most_agrees_with_binary32_order() {
    let values = landmarks();
    for &a in &values {
        for &b in &values {
            assert_eq!(sample_of(a).le(sample_of(b)), a <= b, "{:?} <= {:?}", a, b);
        }
    }
}

#[test]
fn order_agrees_on_a_sweep_of_bit_patterns() {
    let mut patterns: Vec<u32> = Vec::new();
    let mut bits: u32 = 0;
    loop {
        patterns.push(bits);
        patterns.push(bits | 0x8000_0000);
        match bits.checked_add(0x00f3_5b17) {
            Some(next) if next < 0x8000_0000 => bits = next,
            _ => break,
        }
    }
    for &a in &patterns {
        for &b in &patterns {
            let (x, y) = (f32::from_bits(a), f32::from_bits(b));
            assert_eq!(Sample::from_bits(a).lt(Sample::from_bits(b)), x < y);
            assert_eq!(Sample::from_bits(a).le(Sample::from_bits(b)), x <= y);
        }
    }
}

#[test]
fn not_a_number_agrees_with_binary32() {
    for value in landmarks() {
        assert_eq!(sample_of(value).not_a_number(), value.is_nan(), "{:?}", value);
    }
}

#[test]
fn both_zeros_compare_equal_but_keep_their_bits() {
    let plus = sample_of(0.0);
    let minus = sample_of(-0.0);
    assert!(plus.le(minus) && minus.le(plus));
    assert!(!plus.lt(minus) && !minus.lt(plus));
    assert_ne!(plus, minus);
    assert_eq!(minus.to_bits(), 0x8000_0000);
}

#[test]
fn bits_round_trip() {
    for value in landmarks() {
        assert_eq!(Sample::from_bits(value.to_bits()).to_bits(), value.to_bits());
    }
    assert_eq!(sample_of(1.0).to_bits(), 0x3f80_0000);
    assert_eq!(sample_of(-1.0).to_bits(), 0xbf80_0000);
}

#[test]
fn zero_is_positive_zero() {
    assert_eq!(Sample::zero().to_bits(), 0);
    assert_eq!(f32::from_bits(Sample::zero().to_bits()), 0.0);
}
