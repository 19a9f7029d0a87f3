use hash_graph::number::Number;

fn number(value: f64) -> Number {
    Number::from_bits(value.to_bits())
}

#[test]
fn bits_are_kept() {
    assert_eq!(number(1.5).to_bits(), 1.5f64.to_bits());
    assert_eq!(Number::from_bits(0x3ff0_0000_0000_0000).to_bits(), 1.0f64.to_bits());
}

#[test]
fn rounds_to_nearest() {
    assert_eq!(number(0.0).round(), 0);
    assert_eq!(number(1.0).round(), 1);
    assert_eq!(number(0.4).round(), 0);
    assert_eq!(number(0.6).round(), 1);
    assert_eq!(number(41.49).round(), 41);
    assert_eq!(number(1234567.0).round(), 1234567);
    assert_eq!(number(-7.2).round(), -7);
    assert_eq!(number(-7.8).round(), -8);
}

#[test]
fn halves_go_away_from_zero() {
    assert_eq!(number(0.5).round(), 1);
    assert_eq!(number(1.5).round(), 2);
    assert_eq!(number(2.5).round(), 3);
    assert_eq!(number(-0.5).round(), -1);
    assert_eq!(number(-2.5).round(), -3);
    assert_eq!(number(0.49999999999999994).round(), 0);
}

#[test]
fn small_magnitudes_round_to_zero() {
    assert_eq!(number(-0.0).round(), 0);
    assert_eq!(number(-0.25).round(), 0);
    assert_eq!(number(f64::MIN_POSITIVE).round(), 0);
    assert_eq!(Number::from_bits(1).round(), 0);
}

#[test]
fn large_magnitudes_saturate() {
    assert_eq!(number(9007199254740992.0).round(), 9007199254740992);
    assert_eq!(number(4611686018427387904.0).round(), 4611686018427387904);
    assert_eq!(number(9223372036854775808.0).round(), i64::MAX);
    assert_eq!(number(-9223372036854775808.0).round(), i64::MIN);
    assert_eq!(number(1e300).round(), i64::MAX);
    assert_eq!(number(-1e300).round(), i64::MIN);
    assert_eq!(number(f64::INFINITY).round(), i64::MAX);
    assert_eq!(number(f64::NEG_INFINITY).round(), i64::MIN);
    assert_eq!(number(f64::NAN).round(), 0);
}

#[test]
fn rounding_agrees_with_the_platform() {
    let samples = [
        0.1, 0.75, 3.0, 3.5, 4.5, 1e9, 1.5e9, 123456789.5, 1e15 + 0.5, 2e18, 255.0, 256.5, 1e-300,
        65535.99, 0.3333333333,
    ];
    for sample in samples {
        assert_eq!(number(sample).round(), sample.round() as i64);
        assert_eq!(number(-sample).round(), (-sample).round() as i64);
    }
}

#[test]
fn small_integers_are_read_exactly() {
    assert_eq!(number(0.0).to_u8(), Some(0));
    assert_eq!(number(-0.0).to_u8(), Some(0));
    assert_eq!(number(1.0).to_u8(), Some(1));
    assert_eq!(number(2.0).to_u8(), Some(2));
    assert_eq!(number(255.0).to_u8(), Some(255));
    assert_eq!(number(256.0).to_u8(), None);
    assert_eq!(number(1.5).to_u8(), None);
    assert_eq!(number(0.1).to_u8(), None);
    assert_eq!(number(-1.0).to_u8(), None);
    assert_eq!(number(1e300).to_u8(), None);
    assert_eq!(number(f64::NAN).to_u8(), None);
    assert_eq!(number(f64::INFINITY).to_u8(), None);
    assert_eq!(Number::from_bits(1).to_u8(), None);
}

#[test]
fn integers_are_read_exactly() {
    assert_eq!(number(0.0).to_integer(), Some(0));
    assert_eq!(number(-0.0).to_integer(), Some(0));
    assert_eq!(number(1.0).to_integer(), Some(1));
    assert_eq!(number(-1.0).to_integer(), Some(-1));
    assert_eq!(number(1e15).to_integer(), Some(1_000_000_000_000_000));
    assert_eq!(number(9007199254740992.0).to_integer(), Some(9007199254740992));
    assert_eq!(number(4611686018427387904.0).to_integer(), Some(4611686018427387904));
    assert_eq!(number(-4611686018427387904.0).to_integer(), Some(-4611686018427387904));
    assert_eq!(number(-9223372036854775808.0).to_integer(), Some(i64::MIN));
    assert_eq!(number(9223372036854775808.0).to_integer(), None);
    assert_eq!(number(-9223372036854777856.0).to_integer(), None);
    assert_eq!(number(1e300).to_integer(), None);
    assert_eq!(number(0.5).to_integer(), None);
    assert_eq!(number(-2.25).to_integer(), None);
    assert_eq!(number(4503599627370495.5).to_integer(), None);
    assert_eq!(number(f64::NAN).to_integer(), None);
    assert_eq!(number(f64::NEG_INFINITY).to_integer(), None);
    assert_eq!(Number::from_bits(1).to_integer(), None);
}
