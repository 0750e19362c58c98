use bazaar_feed::decimal::FixedPoint;
use bazaar_feed::error::FeedError;

#[test]
fn from_int_keeps_the_count() {
    assert_eq!(FixedPoint::from_int(123).raw(), 123);
    assert_eq!(FixedPoint::from_int(-7).raw(), -7);
    assert_eq!(FixedPoint::from_int(i64::MAX).raw(), i64::MAX);
    assert_eq!(FixedPoint::from_int(i64::MIN).raw(), i64::MIN);
}

#[test]
fn add_is_exact() {
    let a = FixedPoint::from_int(123);
    let b = FixedPoint::from_int(-456);
    assert_eq!(a.add(b).raw(), -333);
    assert_eq!(a.add(b).raw(), a.raw() + b.raw());
    assert_eq!(FixedPoint::from_int(10).add(FixedPoint::from_int(20)).raw(), 30);
}

#[test]
fn sub_is_exact() {
    let a = FixedPoint::from_int(123);
    let b = FixedPoint::from_int(456);
    assert_eq!(a.sub(b).raw(), -333);
    assert_eq!(b.sub(a).raw(), 333);
}

#[test]
fn one_times_one_is_one() {
    let one = FixedPoint::from_int(100);
    assert_eq!(one.mul(one).raw(), 100);
}

#[test]
fn mul_drops_the_remainder_toward_zero() {
    // 1.50 x 0.01 = 0.015, kept as 0.01
    assert_eq!(FixedPoint::from_int(150).mul(FixedPoint::from_int(1)).raw(), 1);
    // -1.50 x 0.01 = -0.015, kept as -0.01 and not as -0.02
    assert_eq!(FixedPoint::from_int(-150).mul(FixedPoint::from_int(1)).raw(), -1);
    assert_eq!(FixedPoint::from_int(-199).mul(FixedPoint::from_int(1)).raw(), -1);
    assert_eq!(FixedPoint::from_int(-99).mul(FixedPoint::from_int(1)).raw(), 0);
    assert_eq!(FixedPoint::from_int(250).mul(FixedPoint::from_int(-250)).raw(), -625);
    assert_eq!(FixedPoint::from_int(-333).mul(FixedPoint::from_int(-333)).raw(), 1108);
}

#[test]
fn div_by_zero_is_an_error() {
    for raw in [0i64, 1, -1, 100, i64::MAX, i64::MIN] {
        let r = FixedPoint::from_int(raw).div(FixedPoint::from_int(0));
        assert_eq!(r, Err(FeedError::DivisionByZero));
    }
}

#[test]
fn div_scales_then_rounds_toward_zero() {
    let q = FixedPoint::from_int(100).div(FixedPoint::from_int(300));
    assert_eq!(q.map(|v| v.raw()), Ok(33));
    let q = FixedPoint::from_int(-100).div(FixedPoint::from_int(300));
    assert_eq!(q.map(|v| v.raw()), Ok(-33));
    let q = FixedPoint::from_int(100).div(FixedPoint::from_int(-300));
    assert_eq!(q.map(|v| v.raw()), Ok(-33));
    let q = FixedPoint::from_int(-200).div(FixedPoint::from_int(-300));
    assert_eq!(q.map(|v| v.raw()), Ok(66));
    let q = FixedPoint::from_int(500).div(FixedPoint::from_int(200));
    assert_eq!(q.map(|v| v.raw()), Ok(250));
    let q = FixedPoint::from_int(0).div(FixedPoint::from_int(-5));
    assert_eq!(q.map(|v| v.raw()), Ok(0));
}

#[test]
fn text_has_two_fraction_digits() {
    assert_eq!(FixedPoint::from_int(123).to_text(), "1.23");
    assert_eq!(FixedPoint::from_int(0).to_text(), "0.00");
    assert_eq!(FixedPoint::from_int(5).to_text(), "0.05");
    assert_eq!(FixedPoint::from_int(-5).to_text(), "-0.05");
    assert_eq!(FixedPoint::from_int(-120).to_text(), "-1.20");
    assert_eq!(FixedPoint::from_int(100000).to_text(), "1000.00");
    assert_eq!(FixedPoint::from_int(i64::MAX).to_text(), "92233720368547758.07");
    assert_eq!(FixedPoint::from_int(i64::MIN).to_text(), "-92233720368547758.08");
}

#[test]
fn equality_and_order_follow_the_count() {
    let a = FixedPoint::from_int(-150);
    let b = FixedPoint::from_int(149);
    assert!(a < b);
    assert!(b > a);
    assert!(a != b);
    assert_eq!(a, FixedPoint::from_int(-150));
    assert_eq!(a.max(b), b);
}

/// The count that a feed price is given where it arrives as a float: the
/// float times 100, rounded to the nearest integer, halves away from zero.
fn hundredths(value: f64) -> FixedPoint {
    FixedPoint::from_int((value * 100.0).round() as i64)
}

#[test]
fn float_prices_round_to_the_nearest_hundredth() {
    assert_eq!(hundredths(1.23).raw(), 123);
    assert_eq!(hundredths(4.2).raw(), 420);
    assert_eq!(hundredths(-0.019).raw(), -2);
    assert_eq!(hundredths(0.0).raw(), 0);
    // halves go away from zero
    assert_eq!(hundredths(0.125).raw(), 13);
    assert_eq!(hundredths(-0.125).raw(), -13);
    for f in [0.0f64, 1.23, -7.891, 1234.5678, 0.125] {
        let back = hundredths(f).raw() as f64 / 100.0;
        assert!((back - (f * 100.0).round() / 100.0).abs() < 1e-9);
    }
}

#[test]
fn one_point_zero_zero_five_rounds_down() {
    // 1.005 is stored as a float a little under 1.005, and its product with
    // 100 is under 100.5: the price is 1.00, not 1.01.
    assert_eq!(hundredths(1.005).raw(), 100);
    assert_eq!(hundredths(1.005).to_text(), "1.00");
}

#[test]
fn text_agrees_with_float_formatting() {
    for raw in [0i64, 1, -1, 99, 100, -100, 123456, -987654, 5, -5] {
        let expected = format!("{:.2}", raw as f64 / 100.0);
        assert_eq!(FixedPoint::from_int(raw).to_text(), expected);
    }
}
