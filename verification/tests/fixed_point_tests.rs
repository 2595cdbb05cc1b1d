use pappap_core::fixed_point::{FixedPoint, FX_SCALE};

#[test]
fn from_int_scales_by_two_pow_sixteen() {
    assert_eq!(FixedPoint::from_int(1).raw, 65536);
    assert_eq!(FixedPoint::from_int(-1).raw, -65536);
    assert_eq!(FixedPoint::from_int(0).raw, 0);
    assert_eq!(FX_SCALE, 65536);
}

#[test]
fn add_sat_exact_and_saturating() {
    let a = FixedPoint::from_raw(100);
    let b = FixedPoint::from_raw(-300);
    assert_eq!(a.add_sat(b).raw, -200);
    let max = FixedPoint::from_raw(i64::MAX);
    assert_eq!(max.add_sat(FixedPoint::from_raw(1)).raw, i64::MAX);
    let min = FixedPoint::from_raw(i64::MIN);
    assert_eq!(min.add_sat(FixedPoint::from_raw(-1)).raw, i64::MIN);
    assert_eq!(max.add_sat(min).raw, -1);
}

#[test]
fn mul_sat_exact_values() {
    // 1.5 * 2.0 == 3.0
    let a = FixedPoint::from_raw(98304);
    let b = FixedPoint::from_int(2);
    assert_eq!(a.mul_sat(b).raw, 196608);
    // the smallest positive value squared underflows to zero
    let eps = FixedPoint::from_raw(1);
    assert_eq!(eps.mul_sat(eps).raw, 0);
    // rescaling rounds toward negative infinity
    let neg_eps = FixedPoint::from_raw(-1);
    assert_eq!(neg_eps.mul_sat(FixedPoint::from_raw(1)).raw, -1);
    // -1.5 * 0.5 == -0.75 exactly
    let c = FixedPoint::from_raw(-98304);
    let half = FixedPoint::from_raw(32768);
    assert_eq!(c.mul_sat(half).raw, -49152);
}

#[test]
fn mul_sat_saturates() {
    let max = FixedPoint::from_raw(i64::MAX);
    let min = FixedPoint::from_raw(i64::MIN);
    let two = FixedPoint::from_int(2);
    assert_eq!(max.mul_sat(two).raw, i64::MAX);
    assert_eq!(min.mul_sat(two).raw, i64::MIN);
    assert_eq!(min.mul_sat(min).raw, i64::MAX);
    assert_eq!(max.mul_sat(min).raw, i64::MIN);
}

#[test]
fn ge_compares_numerically() {
    assert!(FixedPoint::from_raw(5).ge(FixedPoint::from_raw(5)));
    assert!(FixedPoint::from_raw(6).ge(FixedPoint::from_raw(5)));
    assert!(!FixedPoint::from_raw(-6).ge(FixedPoint::from_raw(5)));
}
