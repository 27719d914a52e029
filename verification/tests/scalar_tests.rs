use ray_tracer::scalar::{EPSILON_BITS, INFINITY_BITS, ONE_BITS, SIGN_BIT};
use ray_tracer::Scalar;

fn sc(v: f32) -> Scalar {
    Scalar::from_bits(v.to_bits())
}

fn sample_values() -> Vec<f32> {
    vec![
        0.0,
        -0.0,
        1.0,
        -1.0,
        0.5,
        -0.5,
        1.0e-5,
        -1.0e-5,
        0.000005,
        3.3,
        3.2,
        -3.3,
        200.0,
        1.0e-45,
        -1.0e-45,
        f32::MIN_POSITIVE,
        f32::MAX,
        f32::MIN,
        f32::INFINITY,
        f32::NEG_INFINITY,
        f32::NAN,
        -f32::NAN,
        f32::from_bits(0x7f80_0001),
        f32::from_bits(0xffff_ffff),
    ]
}

#[test]
fn float_compare_equal1() {
    let a: f32 = 3.3;
    let b: f32 = 3.3;
    assert!(sc(a - b).is_negligible());
}

#[test]
fn float_compare_equal2() {
    let a: f32 = 0.0;
    let b: f32 = 0.000005;
    assert!(sc(a - b).is_negligible());
}

#[test]
fn float_compare_not_equal1() {
    let a: f32 = 3.3;
    let b: f32 = 3.2;
    assert!(!sc(a - b).is_negligible());
}

#[test]
fn float_compare_not_equal2() {
    let a: f32 = 3.3;
    let b: f32 = 3.2;
    assert!(!sc(a - b).is_negligible());
}

#[test]
fn constants_are_the_patterns_of_their_numbers() {
    assert_eq!(ONE_BITS, 1.0f32.to_bits());
    assert_eq!(EPSILON_BITS, 1.0e-5f32.to_bits());
    assert_eq!(INFINITY_BITS, f32::INFINITY.to_bits());
    assert_eq!(SIGN_BIT, (-0.0f32).to_bits());
    assert_eq!(Scalar::zero().to_bits(), 0.0f32.to_bits());
    assert_eq!(Scalar::one().to_bits(), 1.0f32.to_bits());
}

#[test]
fn bits_round_trip() {
    for v in sample_values() {
        assert_eq!(sc(v).to_bits(), v.to_bits());
        assert_eq!(sc(v).bits, v.to_bits());
    }
}

#[test]
fn comparisons_agree_with_the_hardware() {
    let values = sample_values();
    for &a in &values {
        assert_eq!(sc(a).is_nan(), a.is_nan(), "is_nan {a}");
        for &b in &values {
            assert_eq!(sc(a).lt(sc(b)), a < b, "{a} < {b}");
            assert_eq!(sc(a).gt(sc(b)), a > b, "{a} > {b}");
            assert_eq!(sc(a).le(sc(b)), a <= b, "{a} <= {b}");
            assert_eq!(sc(a).ge(sc(b)), a >= b, "{a} >= {b}");
            assert_eq!(sc(a).num_eq(sc(b)), a == b, "{a} == {b}");
        }
    }
}

#[test]
fn negation_and_absolute_value_agree_with_the_hardware() {
    for v in sample_values() {
        assert_eq!(sc(v).neg().to_bits(), (-v).to_bits());
        assert_eq!(sc(v).abs().to_bits(), v.abs().to_bits());
        assert_eq!(sc(v).neg().neg(), sc(v));
    }
}

#[test]
fn negligible_means_below_the_tolerance() {
    for v in sample_values() {
        assert_eq!(sc(v).is_negligible(), v.abs() < 1.0e-5, "{v}");
    }
    assert!(sc(0.0).is_negligible());
    assert!(sc(-0.000009).is_negligible());
    assert!(!sc(1.0e-5).is_negligible());
    assert!(!sc(f32::NAN).is_negligible());
}

#[test]
fn zero_of_either_sign_is_equal_but_not_identical() {
    assert!(sc(0.0).num_eq(sc(-0.0)));
    assert!(!sc(0.0).lt(sc(-0.0)));
    assert!(!sc(-0.0).lt(sc(0.0)));
    assert_ne!(sc(0.0), sc(-0.0));
}

#[test]
fn nan_is_unordered() {
    let n = sc(f32::NAN);
    assert!(!n.lt(n));
    assert!(!n.le(n));
    assert!(!n.num_eq(n));
    assert!(!n.gt(sc(0.0)));
    assert_eq!(n, n);
}
