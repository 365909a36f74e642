use potability::binary64::{
    abs, is_finite, is_nan, is_positive_real, le, lt, HIDDEN_BIT, INFINITY, ONE, ONE_HALF,
    ONE_HUNDRED, SIGN_BIT, ZERO,
};

fn samples() -> Vec<f64> {
    vec![
        0.0,
        -0.0,
        f64::MIN_POSITIVE,
        -f64::MIN_POSITIVE,
        5e-324,
        -5e-324,
        2.2250738585072009e-308,
        0.1,
        0.25,
        0.49999999999999994,
        0.5,
        0.5000000000000001,
        0.75,
        1.0,
        -1.0,
        1.5,
        2.0,
        99.99999999999999,
        100.0,
        100.00000000000001,
        -100.0,
        1e300,
        -1e300,
        f64::MAX,
        f64::MIN,
        f64::INFINITY,
        f64::NEG_INFINITY,
        f64::NAN,
        -f64::NAN,
    ]
}

#[test]
fn constants_are_the_encodings_they_name() {
    assert_eq!(ZERO, 0.0f64.to_bits());
    assert_eq!(SIGN_BIT, (-0.0f64).to_bits());
    assert_eq!(ONE_HALF, 0.5f64.to_bits());
    assert_eq!(ONE, 1.0f64.to_bits());
    assert_eq!(ONE_HUNDRED, 100.0f64.to_bits());
    assert_eq!(INFINITY, f64::INFINITY.to_bits());
    assert_eq!(HIDDEN_BIT, 1u64 << 52);
}

#[test]
fn le_orders_patterns_as_numbers() {
    for a in samples() {
        for b in samples() {
            assert_eq!(le(a.to_bits(), b.to_bits()), a <= b, "{a:?} <= {b:?}");
        }
    }
}

#[test]
fn lt_orders_patterns_as_numbers() {
    for a in samples() {
        for b in samples() {
            assert_eq!(lt(a.to_bits(), b.to_bits()), a < b, "{a:?} < {b:?}");
        }
    }
}

#[test]
fn zeros_of_both_signs_are_equal() {
    assert!(le(ZERO, SIGN_BIT));
    assert!(le(SIGN_BIT, ZERO));
    assert!(!lt(ZERO, SIGN_BIT));
    assert!(!lt(SIGN_BIT, ZERO));
}

#[test]
fn nan_is_never_ordered() {
    let nan = f64::NAN.to_bits();
    assert!(!le(nan, nan));
    assert!(!lt(nan, ONE));
    assert!(!le(ZERO, nan));
}

#[test]
fn classification_agrees_with_the_float_type() {
    for a in samples() {
        assert_eq!(is_nan(a.to_bits()), a.is_nan(), "{a:?}");
        assert_eq!(is_finite(a.to_bits()), a.is_finite(), "{a:?}");
        assert_eq!(is_positive_real(a.to_bits()), a.is_finite() && a > 0.0, "{a:?}");
        assert_eq!(abs(a.to_bits()), a.abs().to_bits(), "{a:?}");
    }
}

#[test]
fn smallest_subnormal_is_a_positive_real() {
    assert!(is_positive_real(1));
    assert!(!is_positive_real(0));
    assert!(!is_positive_real(INFINITY));
    assert!(!is_positive_real(SIGN_BIT | 1));
}
