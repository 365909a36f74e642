use potability::predictor::{
    check_request, classify, is_unit_interval, PredictError, PredictionResult,
};

#[test]
fn nine_features_never_mismatch() {
    assert_eq!(check_request(9, true), Ok(()));
    assert_eq!(check_request(9, false), Err(PredictError::NetworkNotReady));
}

#[test]
fn any_other_length_always_mismatches() {
    for len in [0usize, 1, 8, 10, 100, usize::MAX] {
        assert_eq!(check_request(len, true), Err(PredictError::DimensionMismatch));
        assert_eq!(check_request(len, false), Err(PredictError::DimensionMismatch));
    }
}

#[test]
fn potable_from_one_half_upwards() {
    for (p, potable) in [
        (0.0, false),
        (0.25, false),
        (0.49999999999999994, false),
        (0.5, true),
        (0.5000000000000001, true),
        (0.9, true),
        (1.0, true),
    ] {
        let bits = f64::to_bits(p);
        assert_eq!(
            classify(bits),
            Some(PredictionResult { is_potable: potable, probability: bits }),
            "{p}"
        );
    }
}

#[test]
fn what_is_no_probability_gets_no_verdict() {
    for p in [-0.1, 1.0000000000000002, 2.0, f64::NAN, f64::INFINITY, f64::NEG_INFINITY] {
        assert_eq!(classify(p.to_bits()), None, "{p}");
        assert!(!is_unit_interval(p.to_bits()));
    }
    assert!(is_unit_interval((-0.0f64).to_bits()));
}

#[test]
fn verdicts_have_words() {
    let yes = classify(0.75f64.to_bits()).unwrap();
    let no = classify(0.25f64.to_bits()).unwrap();
    assert_eq!(yes.verdict(), "POTABLE");
    assert_eq!(no.verdict(), "NOT POTABLE");
    assert_eq!(f64::from_bits(yes.probability), 0.75);
}

#[test]
fn predict_errors_have_words() {
    assert_eq!(PredictError::DimensionMismatch.message(), "expected 9 features");
    assert_eq!(PredictError::NetworkNotReady.message(), "no trained network is available yet");
}
