use potability::binary64::ONE_HALF;
use potability::params::{count_or, TrainingParams};

fn params(epochs: usize, hidden: usize, neurons: usize, rate: f64, restart: bool) -> TrainingParams {
    TrainingParams {
        epochs,
        hidden_layers: hidden,
        neurons_per_layer: neurons,
        learning_rate: rate.to_bits(),
        restart_training: restart,
    }
}

#[test]
fn defaults_are_those_of_the_window() {
    let p = TrainingParams::default();
    assert_eq!(p, params(2000, 2, 32, 0.5, false));
    assert_eq!(p.learning_rate, ONE_HALF);
    assert!(p.is_valid());
}

#[test]
fn validity_asks_for_positive_counts_and_rate() {
    assert!(params(1, 1, 1, 1e-9, false).is_valid());
    assert!(!params(0, 1, 1, 0.5, false).is_valid());
    assert!(!params(1, 0, 1, 0.5, false).is_valid());
    assert!(!params(1, 1, 0, 0.5, false).is_valid());
    assert!(!params(1, 1, 1, 0.0, false).is_valid());
    assert!(!params(1, 1, 1, -0.5, false).is_valid());
    assert!(!params(1, 1, 1, f64::NAN, false).is_valid());
    assert!(!params(1, 1, 1, f64::INFINITY, false).is_valid());
}

#[test]
fn take_restart_consumes_the_trigger_once() {
    let mut p = params(50, 1, 4, 0.5, true);
    assert_eq!(p.take_restart(), Some(params(50, 1, 4, 0.5, false)));
    assert!(!p.restart_training);
    assert_eq!(p.take_restart(), None);
    assert_eq!(p, params(50, 1, 4, 0.5, false));
}

#[test]
fn apply_inputs_takes_each_readable_field() {
    let mut p = TrainingParams::default();
    p.apply_inputs(b"100", b"x", b"16", Some(0.25f64.to_bits()));
    assert_eq!(p, params(100, 2, 16, 0.25, true));
}

#[test]
fn apply_inputs_keeps_what_cannot_be_trained_with() {
    let mut p = TrainingParams::default();
    p.apply_inputs(b"0", b"0", b"", Some((-1.0f64).to_bits()));
    assert_eq!(p, params(2000, 2, 32, 0.5, true));
    p.apply_inputs(b"7", b"3", b"5", None);
    assert_eq!(p, params(7, 3, 5, 0.5, true));
    assert!(p.is_valid());
}

#[test]
fn count_or_falls_back() {
    assert_eq!(count_or(b"12", 3), 12);
    assert_eq!(count_or(b"0", 3), 3);
    assert_eq!(count_or(b"twelve", 3), 3);
}
