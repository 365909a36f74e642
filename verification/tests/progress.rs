use potability::progress::{count_correct, TrainingProgress};

fn bits(values: &[f64]) -> Vec<u64> {
    values.iter().map(|v| v.to_bits()).collect()
}

#[test]
fn counts_the_samples_got_right() {
    let probabilities = bits(&[0.2, 0.7, 0.5, 0.49, 0.9]);
    let labels = [false, true, true, true, false];
    assert_eq!(count_correct(&probabilities, &labels), Some(3));
}

#[test]
fn the_count_never_falls_and_never_exceeds_the_samples() {
    let probabilities = bits(&[0.1, 0.9, 0.4, 0.6, 0.5, 0.3, 1.0, 0.0]);
    let labels = [false, false, true, true, true, false, true, true];
    let mut last = 0;
    for n in 0..=probabilities.len() {
        let correct = count_correct(&probabilities[..n], &labels[..n]).unwrap();
        assert!(correct >= last);
        assert!(correct <= n);
        let accuracy = if n == 0 { 0.0 } else { 100.0 * correct as f64 / n as f64 };
        assert!((0.0..=100.0).contains(&accuracy));
        last = correct;
    }
    assert_eq!(last, 5);
}

#[test]
fn nothing_to_count_without_a_label_for_each() {
    assert_eq!(count_correct(&bits(&[0.5, 0.5]), &[true]), None);
    assert_eq!(count_correct(&[], &[true]), None);
    assert_eq!(count_correct(&[], &[]), Some(0));
}

#[test]
fn a_probability_that_is_no_number_says_not_potable() {
    assert_eq!(count_correct(&bits(&[f64::NAN]), &[false]), Some(1));
    assert_eq!(count_correct(&bits(&[f64::NAN]), &[true]), Some(0));
}

#[test]
fn progress_holds_values_within_their_bounds() {
    let p = TrainingProgress::new(10, 66.5f64.to_bits(), 0.693f64.to_bits()).unwrap();
    assert_eq!(p.epoch(), 10);
    assert_eq!(f64::from_bits(p.accuracy()), 66.5);
    assert_eq!(f64::from_bits(p.loss()), 0.693);
    assert!(TrainingProgress::new(1, 0.0f64.to_bits(), 0.0f64.to_bits()).is_some());
    assert!(TrainingProgress::new(1, 100.0f64.to_bits(), f64::INFINITY.to_bits()).is_some());
}

#[test]
fn progress_out_of_bounds_is_refused() {
    let half = 0.5f64.to_bits();
    assert!(TrainingProgress::new(0, half, half).is_none());
    assert!(TrainingProgress::new(1, 100.00000000000001f64.to_bits(), half).is_none());
    assert!(TrainingProgress::new(1, (-1.0f64).to_bits(), half).is_none());
    assert!(TrainingProgress::new(1, f64::NAN.to_bits(), half).is_none());
    assert!(TrainingProgress::new(1, half, (-0.001f64).to_bits()).is_none());
    assert!(TrainingProgress::new(1, half, f64::NAN.to_bits()).is_none());
}
