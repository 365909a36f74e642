use potability::params::TrainingParams;
use potability::schedule::{report_epochs, should_report, EpochStep, TrainingRun, REPORT_EVERY};

fn params(epochs: usize) -> TrainingParams {
    TrainingParams { epochs, ..TrainingParams::default() }
}

#[test]
fn reports_after_first_every_tenth_and_last() {
    assert_eq!(REPORT_EVERY, 10);
    assert_eq!(report_epochs(25), vec![1, 10, 20, 25]);
    assert_eq!(report_epochs(50), vec![1, 10, 20, 30, 40, 50]);
    assert_eq!(report_epochs(1), vec![1]);
    assert_eq!(report_epochs(9), vec![1, 9]);
    assert_eq!(report_epochs(10), vec![1, 10]);
    assert_eq!(report_epochs(11), vec![1, 10, 11]);
    assert_eq!(report_epochs(0), Vec::<usize>::new());
}

#[test]
fn should_report_knows_the_bounds_of_the_run() {
    assert!(should_report(1, 25));
    assert!(!should_report(2, 25));
    assert!(should_report(20, 25));
    assert!(should_report(25, 25));
    assert!(!should_report(24, 25));
    assert!(!should_report(0, 25));
    assert!(!should_report(30, 25));
}

#[test]
fn a_run_makes_exactly_its_epochs() {
    let mut run = TrainingRun::begin(&params(23)).unwrap();
    assert_eq!(run.epochs(), 23);
    let mut passes = 0;
    let mut reported = Vec::new();
    while let Some(step) = run.advance() {
        passes += 1;
        assert_eq!(step.epoch, passes);
        assert_eq!(step.last, passes == 23);
        if step.report {
            reported.push(step.epoch);
        }
    }
    assert_eq!(passes, 23);
    assert_eq!(run.completed(), 23);
    assert!(run.is_finished());
    assert_eq!(reported, vec![1, 10, 20, 23]);
    assert_eq!(run.advance(), None);
    assert_eq!(run.completed(), 23);
}

#[test]
fn first_step_of_a_run() {
    let mut run = TrainingRun::begin(&params(1)).unwrap();
    assert!(!run.is_finished());
    assert_eq!(run.advance(), Some(EpochStep { epoch: 1, report: true, last: true }));
    assert!(run.is_finished());
}

#[test]
fn no_run_without_valid_parameters() {
    assert!(TrainingRun::begin(&params(0)).is_none());
    let mut p = params(5);
    p.learning_rate = 0.0f64.to_bits();
    assert!(TrainingRun::begin(&p).is_none());
    p.learning_rate = 0.1f64.to_bits();
    p.neurons_per_layer = 0;
    assert!(TrainingRun::begin(&p).is_none());
}

#[test]
fn two_thousand_epochs_report_two_hundred_and_one_times() {
    let points = report_epochs(2000);
    assert_eq!(points.len(), 201);
    assert_eq!(points[0], 1);
    assert_eq!(points[200], 2000);
    assert!(points.windows(2).all(|w| w[0] < w[1]));
}
