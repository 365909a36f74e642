//! The trainer's clockwork: how many passes a run makes and after which of
//! them it reports.
//!
//! The numeric work of a pass is the caller's. It asks the run for the next
//! epoch, does the pass, and reports where the step says so.

use vstd::prelude::*;
use crate::params::TrainingParams;

verus! {

/// Progress is reported after every epoch that is a multiple of this.
pub const REPORT_EVERY: usize = 10;

/// Whether progress is reported after `epoch` in a run of `epochs` passes:
/// after the first, after every tenth, and after the last.
pub open spec fn reports_at(epoch: nat, epochs: nat) -> bool {
    1 <= epoch <= epochs && (epoch == 1 || epoch % (REPORT_EVERY as nat) == 0 || epoch == epochs)
}

/// The reporting epochs of a run of `epochs` passes that are no greater than
/// `upto`, in ascending order.
pub open spec fn report_points(upto: nat, epochs: nat) -> Seq<nat>
    decreases upto,
{
    if upto == 0 {
        Seq::empty()
    } else if reports_at(upto, epochs) {
        report_points((upto - 1) as nat, epochs).push(upto)
    } else {
        report_points((upto - 1) as nat, epochs)
    }
}

/// Whether progress is reported after `epoch` in a run of `epochs` passes.
pub fn should_report(epoch: usize, epochs: usize) -> (r: bool)
    ensures
        r == reports_at(epoch as nat, epochs as nat),
{
    1 <= epoch && epoch <= epochs && (epoch == 1 || epoch % REPORT_EVERY == 0 || epoch == epochs)
}

/// A run as contracts see it.
pub ghost struct RunState {
    /// Passes the run is to make.
    pub epochs: nat,
    /// Passes handed out so far.
    pub completed: nat,
}

impl RunState {
    /// No more passes were handed out than the run is to make.
    pub open spec fn wf(self) -> bool {
        self.completed <= self.epochs
    }

    /// Every pass was handed out.
    pub open spec fn finished(self) -> bool {
        self.completed >= self.epochs
    }

    /// The run after `n` more passes were handed out.
    pub open spec fn after(self, n: nat) -> RunState {
        RunState { epochs: self.epochs, completed: self.completed + n }
    }
}

/// One pass, as handed out by [`TrainingRun::advance`].
#[derive(Clone, Copy, Debug, PartialEq, Eq, Structural)]
pub struct EpochStep {
    /// The epoch to run, counted from one.
    pub epoch: usize,
    /// Whether progress is reported after it.
    pub report: bool,
    /// Whether it is the run's last.
    pub last: bool,
}

/// One training run: a fixed number of passes, handed out one by one.
#[derive(Debug)]
pub struct TrainingRun {
    epochs: usize,
    completed: usize,
}

impl View for TrainingRun {
    type V = RunState;

    closed spec fn view(&self) -> RunState {
        RunState { epochs: self.epochs as nat, completed: self.completed as nat }
    }
}

impl TrainingRun {
    /// Starts a run with the given parameters, where they can be trained
    /// with: as many passes as they have epochs, none of them handed out.
    pub fn begin(params: &TrainingParams) -> (run: Option<TrainingRun>)
        ensures
            params.valid() ==> run is Some && run->0@ == (RunState {
                epochs: params.epochs as nat,
                completed: 0,
            }),
            !params.valid() ==> run is None,
    {
        if params.is_valid() {
            Some(TrainingRun { epochs: params.epochs, completed: 0 })
        } else {
            None
        }
    }

    /// Passes the run is to make.
    pub fn epochs(&self) -> (n: usize)
        ensures
            n == self@.epochs,
    {
        self.epochs
    }

    /// Passes handed out so far.
    pub fn completed(&self) -> (n: usize)
        ensures
            n == self@.completed,
    {
        self.completed
    }

    /// Whether every pass was handed out.
    pub fn is_finished(&self) -> (r: bool)
        ensures
            r == self@.finished(),
    {
        self.completed >= self.epochs
    }

    /// Hands out the next pass.
    ///
    /// A finished run hands out nothing and stays as it is. Any other run
    /// hands out the epoch after the last one, says whether progress is
    /// reported after it and whether it is the last, and counts it.
    pub fn advance(&mut self) -> (step: Option<EpochStep>)
        ensures
            old(self)@.finished() ==> step is None && final(self)@ == old(self)@,
            !old(self)@.finished() ==> final(self)@ == old(self)@.after(1) && step == Some(
                EpochStep {
                    epoch: final(self)@.completed as usize,
                    report: reports_at(final(self)@.completed, final(self)@.epochs),
                    last: final(self)@.finished(),
                },
            ),
            old(self)@.wf() ==> final(self)@.wf(),
    {
        if self.completed >= self.epochs {
            None
        } else {
            self.completed = self.completed + 1;
            Some(
                EpochStep {
                    epoch: self.completed,
                    report: should_report(self.completed, self.epochs),
                    last: self.completed >= self.epochs,
                },
            )
        }
    }
}

/// The epochs after which a run of `epochs` passes reports, in ascending
/// order. Makes the whole run, pass by pass.
pub fn report_epochs(epochs: usize) -> (points: Vec<usize>)
    ensures
        points@.map_values(|e: usize| e as nat) == report_points(epochs as nat, epochs as nat),
{
    let mut points: Vec<usize> = Vec::new();
    let mut run = TrainingRun { epochs, completed: 0 };
    assert(points@.map_values(|e: usize| e as nat) =~= report_points(0, epochs as nat));
    loop
        invariant
            run@.epochs == epochs,
            run@.wf(),
            points@.map_values(|e: usize| e as nat) == report_points(
                run@.completed,
                epochs as nat,
            ),
        ensures
            run@.completed == epochs,
        decreases run@.epochs - run@.completed,
    {
        let ghost before = points@;
        match run.advance() {
            None => {
                break ;
            },
            Some(step) => {
                if step.report {
                    points.push(step.epoch);
                    assert(points@.map_values(|e: usize| e as nat) =~= before.map_values(
                        |e: usize| e as nat,
                    ).push(step.epoch as nat));
                }
            },
        }
    }
    points
}

/// What a list of reporting epochs holds: exactly the reporting epochs up to
/// `upto`, each once, in ascending order, and no more of them than one for
/// the first epoch, one for every full ten, and one for the last.
pub proof fn lemma_report_points(upto: nat, epochs: nat)
    requires
        upto <= epochs,
    ensures
        forall|e: nat|
            report_points(upto, epochs).contains(e) <==> e <= upto && reports_at(e, epochs),
        forall|i: int, j: int|
            0 <= i < j < report_points(upto, epochs).len() ==> report_points(upto, epochs)[i]
                < report_points(upto, epochs)[j],
        forall|i: int|
            0 <= i < report_points(upto, epochs).len() ==> 1 <= #[trigger] report_points(
                upto,
                epochs,
            )[i] <= upto,
        report_points(upto, epochs).len() <= upto / (REPORT_EVERY as nat) + (if upto >= 1 {
            1nat
        } else {
            0nat
        }) + (if upto >= 1 && upto == epochs {
            1nat
        } else {
            0nat
        }),
    decreases upto,
{
    let pts = report_points(upto, epochs);
    if upto == 0 {
        assert forall|e: nat| pts.contains(e) <==> e <= upto && reports_at(e, epochs) by {}
    } else {
        let prev = report_points((upto - 1) as nat, epochs);
        lemma_report_points((upto - 1) as nat, epochs);
        if reports_at(upto, epochs) {
            assert forall|e: nat| pts.contains(e) <==> e <= upto && reports_at(e, epochs) by {
                if pts.contains(e) {
                    let k = choose|k: int| 0 <= k < pts.len() && pts[k] == e;
                    if k < prev.len() {
                        assert(prev[k] == e);
                        assert(prev.contains(e));
                    }
                }
                if e <= upto && reports_at(e, epochs) {
                    if e == upto {
                        assert(pts[pts.len() - 1] == e);
                    } else {
                        assert(prev.contains(e));
                        let k = choose|k: int| 0 <= k < prev.len() && prev[k] == e;
                        assert(pts[k] == e);
                    }
                }
            }
        }
    }
}

/// A run that can be trained with makes exactly as many passes as it has
/// epochs, and reports after the first pass, after every tenth, and after the
/// last, in that order and after no other.
///
/// The run is not finished after fewer passes than `epochs` and is finished
/// after `epochs` of them. Its reporting epochs start with the first epoch,
/// end with the last, ascend, and hold an epoch exactly where
/// [`reports_at`] says so.
pub proof fn lemma_run_is_exact(params: TrainingParams)
    requires
        params.valid(),
    ensures
        ({
            let start = RunState { epochs: params.epochs as nat, completed: 0 };
            let points = report_points(params.epochs as nat, params.epochs as nat);
            &&& forall|n: nat| n < params.epochs ==> !(#[trigger] start.after(n)).finished()
            &&& start.after(params.epochs as nat).finished()
            &&& points.len() >= 1
            &&& points.first() == 1
            &&& points.last() == params.epochs
            &&& forall|i: int, j: int| 0 <= i < j < points.len() ==> points[i] < points[j]
            &&& forall|e: nat| points.contains(e) <==> reports_at(e, params.epochs as nat)
        }),
{
    let epochs = params.epochs as nat;
    let points = report_points(epochs, epochs);
    lemma_report_points(epochs, epochs);
    assert(reports_at(1, epochs));
    assert(reports_at(epochs, epochs));
    assert(points.contains(1));
    assert(points.contains(epochs));
    let a = choose|k: int| 0 <= k < points.len() && points[k] == 1;
    let z = choose|k: int| 0 <= k < points.len() && points[k] == epochs;
    if a != 0 {
        assert(points[0] < points[a]);
    }
    if z != points.len() - 1 {
        assert(points[z] < points[points.len() - 1]);
    }
}

} // verus!
