//! The session coordinator: one training run at a time, restarts queued
//! behind the run in flight, predictions served from the last run that
//! completed.
//!
//! The coordinator decides; the caller owns the threads and channels, does
//! what a directive says, and tells the coordinator when a run has ended.

use vstd::prelude::*;
use crate::params::TrainingParams;
use crate::predictor::PredictError;
use crate::topology::{buildable, is_buildable, INPUT_DIM, OUTPUT_DIM};

verus! {

/// Whether a run is in flight.
#[derive(Clone, Copy, Debug, PartialEq, Eq, Structural)]
pub enum Phase {
    Idle,
    Training,
}

/// What the caller is to do next.
#[derive(Clone, Copy, Debug, PartialEq, Eq, Structural)]
pub enum Directive {
    /// Nothing: go on with what is running, or wait.
    Stay,
    /// Build a fresh network for these parameters and train it from the
    /// first epoch.
    Begin(TrainingParams),
}

/// A snapshot the coordinator acts on: the restart trigger is set, the
/// parameters can be trained with, and the network they ask for can be
/// built.
pub open spec fn actionable(params: TrainingParams) -> bool {
    &&& params.restart_training
    &&& params.valid()
    &&& buildable(INPUT_DIM, params.hidden_layers, params.neurons_per_layer, OUTPUT_DIM)
}

/// What a session holds of a run: parameters that can be trained with, whose
/// network can be built, and whose trigger was cleared when they were taken.
pub open spec fn runnable(params: TrainingParams) -> bool {
    &&& !params.restart_training
    &&& params.valid()
    &&& buildable(INPUT_DIM, params.hidden_layers, params.neurons_per_layer, OUTPUT_DIM)
}

/// The session as contracts see it.
pub ghost struct SessionState {
    /// The parameters of the run in flight.
    pub active: Option<TrainingParams>,
    /// Restarts that arrived during it, oldest first.
    pub pending: Seq<TrainingParams>,
    /// The parameters of the last run that completed: those of the network
    /// that predictions are served from.
    pub trained: Option<TrainingParams>,
}

impl SessionState {
    /// What every session that grew out of [`Session::new`] satisfies:
    /// nothing waits while nothing runs, and whatever runs, waits or has
    /// completed is runnable.
    pub open spec fn wf(self) -> bool {
        &&& self.active is None ==> self.pending.len() == 0
        &&& self.active matches Some(p) ==> runnable(p)
        &&& self.trained matches Some(p) ==> runnable(p)
        &&& forall|i: int| 0 <= i < self.pending.len() ==> runnable(#[trigger] self.pending[i])
    }

    pub open spec fn phase(self) -> Phase {
        if self.active is Some {
            Phase::Training
        } else {
            Phase::Idle
        }
    }

    /// The session after a snapshot has arrived.
    ///
    /// A snapshot that is not actionable changes nothing. An actionable one
    /// starts a run where none is in flight, and else waits behind those
    /// that wait already; the run in flight is not touched.
    pub open spec fn submitted(self, params: TrainingParams) -> SessionState {
        if !actionable(params) {
            self
        } else if self.active is None {
            SessionState { active: Some(params.consumed()), ..self }
        } else {
            SessionState { pending: self.pending.push(params.consumed()), ..self }
        }
    }

    /// The session after the run in flight has ended: its network is the one
    /// served from now on, and the oldest waiting restart, if any, is the
    /// next run.
    pub open spec fn finished(self) -> SessionState {
        if self.active is None {
            self
        } else if self.pending.len() == 0 {
            SessionState { active: None, pending: self.pending, trained: self.active }
        } else {
            SessionState {
                active: Some(self.pending.first()),
                pending: self.pending.drop_first(),
                trained: self.active,
            }
        }
    }

    /// Whom a prediction request of `feature_len` measurements is served
    /// from: the network of the last completed run, if the request holds
    /// nine measurements and a run has completed.
    pub open spec fn served(self, feature_len: nat) -> Result<TrainingParams, PredictError> {
        if feature_len != INPUT_DIM {
            Err(PredictError::DimensionMismatch)
        } else {
            match self.trained {
                Some(p) => Ok(p),
                None => Err(PredictError::NetworkNotReady),
            }
        }
    }
}

/// The coordinator of one session.
#[derive(Debug)]
pub struct Session {
    active: Option<TrainingParams>,
    pending: Vec<TrainingParams>,
    trained: Option<TrainingParams>,
}

impl View for Session {
    type V = SessionState;

    closed spec fn view(&self) -> SessionState {
        SessionState { active: self.active, pending: self.pending@, trained: self.trained }
    }
}

impl Session {
    /// An idle session: nothing runs, nothing waits, nothing was trained.
    pub fn new() -> (session: Session)
        ensures
            session@ == (SessionState { active: None, pending: Seq::empty(), trained: None }),
            session@.wf(),
    {
        Session { active: None, pending: Vec::new(), trained: None }
    }

    /// Whether a run is in flight.
    pub fn phase(&self) -> (phase: Phase)
        ensures
            phase == self@.phase(),
    {
        if self.active.is_some() {
            Phase::Training
        } else {
            Phase::Idle
        }
    }

    /// The number of restarts that wait behind the run in flight.
    pub fn pending(&self) -> (n: usize)
        ensures
            n == self@.pending.len(),
    {
        self.pending.len()
    }

    /// Takes in a snapshot of the parameters.
    ///
    /// A run begins exactly where the snapshot is actionable and the session
    /// was idle; it begins with the snapshot's values and the trigger
    /// cleared. While a run is in flight nothing begins: an actionable
    /// snapshot waits.
    pub fn submit(&mut self, params: TrainingParams) -> (directive: Directive)
        ensures
            final(self)@ == old(self)@.submitted(params),
            directive == if actionable(params) && old(self)@.active is None {
                Directive::Begin(params.consumed())
            } else {
                Directive::Stay
            },
            old(self)@.wf() ==> final(self)@.wf(),
    {
        let mut taken = params;
        let valid = taken.is_valid() && is_buildable(
            INPUT_DIM,
            taken.hidden_layers,
            taken.neurons_per_layer,
            OUTPUT_DIM,
        );
        match taken.take_restart() {
            Some(snapshot) => {
                if !valid {
                    Directive::Stay
                } else if self.active.is_none() {
                    self.active = Some(snapshot);
                    Directive::Begin(snapshot)
                } else {
                    self.pending.push(snapshot);
                    Directive::Stay
                }
            },
            None => Directive::Stay,
        }
    }

    /// Takes note that the run in flight has ended.
    ///
    /// In an idle session nothing happens. Otherwise the run's network is
    /// the one served from now on, and the oldest waiting restart begins at
    /// once; where none waits the session is idle.
    pub fn finish_run(&mut self) -> (directive: Directive)
        ensures
            final(self)@ == old(self)@.finished(),
            directive == if old(self)@.active is Some && old(self)@.pending.len() > 0 {
                Directive::Begin(old(self)@.pending.first())
            } else {
                Directive::Stay
            },
            old(self)@.wf() ==> final(self)@.wf(),
    {
        if self.active.is_none() {
            return Directive::Stay;
        }
        self.trained = self.active;
        if self.pending.len() == 0 {
            self.active = None;
            Directive::Stay
        } else {
            let next = self.pending.remove(0);
            assert(self.pending@ =~= old(self).pending@.drop_first());
            self.active = Some(next);
            Directive::Begin(next)
        }
    }

    /// Judges a prediction request of `feature_len` measurements.
    ///
    /// It is served from the network of the last completed run, whether or
    /// not another run is in flight. The session itself is not changed.
    pub fn check_prediction(&self, feature_len: usize) -> (r: Result<TrainingParams, PredictError>)
        ensures
            r == self@.served(feature_len as nat),
            feature_len == INPUT_DIM ==> r != Err::<TrainingParams, PredictError>(
                PredictError::DimensionMismatch,
            ),
            feature_len != INPUT_DIM ==> r == Err::<TrainingParams, PredictError>(
                PredictError::DimensionMismatch,
            ),
    {
        if feature_len != INPUT_DIM {
            Err(PredictError::DimensionMismatch)
        } else {
            match self.trained {
                Some(p) => Ok(p),
                None => Err(PredictError::NetworkNotReady),
            }
        }
    }
}

/// A restart that arrives during a run does not disturb it, and is the next
/// run once it has ended.
///
/// Whatever snapshot arrives while a run is in flight, the run in flight
/// stays the same. Where the snapshot is actionable and nothing else waits,
/// the end of the run in flight makes that run's network the one served and
/// starts the new run at once, with the snapshot's values and the trigger
/// cleared.
pub proof fn lemma_restart_waits_its_turn(session: SessionState, params: TrainingParams)
    requires
        session.wf(),
        session.active is Some,
    ensures
        session.submitted(params).active == session.active,
        session.submitted(params).trained == session.trained,
        session.submitted(params).wf(),
        actionable(params) && session.pending.len() == 0 ==> {
            let next = session.submitted(params).finished();
            &&& next.active == Some(params.consumed())
            &&& next.trained == session.active
            &&& next.pending.len() == 0
            &&& next.wf()
        },
{
    if actionable(params) {
        let queued = session.submitted(params);
        assert(queued.pending == session.pending.push(params.consumed()));
        if session.pending.len() == 0 {
            assert(queued.pending.first() == params.consumed());
            assert(queued.pending.drop_first() =~= Seq::<TrainingParams>::empty());
        }
    }
}

/// Restarts are run in the order they arrived, none twice and none lost:
/// ending a run takes the oldest waiting restart and leaves the others
/// waiting in their order.
pub proof fn lemma_restarts_keep_their_order(session: SessionState)
    requires
        session.wf(),
        session.active is Some,
        session.pending.len() > 0,
    ensures
        session.finished().active == Some(session.pending[0]),
        session.finished().pending.len() == session.pending.len() - 1,
        forall|i: int|
            0 <= i < session.finished().pending.len() ==> session.finished().pending[i]
                == session.pending[i + 1],
        session.finished().wf(),
{
}

} // verus!
