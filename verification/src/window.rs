//! What the training window decides: which phase it shows, what its button
//! says, and what becomes of a click on it.
//!
//! Drawing, clocks and channels belong to the caller. It tells the window what
//! arrived and how long nothing has arrived, and gets back what to show and
//! what to send.

use vstd::prelude::*;
use vstd::utf8::encode_utf8;
use crate::binary64;
use crate::params::TrainingParams;
use crate::text::{count_of, parse_count};

verus! {

/// How long the progress channel has to stay quiet, in nanoseconds, before a
/// running training counts as complete: anything above two seconds.
pub const QUIET_NANOS: u128 = 2_000_000_000;

/// What the window shows below its button.
#[derive(Clone, Copy, Debug, PartialEq, Eq, Structural)]
pub enum Status {
    /// Progress is arriving.
    Training,
    /// Progress arrived and then stopped.
    Completed,
    /// Nothing was ever started.
    FirstRun,
    /// Parameters were submitted and no progress has arrived yet.
    Inactive,
}

/// Why a click on the button changed nothing.
#[derive(Clone, Copy, Debug, PartialEq, Eq, Structural)]
pub enum Complaint {
    /// The number of epochs is zero.
    Epochs,
    /// The number of hidden layers is zero.
    HiddenLayers,
    /// The number of neurons per layer is zero.
    Neurons,
    /// The learning rate is not a real number above zero.
    LearningRate,
}

/// What became of a click on the button.
#[derive(Clone, Copy, Debug, PartialEq, Eq, Structural)]
pub enum Submission {
    /// Training is in progress; the click is ignored.
    Busy,
    /// One of the four inputs does not read as a number; nothing happens.
    Unreadable,
    /// The inputs read as numbers that cannot be trained with.
    Rejected(Complaint),
    /// The parameters to send to the trainer, with the restart trigger set.
    Accepted(TrainingParams),
}

/// The window as contracts see it.
pub ghost struct WindowState {
    pub accuracies: Seq<u64>,
    pub losses: Seq<u64>,
    pub training_params: TrainingParams,
    pub epochs_input: Seq<char>,
    pub hidden_layers_input: Seq<char>,
    pub neurons_input: Seq<char>,
    pub learning_rate_input: Seq<char>,
    pub is_training: bool,
    pub training_completed: bool,
    pub first_run: bool,
}

impl WindowState {
    /// What every window that grew out of [`TrainingWindow::new`] satisfies:
    /// the two histories go in step, training and completion exclude each
    /// other, a window that still waits for its first progress shows neither
    /// and holds no history, and the parameters held can be trained with.
    pub open spec fn wf(self) -> bool {
        &&& self.accuracies.len() == self.losses.len()
        &&& !(self.is_training && self.training_completed)
        &&& self.first_run ==> !self.is_training && !self.training_completed
            && self.accuracies.len() == 0
        &&& self.training_params.valid()
    }

    /// The phase shown.
    pub open spec fn status(self) -> Status {
        if self.is_training {
            Status::Training
        } else if self.training_completed {
            Status::Completed
        } else if self.first_run {
            Status::FirstRun
        } else {
            Status::Inactive
        }
    }

    /// The window after one progress point has arrived.
    pub open spec fn received(self, accuracy: u64, loss: u64) -> WindowState {
        WindowState {
            accuracies: self.accuracies.push(accuracy),
            losses: self.losses.push(loss),
            is_training: true,
            training_completed: false,
            first_run: false,
            ..self
        }
    }

    /// Whether a frame without news ends the training shown.
    pub open spec fn falls_quiet(self, received_data: bool, quiet_nanos: u128) -> bool {
        self.is_training && !received_data && quiet_nanos > QUIET_NANOS
            && !self.training_completed
    }

    /// What a click does, given what the learning-rate input reads as.
    pub open spec fn verdict(self, learning_rate: Option<u64>) -> Submission {
        judge(
            self.is_training,
            count_of(encode_utf8(self.epochs_input)),
            count_of(encode_utf8(self.hidden_layers_input)),
            count_of(encode_utf8(self.neurons_input)),
            learning_rate,
        )
    }
}

/// What a click does, given what the four inputs read as.
///
/// While training is shown the click is ignored. Otherwise all four inputs
/// must read as numbers, and the numbers must be parameters that can be trained
/// with; the first that is not is complained of, in the order epochs, hidden
/// layers, neurons, learning rate.
pub open spec fn judge(
    is_training: bool,
    epochs: Option<nat>,
    hidden_layers: Option<nat>,
    neurons: Option<nat>,
    learning_rate: Option<u64>,
) -> Submission {
    if is_training {
        Submission::Busy
    } else if epochs is None || hidden_layers is None || neurons is None || learning_rate is None {
        Submission::Unreadable
    } else if epochs->0 == 0 {
        Submission::Rejected(Complaint::Epochs)
    } else if hidden_layers->0 == 0 {
        Submission::Rejected(Complaint::HiddenLayers)
    } else if neurons->0 == 0 {
        Submission::Rejected(Complaint::Neurons)
    } else if !binary64::positive_real(learning_rate->0) {
        Submission::Rejected(Complaint::LearningRate)
    } else {
        Submission::Accepted(
            TrainingParams {
                epochs: epochs->0 as usize,
                hidden_layers: hidden_layers->0 as usize,
                neurons_per_layer: neurons->0 as usize,
                learning_rate: learning_rate->0,
                restart_training: true,
            },
        )
    }
}

/// A `usize` as the count it is.
pub open spec fn as_count(v: Option<usize>) -> Option<nat> {
    match v {
        Some(n) => Some(n as nat),
        None => None,
    }
}

/// Decides what a click does, given what the four inputs read as.
pub fn assess(
    is_training: bool,
    epochs: Option<usize>,
    hidden_layers: Option<usize>,
    neurons: Option<usize>,
    learning_rate: Option<u64>,
) -> (outcome: Submission)
    ensures
        outcome == judge(
            is_training,
            as_count(epochs),
            as_count(hidden_layers),
            as_count(neurons),
            learning_rate,
        ),
        outcome matches Submission::Accepted(params) ==> params.valid(),
{
    if is_training {
        return Submission::Busy;
    }
    match (epochs, hidden_layers, neurons, learning_rate) {
        (Some(e), Some(h), Some(n), Some(rate)) => {
            if e == 0 {
                Submission::Rejected(Complaint::Epochs)
            } else if h == 0 {
                Submission::Rejected(Complaint::HiddenLayers)
            } else if n == 0 {
                Submission::Rejected(Complaint::Neurons)
            } else if !binary64::is_positive_real(rate) {
                Submission::Rejected(Complaint::LearningRate)
            } else {
                Submission::Accepted(
                    TrainingParams {
                        epochs: e,
                        hidden_layers: h,
                        neurons_per_layer: n,
                        learning_rate: rate,
                        restart_training: true,
                    },
                )
            }
        },
        _ => Submission::Unreadable,
    }
}

impl Complaint {
    /// The sentence shown for the complaint.
    pub fn message(&self) -> (text: &'static str)
        ensures
            text@ == match *self {
                Complaint::Epochs => "Epochs must be at least 1"@,
                Complaint::HiddenLayers => "Hidden layers must be at least 1"@,
                Complaint::Neurons => "Neurons per layer must be at least 1"@,
                Complaint::LearningRate => "Learning rate must be greater than 0"@,
            },
    {
        match self {
            Complaint::Epochs => "Epochs must be at least 1",
            Complaint::HiddenLayers => "Hidden layers must be at least 1",
            Complaint::Neurons => "Neurons per layer must be at least 1",
            Complaint::LearningRate => "Learning rate must be greater than 0",
        }
    }
}

/// The state behind the training window: the progress received so far, the
/// four input texts, the parameters last submitted, and the phase.
#[derive(Debug)]
pub struct TrainingWindow {
    accuracies: Vec<u64>,
    losses: Vec<u64>,
    training_params: TrainingParams,
    epochs_input: String,
    hidden_layers_input: String,
    neurons_input: String,
    learning_rate_input: String,
    is_training: bool,
    training_completed: bool,
    first_run: bool,
}

impl View for TrainingWindow {
    type V = WindowState;

    closed spec fn view(&self) -> WindowState {
        WindowState {
            accuracies: self.accuracies@,
            losses: self.losses@,
            training_params: self.training_params,
            epochs_input: self.epochs_input@,
            hidden_layers_input: self.hidden_layers_input@,
            neurons_input: self.neurons_input@,
            learning_rate_input: self.learning_rate_input@,
            is_training: self.is_training,
            training_completed: self.training_completed,
            first_run: self.first_run,
        }
    }
}

impl TrainingWindow {
    /// A window before its first run: no progress, the default parameters,
    /// and the inputs filled in with them.
    pub fn new() -> (window: TrainingWindow)
        ensures
            window@ == (WindowState {
                accuracies: Seq::empty(),
                losses: Seq::empty(),
                training_params: TrainingParams {
                    epochs: 2000,
                    hidden_layers: 2,
                    neurons_per_layer: 32,
                    learning_rate: binary64::ONE_HALF,
                    restart_training: false,
                },
                epochs_input: "2000"@,
                hidden_layers_input: "2"@,
                neurons_input: "32"@,
                learning_rate_input: "0.5"@,
                is_training: false,
                training_completed: false,
                first_run: true,
            }),
            window@.wf(),
            window@.status() == Status::FirstRun,
    {
        TrainingWindow {
            accuracies: Vec::new(),
            losses: Vec::new(),
            training_params: TrainingParams::default(),
            epochs_input: "2000".to_owned(),
            hidden_layers_input: "2".to_owned(),
            neurons_input: "32".to_owned(),
            learning_rate_input: "0.5".to_owned(),
            is_training: false,
            training_completed: false,
            first_run: true,
        }
    }

    /// Takes in one progress point: both histories grow by it, and the window
    /// shows training from now on.
    pub fn receive(&mut self, accuracy: u64, loss: u64)
        ensures
            final(self)@ == old(self)@.received(accuracy, loss),
            old(self)@.wf() ==> final(self)@.wf(),
    {
        self.accuracies.push(accuracy);
        self.losses.push(loss);
        self.is_training = true;
        self.training_completed = false;
        self.first_run = false;
    }

    /// Ends a frame. `received_data` says whether any progress arrived in it,
    /// `quiet_nanos` how long ago the last progress arrived.
    ///
    /// A training that is shown as running, got no news in this frame and
    /// none for more than two seconds is from now on shown as completed;
    /// the result says whether this happened. Nothing else changes.
    pub fn settle(&mut self, received_data: bool, quiet_nanos: u128) -> (completed_now: bool)
        ensures
            completed_now == old(self)@.falls_quiet(received_data, quiet_nanos),
            completed_now ==> final(self)@ == (WindowState {
                is_training: false,
                training_completed: true,
                ..old(self)@
            }),
            !completed_now ==> final(self)@ == old(self)@,
            old(self)@.wf() ==> final(self)@.wf(),
    {
        if self.is_training && !received_data && quiet_nanos > QUIET_NANOS
            && !self.training_completed {
            self.is_training = false;
            self.training_completed = true;
            true
        } else {
            false
        }
    }

    /// Handles a click on the button. `learning_rate` is what the
    /// learning-rate input reads as, if it reads as a number at all; the
    /// three counts are read here.
    ///
    /// Only an accepted submission changes the window: it then holds the
    /// accepted parameters, both histories are empty, and neither training
    /// nor completion is shown. The inputs stay as typed.
    pub fn submit(&mut self, learning_rate: Option<u64>) -> (outcome: Submission)
        ensures
            outcome == old(self)@.verdict(learning_rate),
            match outcome {
                Submission::Accepted(params) => params.valid() && final(self)@ == (WindowState {
                    accuracies: Seq::empty(),
                    losses: Seq::empty(),
                    training_params: params,
                    is_training: false,
                    training_completed: false,
                    ..old(self)@
                }),
                _ => final(self)@ == old(self)@,
            },
            old(self)@.wf() ==> final(self)@.wf(),
    {
        let epochs = parse_count(self.epochs_input.as_str().as_bytes());
        let hidden_layers = parse_count(self.hidden_layers_input.as_str().as_bytes());
        let neurons = parse_count(self.neurons_input.as_str().as_bytes());
        let outcome = assess(self.is_training, epochs, hidden_layers, neurons, learning_rate);
        match outcome {
            Submission::Accepted(params) => {
                self.training_params = params;
                self.accuracies.clear();
                self.losses.clear();
                self.is_training = false;
                self.training_completed = false;
            },
            _ => {},
        }
        outcome
    }

    /// The phase to show.
    pub fn status(&self) -> (status: Status)
        ensures
            status == self@.status(),
    {
        if self.is_training {
            Status::Training
        } else if self.training_completed {
            Status::Completed
        } else if self.first_run {
            Status::FirstRun
        } else {
            Status::Inactive
        }
    }

    /// What the button says.
    pub fn button_text(&self) -> (text: &'static str)
        ensures
            text@ == if self@.first_run {
                "Start Training"@
            } else if self@.training_completed {
                "Restart Training with New Parameters"@
            } else if self@.is_training {
                "Update Parameters After Training"@
            } else {
                "Start Training"@
            },
    {
        if self.first_run {
            "Start Training"
        } else if self.training_completed {
            "Restart Training with New Parameters"
        } else if self.is_training {
            "Update Parameters After Training"
        } else {
            "Start Training"
        }
    }
    /// The accuracies received since the last accepted submission, oldest
    /// first.
    pub fn accuracies(&self) -> (values: &Vec<u64>)
        ensures
            values@ == self@.accuracies,
    {
        &self.accuracies
    }

    /// The losses received since the last accepted submission, oldest first.
    pub fn losses(&self) -> (values: &Vec<u64>)
        ensures
            values@ == self@.losses,
    {
        &self.losses
    }

    /// The parameters last accepted; the defaults before that.
    pub fn training_params(&self) -> (params: TrainingParams)
        ensures
            params == self@.training_params,
    {
        self.training_params
    }

    /// Whether progress is arriving.
    pub fn is_training(&self) -> (r: bool)
        ensures
            r == self@.is_training,
    {
        self.is_training
    }

    /// Whether progress arrived and then stopped.
    pub fn training_completed(&self) -> (r: bool)
        ensures
            r == self@.training_completed,
    {
        self.training_completed
    }

    /// Whether no progress has ever arrived.
    pub fn first_run(&self) -> (r: bool)
        ensures
            r == self@.first_run,
    {
        self.first_run
    }

    /// The text of the epochs input.
    pub fn epochs_input(&self) -> (text: &String)
        ensures
            text@ == self@.epochs_input,
    {
        &self.epochs_input
    }

    /// The text of the hidden-layers input.
    pub fn hidden_layers_input(&self) -> (text: &String)
        ensures
            text@ == self@.hidden_layers_input,
    {
        &self.hidden_layers_input
    }

    /// The text of the neurons input.
    pub fn neurons_input(&self) -> (text: &String)
        ensures
            text@ == self@.neurons_input,
    {
        &self.neurons_input
    }

    /// The text of the learning-rate input.
    pub fn learning_rate_input(&self) -> (text: &String)
        ensures
            text@ == self@.learning_rate_input,
    {
        &self.learning_rate_input
    }

    /// Replaces the text of the epochs input.
    pub fn set_epochs_input(&mut self, text: String)
        ensures
            final(self)@ == (WindowState { epochs_input: text@, ..old(self)@ }),
    {
        self.epochs_input = text;
    }

    /// Replaces the text of the hidden-layers input.
    pub fn set_hidden_layers_input(&mut self, text: String)
        ensures
            final(self)@ == (WindowState { hidden_layers_input: text@, ..old(self)@ }),
    {
        self.hidden_layers_input = text;
    }

    /// Replaces the text of the neurons input.
    pub fn set_neurons_input(&mut self, text: String)
        ensures
            final(self)@ == (WindowState { neurons_input: text@, ..old(self)@ }),
    {
        self.neurons_input = text;
    }

    /// Replaces the text of the learning-rate input.
    pub fn set_learning_rate_input(&mut self, text: String)
        ensures
            final(self)@ == (WindowState { learning_rate_input: text@, ..old(self)@ }),
    {
        self.learning_rate_input = text;
    }
}

} // verus!
