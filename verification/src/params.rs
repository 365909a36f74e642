//! Hyperparameters of one training cycle.

use vstd::prelude::*;
use crate::binary64;
use crate::text::{count_of, parse_count};

verus! {

/// What a training cycle is run with.
///
/// An observer fills one in and sets `restart_training`; the trainer takes it
/// with [`TrainingParams::take_restart`], which clears the trigger.
#[derive(Clone, Copy, Debug, PartialEq, Eq, Structural)]
pub struct TrainingParams {
    /// Passes over the dataset; at least one.
    pub epochs: usize,
    /// Hidden layers of the network; at least one.
    pub hidden_layers: usize,
    /// Width of each hidden layer; at least one.
    pub neurons_per_layer: usize,
    /// Step of the gradient descent, a positive real number as a binary64
    /// bit pattern.
    pub learning_rate: u64,
    /// Set by the observer to ask for a fresh training cycle.
    pub restart_training: bool,
}

impl TrainingParams {
    /// Every count is at least one and the learning rate is a positive real
    /// number.
    pub open spec fn valid(&self) -> bool {
        &&& self.epochs >= 1
        &&& self.hidden_layers >= 1
        &&& self.neurons_per_layer >= 1
        &&& binary64::positive_real(self.learning_rate)
    }

    /// The same parameters with the restart trigger cleared.
    pub open spec fn consumed(&self) -> TrainingParams {
        TrainingParams {
            epochs: self.epochs,
            hidden_layers: self.hidden_layers,
            neurons_per_layer: self.neurons_per_layer,
            learning_rate: self.learning_rate,
            restart_training: false,
        }
    }

    /// Whether a training cycle can be run with these parameters.
    pub fn is_valid(&self) -> (r: bool)
        ensures
            r == self.valid(),
    {
        self.epochs >= 1 && self.hidden_layers >= 1 && self.neurons_per_layer >= 1
            && binary64::is_positive_real(self.learning_rate)
    }

    /// Consumes a pending restart request.
    ///
    /// Where the trigger is set, hands out the parameters to train with and
    /// clears the trigger, so that one request starts one cycle. Where it is
    /// not set, nothing changes and nothing is handed out.
    pub fn take_restart(&mut self) -> (taken: Option<TrainingParams>)
        ensures
            *final(self) == old(self).consumed(),
            old(self).restart_training ==> taken == Some(old(self).consumed()),
            !old(self).restart_training ==> taken is None,
    {
        if self.restart_training {
            self.restart_training = false;
            Some(*self)
        } else {
            None
        }
    }

    /// Takes over what an observer typed, field by field, and asks for a
    /// restart.
    ///
    /// A count is replaced where its text reads as a count of at least one,
    /// the learning rate where one was read and is a positive real number.
    /// Every other parameter stays as it was. The restart trigger is set in
    /// any case.
    pub fn apply_inputs(
        &mut self,
        epochs: &[u8],
        hidden_layers: &[u8],
        neurons_per_layer: &[u8],
        learning_rate: Option<u64>,
    )
        ensures
            final(self).epochs == positive_or(count_of(epochs@), old(self).epochs),
            final(self).hidden_layers == positive_or(
                count_of(hidden_layers@),
                old(self).hidden_layers,
            ),
            final(self).neurons_per_layer == positive_or(
                count_of(neurons_per_layer@),
                old(self).neurons_per_layer,
            ),
            final(self).learning_rate == match learning_rate {
                Some(rate) if binary64::positive_real(rate) => rate,
                _ => old(self).learning_rate,
            },
            final(self).restart_training,
            old(self).valid() ==> final(self).valid(),
    {
        self.epochs = count_or(epochs, self.epochs);
        self.hidden_layers = count_or(hidden_layers, self.hidden_layers);
        self.neurons_per_layer = count_or(neurons_per_layer, self.neurons_per_layer);
        match learning_rate {
            Some(rate) => {
                if binary64::is_positive_real(rate) {
                    self.learning_rate = rate;
                }
            },
            None => {},
        }
        self.restart_training = true;
    }
}

/// The count that was read, where there is one of at least one; else the
/// fallback.
pub open spec fn positive_or(read: Option<nat>, fallback: usize) -> usize {
    match read {
        Some(v) if v >= 1 => v as usize,
        _ => fallback,
    }
}

/// The count that the text writes, where it writes one of at least one; else
/// the fallback.
pub fn count_or(text: &[u8], fallback: usize) -> (r: usize)
    ensures
        r == positive_or(count_of(text@), fallback),
{
    match parse_count(text) {
        Some(v) => {
            if v >= 1 {
                v
            } else {
                fallback
            }
        },
        None => fallback,
    }
}

impl Default for TrainingParams {
    /// Two thousand epochs, two hidden layers of thirty-two neurons, a
    /// learning rate of one half, and no restart asked for.
    fn default() -> (params: TrainingParams)
        ensures
            params == (TrainingParams {
                epochs: 2000,
                hidden_layers: 2,
                neurons_per_layer: 32,
                learning_rate: binary64::ONE_HALF,
                restart_training: false,
            }),
            params.valid(),
    {
        proof {
            binary64::lemma_magnitude_order(binary64::ONE_HALF, 0);
        }
        TrainingParams {
            epochs: 2000,
            hidden_layers: 2,
            neurons_per_layer: 32,
            learning_rate: binary64::ONE_HALF,
            restart_training: false,
        }
    }
}

} // verus!
