//! The predictor's two decisions: which requests are served, and what a
//! probability means.
//!
//! The forward pass between the two is the caller's.

use vstd::prelude::*;
use crate::binary64;
use crate::topology::INPUT_DIM;

verus! {

/// Why a prediction request was not served. Either way the predictor goes on
/// serving the requests that follow.
#[derive(Clone, Copy, Debug, PartialEq, Eq, Structural)]
pub enum PredictError {
    /// The request does not hold nine measurements.
    DimensionMismatch,
    /// No training has completed yet.
    NetworkNotReady,
}

impl PredictError {
    /// The error in words.
    pub fn message(&self) -> (text: &'static str)
        ensures
            text@ == match *self {
                PredictError::DimensionMismatch => "expected 9 features"@,
                PredictError::NetworkNotReady => "no trained network is available yet"@,
            },
    {
        match self {
            PredictError::DimensionMismatch => "expected 9 features",
            PredictError::NetworkNotReady => "no trained network is available yet",
        }
    }
}

/// Whether a request of `feature_len` measurements is served, given whether
/// a trained network is at hand. The length is judged first: a request of the
/// wrong length is a dimension mismatch whatever the state of training.
pub open spec fn admission(feature_len: nat, network_ready: bool) -> Result<(), PredictError> {
    if feature_len != INPUT_DIM {
        Err(PredictError::DimensionMismatch)
    } else if !network_ready {
        Err(PredictError::NetworkNotReady)
    } else {
        Ok(())
    }
}

/// Judges a prediction request before any arithmetic is done on it.
pub fn check_request(feature_len: usize, network_ready: bool) -> (r: Result<(), PredictError>)
    ensures
        r == admission(feature_len as nat, network_ready),
        feature_len == INPUT_DIM ==> r != Err::<(), PredictError>(PredictError::DimensionMismatch),
        feature_len != INPUT_DIM ==> r == Err::<(), PredictError>(PredictError::DimensionMismatch),
{
    if feature_len != INPUT_DIM {
        Err(PredictError::DimensionMismatch)
    } else if !network_ready {
        Err(PredictError::NetworkNotReady)
    } else {
        Ok(())
    }
}

/// A number from zero to one, both included.
pub open spec fn is_probability(bits: u64) -> bool {
    binary64::at_most(binary64::ZERO, bits) && binary64::at_most(bits, binary64::ONE)
}

/// Whether a probability says potable: at one half and above.
pub open spec fn potable(probability: u64) -> bool {
    binary64::at_most(binary64::ONE_HALF, probability)
}

/// What the predictor answers: the probability of potability, as a binary64
/// bit pattern, and the verdict drawn from it.
#[derive(Clone, Copy, Debug, PartialEq, Eq, Structural)]
pub struct PredictionResult {
    pub is_potable: bool,
    pub probability: u64,
}

impl PredictionResult {
    /// The probability is one, and the verdict is the one it gives.
    pub open spec fn valid(&self) -> bool {
        is_probability(self.probability) && self.is_potable == potable(self.probability)
    }

    /// The verdict in words.
    pub fn verdict(&self) -> (text: &'static str)
        ensures
            text@ == if self.is_potable {
                "POTABLE"@
            } else {
                "NOT POTABLE"@
            },
    {
        if self.is_potable {
            "POTABLE"
        } else {
            "NOT POTABLE"
        }
    }
}

/// Whether the pattern encodes a number from zero to one.
pub fn is_unit_interval(bits: u64) -> (r: bool)
    ensures
        r == is_probability(bits),
{
    binary64::le(binary64::ZERO, bits) && binary64::le(bits, binary64::ONE)
}

/// Draws the verdict from the network's output.
///
/// Every number from zero to one gets a result, potable exactly from one
/// half upwards; anything else is no probability and gets none.
pub fn classify(probability: u64) -> (result: Option<PredictionResult>)
    ensures
        is_probability(probability) ==> result == Some(
            PredictionResult { is_potable: potable(probability), probability },
        ) && result->0.valid(),
        !is_probability(probability) ==> result is None,
{
    if is_unit_interval(probability) {
        Some(
            PredictionResult {
                is_potable: binary64::le(binary64::ONE_HALF, probability),
                probability,
            },
        )
    } else {
        None
    }
}

} // verus!
