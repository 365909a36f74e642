//! Verified core of a water-potability classifier: everything the trainer,
//! the predictor and their observers decide on integers, booleans and bytes.
//!
//! Real numbers cross this library as IEEE 754 binary64 bit patterns held in
//! `u64`; see [`binary64`].

pub mod binary64;
pub mod dataset;
pub mod params;
pub mod plot;
pub mod predictor;
pub mod progress;
pub mod records;
pub mod schedule;
pub mod session;
pub mod text;
pub mod topology;
pub mod window;
