//! The dataset as the trainer and the predictor hold it: samples of nine
//! measurements and a label, and the statistics that every sample and every
//! later request is normalized with.
//!
//! All numbers are binary64 bit patterns. Computing means and deviations, and
//! normalizing with them, is the caller's; what is fixed here is which
//! values may enter, and the rule for a feature that never varies.

use vstd::prelude::*;
use crate::binary64;
use crate::records::DataError;
use crate::topology::INPUT_DIM;

verus! {

/// Every pattern encodes a real number.
pub open spec fn all_finite(values: Seq<u64>) -> bool {
    forall|i: int| 0 <= i < values.len() ==> binary64::finite(#[trigger] values[i])
}

/// Every pattern encodes a real number that is not below zero.
pub open spec fn all_deviations(values: Seq<u64>) -> bool {
    forall|i: int|
        0 <= i < values.len() ==> binary64::finite(#[trigger] values[i]) && binary64::at_most(
            binary64::ZERO,
            values[i],
        )
}

/// The deviation to divide by: one in place of a zero of either sign, so
/// that a feature that never varies is left where it is; else the deviation
/// itself.
pub open spec fn guarded(deviation: u64) -> u64 {
    if binary64::magnitude(deviation) == 0 {
        binary64::ONE
    } else {
        deviation
    }
}

/// The deviation to divide by.
pub fn guard_deviation(deviation: u64) -> (r: u64)
    ensures
        r == guarded(deviation),
        binary64::finite(deviation) && binary64::at_most(binary64::ZERO, deviation)
            ==> binary64::positive_real(r),
{
    proof {
        binary64::lemma_constants();
        binary64::lemma_magnitude_order(binary64::ONE, 0);
        if binary64::magnitude(deviation) <= binary64::INFINITY {
            binary64::lemma_magnitude_order(binary64::magnitude(deviation), 0);
        }
    }
    if binary64::abs(deviation) == 0 {
        binary64::ONE
    } else {
        deviation
    }
}

fn finite_all(values: &[u64; 9]) -> (r: bool)
    ensures
        r == all_finite(values@),
{
    let mut i: usize = 0;
    while i < INPUT_DIM
        invariant
            i <= INPUT_DIM,
            forall|k: int| 0 <= k < i ==> binary64::finite(#[trigger] values@[k]),
        decreases INPUT_DIM - i,
    {
        if !binary64::is_finite(values[i]) {
            return false;
        }
        i = i + 1;
    }
    true
}

/// A sample as contracts see it.
pub ghost struct SampleView {
    pub features: Seq<u64>,
    pub label: bool,
}

/// One water sample: nine measurements, all real numbers, and whether the
/// water was potable. It does not change once made.
#[derive(Clone, Copy, Debug)]
pub struct Sample {
    features: [u64; 9],
    label: bool,
}

impl View for Sample {
    type V = SampleView;

    closed spec fn view(&self) -> SampleView {
        SampleView { features: self.features@, label: self.label }
    }
}

impl Sample {
    #[verifier::type_invariant]
    spec fn measured(self) -> bool {
        all_finite(self.features@)
    }

    /// Makes a sample, where every measurement is a real number.
    pub fn new(features: [u64; 9], label: bool) -> (sample: Option<Sample>)
        ensures
            all_finite(features@) ==> sample is Some && sample->0@ == (SampleView {
                features: features@,
                label,
            }),
            !all_finite(features@) ==> sample is None,
    {
        if finite_all(&features) {
            Some(Sample { features, label })
        } else {
            None
        }
    }

    /// The nine measurements; each a real number.
    pub fn features(&self) -> (features: [u64; 9])
        ensures
            features@ == self@.features,
            all_finite(features@),
    {
        proof {
            use_type_invariant(self);
        }
        self.features
    }

    /// Whether the water was potable.
    pub fn label(&self) -> (label: bool)
        ensures
            label == self@.label,
    {
        self.label
    }
}

/// The statistics as contracts see them.
pub ghost struct NormalizationView {
    pub means: Seq<u64>,
    pub deviations: Seq<u64>,
}

/// Mean and deviation of each of the nine features, as every sample and
/// every later request is normalized with them. The means are real numbers,
/// the deviations real numbers above zero. They do not change once made.
#[derive(Clone, Copy, Debug)]
pub struct Normalization {
    means: [u64; 9],
    deviations: [u64; 9],
}

impl View for Normalization {
    type V = NormalizationView;

    closed spec fn view(&self) -> NormalizationView {
        NormalizationView { means: self.means@, deviations: self.deviations@ }
    }
}

impl Normalization {
    #[verifier::type_invariant]
    spec fn usable(self) -> bool {
        &&& all_finite(self.means@)
        &&& forall|i: int|
            0 <= i < INPUT_DIM ==> binary64::positive_real(#[trigger] self.deviations@[i])
    }

    /// Takes over the statistics of a dataset, where the means are real
    /// numbers and the deviations real numbers not below zero. A deviation
    /// of zero is replaced by one.
    pub fn new(means: [u64; 9], deviations: [u64; 9]) -> (stats: Option<Normalization>)
        ensures
            all_finite(means@) && all_deviations(deviations@) ==> stats is Some && stats->0@ == (
            NormalizationView {
                means: means@,
                deviations: deviations@.map_values(|d: u64| guarded(d)),
            }),
            !(all_finite(means@) && all_deviations(deviations@)) ==> stats is None,
    {
        if !finite_all(&means) {
            return None;
        }
        let mut kept = deviations;
        let mut i: usize = 0;
        while i < INPUT_DIM
            invariant
                i <= INPUT_DIM,
                forall|k: int|
                    0 <= k < i ==> binary64::finite(#[trigger] deviations@[k])
                        && binary64::at_most(binary64::ZERO, deviations@[k]),
                forall|k: int| 0 <= k < i ==> #[trigger] kept@[k] == guarded(deviations@[k]),
                forall|k: int| 0 <= k < i ==> binary64::positive_real(#[trigger] kept@[k]),
                forall|k: int| i <= k < INPUT_DIM ==> #[trigger] kept@[k] == deviations@[k],
            decreases INPUT_DIM - i,
        {
            let d = deviations[i];
            if !(binary64::is_finite(d) && binary64::le(binary64::ZERO, d)) {
                return None;
            }
            kept[i] = guard_deviation(d);
            i = i + 1;
        }
        assert(kept@ =~= deviations@.map_values(|d: u64| guarded(d)));
        Some(Normalization { means, deviations: kept })
    }

    /// The means; each a real number.
    pub fn means(&self) -> (means: [u64; 9])
        ensures
            means@ == self@.means,
            all_finite(means@),
    {
        proof {
            use_type_invariant(self);
        }
        self.means
    }

    /// The deviations to divide by; each a real number above zero.
    pub fn deviations(&self) -> (deviations: [u64; 9])
        ensures
            deviations@ == self@.deviations,
            forall|i: int|
                0 <= i < INPUT_DIM ==> binary64::positive_real(#[trigger] deviations@[i]),
    {
        proof {
            use_type_invariant(self);
        }
        self.deviations
    }
}

/// A dataset as contracts see it.
pub ghost struct DatasetView {
    pub samples: Seq<SampleView>,
    pub normalization: NormalizationView,
}

/// The samples as contracts see them.
pub open spec fn sample_views(samples: Seq<Sample>) -> Seq<SampleView> {
    samples.map_values(|s: Sample| s@)
}

/// The loaded samples, in the order of their source, and the statistics
/// derived from them. There is at least one sample, and nothing changes once
/// the dataset is made.
#[derive(Debug)]
pub struct Dataset {
    samples: Vec<Sample>,
    normalization: Normalization,
}

impl View for Dataset {
    type V = DatasetView;

    closed spec fn view(&self) -> DatasetView {
        DatasetView { samples: sample_views(self.samples@), normalization: self.normalization@ }
    }
}

impl Dataset {
    #[verifier::type_invariant]
    spec fn inhabited(self) -> bool {
        self.samples@.len() >= 1
    }

    /// Makes a dataset of the samples that were read and their statistics.
    /// Without a sample no row of the source could be used.
    pub fn new(samples: Vec<Sample>, normalization: Normalization) -> (r: Result<
        Dataset,
        DataError,
    >)
        ensures
            samples@.len() >= 1 ==> r is Ok && r->Ok_0@ == (DatasetView {
                samples: sample_views(samples@),
                normalization: normalization@,
            }),
            samples@.len() == 0 ==> r is Err && r->Err_0 == DataError::AllRowsMalformed,
    {
        if samples.len() == 0 {
            Err(DataError::AllRowsMalformed)
        } else {
            Ok(Dataset { samples, normalization })
        }
    }

    /// The number of samples; at least one.
    pub fn len(&self) -> (n: usize)
        ensures
            n == self@.samples.len(),
            n >= 1,
    {
        proof {
            use_type_invariant(self);
        }
        self.samples.len()
    }

    /// The sample at `index`, if there is one.
    pub fn sample(&self, index: usize) -> (sample: Option<Sample>)
        ensures
            index < self@.samples.len() ==> sample is Some && sample->0@
                == self@.samples[index as int],
            index >= self@.samples.len() ==> sample is None,
    {
        if index < self.samples.len() {
            Some(self.samples[index])
        } else {
            None
        }
    }

    /// The statistics to normalize with.
    pub fn normalization(&self) -> (stats: Normalization)
        ensures
            stats@ == self@.normalization,
    {
        self.normalization
    }
}

} // verus!
