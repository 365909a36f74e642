//! What the trainer reports: how many samples it got right, and the progress
//! values it hands to its observer.

use vstd::prelude::*;
use crate::binary64;
use crate::predictor::potable;

verus! {

/// The number of samples on which the verdict drawn from the probability is
/// the sample's label.
pub open spec fn agreements(probabilities: Seq<u64>, labels: Seq<bool>) -> nat
    recommends
        probabilities.len() == labels.len(),
    decreases probabilities.len(),
{
    if probabilities.len() == 0 || labels.len() == 0 {
        0
    } else {
        let before = agreements(probabilities.drop_last(), labels.drop_last());
        if potable(probabilities.last()) == labels.last() {
            before + 1
        } else {
            before
        }
    }
}

/// Accuracy stays within its bounds and never falls as samples are added:
/// the samples got right among the first `n` are no more than `n`, and no
/// more than those got right among all.
pub proof fn lemma_agreements_bounded(probabilities: Seq<u64>, labels: Seq<bool>, n: int)
    requires
        probabilities.len() == labels.len(),
        0 <= n <= probabilities.len(),
    ensures
        agreements(probabilities.take(n), labels.take(n)) <= n,
        agreements(probabilities.take(n), labels.take(n)) <= agreements(probabilities, labels),
        agreements(probabilities, labels) <= probabilities.len(),
    decreases probabilities.len(),
{
    if probabilities.len() == 0 {
        assert(probabilities.take(n) =~= probabilities);
        assert(labels.take(n) =~= labels);
    } else {
        let p = probabilities.drop_last();
        let l = labels.drop_last();
        if n == probabilities.len() {
            assert(probabilities.take(n) =~= probabilities);
            assert(labels.take(n) =~= labels);
            lemma_agreements_bounded(p, l, n - 1);
        } else {
            lemma_agreements_bounded(p, l, n);
            assert(p.take(n) =~= probabilities.take(n));
            assert(l.take(n) =~= labels.take(n));
        }
    }
}

/// Counts the samples that the network got right, given the probability it
/// gave for each and the label of each. Without a label for every
/// probability there is nothing to count.
pub fn count_correct(probabilities: &[u64], labels: &[bool]) -> (correct: Option<usize>)
    ensures
        probabilities@.len() == labels@.len() ==> correct == Some(
            agreements(probabilities@, labels@) as usize,
        ) && agreements(probabilities@, labels@) <= probabilities@.len(),
        probabilities@.len() != labels@.len() ==> correct is None,
{
    let n = probabilities.len();
    if labels.len() != n {
        return None;
    }
    let mut correct: usize = 0;
    let mut i: usize = 0;
    while i < n
        invariant
            i <= n,
            n == probabilities@.len(),
            n == labels@.len(),
            correct == agreements(probabilities@.take(i as int), labels@.take(i as int)),
            correct <= i,
        decreases n - i,
    {
        assert(probabilities@.take(i + 1).drop_last() =~= probabilities@.take(i as int));
        assert(labels@.take(i + 1).drop_last() =~= labels@.take(i as int));
        let verdict = binary64::le(binary64::ONE_HALF, probabilities[i]);
        if verdict == labels[i] {
            correct = correct + 1;
        }
        i = i + 1;
    }
    assert(probabilities@.take(n as int) =~= probabilities@);
    assert(labels@.take(n as int) =~= labels@);
    Some(correct)
}

/// A percentage: a number from zero to one hundred, both included.
pub open spec fn is_percentage(bits: u64) -> bool {
    binary64::at_most(binary64::ZERO, bits) && binary64::at_most(bits, binary64::ONE_HUNDRED)
}

/// A loss: a number that is not below zero. Positive infinity is one.
pub open spec fn is_loss(bits: u64) -> bool {
    binary64::at_most(binary64::ZERO, bits)
}

/// One progress report: the epoch it was made after, the accuracy reached in
/// percent and the loss, both as binary64 bit patterns.
///
/// Every value of this type holds an epoch of at least one, an accuracy from
/// zero to one hundred, and a loss that is not below zero.
#[derive(Clone, Copy, Debug)]
pub struct TrainingProgress {
    epoch: usize,
    accuracy: u64,
    loss: u64,
}

impl TrainingProgress {
    #[verifier::type_invariant]
    spec fn in_bounds(self) -> bool {
        self.epoch >= 1 && is_percentage(self.accuracy) && is_loss(self.loss)
    }

    pub closed spec fn spec_epoch(self) -> usize {
        self.epoch
    }

    pub closed spec fn spec_accuracy(self) -> u64 {
        self.accuracy
    }

    pub closed spec fn spec_loss(self) -> u64 {
        self.loss
    }

    /// Makes a report, where the values are within their bounds.
    pub fn new(epoch: usize, accuracy: u64, loss: u64) -> (progress: Option<TrainingProgress>)
        ensures
            epoch >= 1 && is_percentage(accuracy) && is_loss(loss) ==> progress is Some
                && progress->0.spec_epoch() == epoch && progress->0.spec_accuracy() == accuracy
                && progress->0.spec_loss() == loss,
            !(epoch >= 1 && is_percentage(accuracy) && is_loss(loss)) ==> progress is None,
    {
        if epoch >= 1 && binary64::le(binary64::ZERO, accuracy) && binary64::le(
            accuracy,
            binary64::ONE_HUNDRED,
        ) && binary64::le(binary64::ZERO, loss) {
            Some(TrainingProgress { epoch, accuracy, loss })
        } else {
            None
        }
    }

    /// The epoch after which the report was made; at least one.
    pub fn epoch(&self) -> (epoch: usize)
        ensures
            epoch == self.spec_epoch(),
            epoch >= 1,
    {
        proof {
            use_type_invariant(self);
        }
        self.epoch
    }

    /// The accuracy in percent; from zero to one hundred.
    pub fn accuracy(&self) -> (accuracy: u64)
        ensures
            accuracy == self.spec_accuracy(),
            is_percentage(accuracy),
    {
        proof {
            use_type_invariant(self);
        }
        self.accuracy
    }

    /// The loss; not below zero.
    pub fn loss(&self) -> (loss: u64)
        ensures
            loss == self.spec_loss(),
            is_loss(loss),
    {
        proof {
            use_type_invariant(self);
        }
        self.loss
    }
}

} // verus!
