use crate::candidate::BestCandidate;
use crate::errors::Error;
use vstd::prelude::*;

verus! {

/// A change-point detector: it scores the best split of a sequence of observations.
pub trait ChangePointDetector<T> {
    /// What the detector finds in `observations`.
    spec fn spec_find_candidate(&self, observations: Seq<T>) -> Result<BestCandidate<T>, Error>;

    fn find_candidate(&self, observations: &[T]) -> (r: Result<BestCandidate<T>, Error>)
        ensures
            r == self.spec_find_candidate(observations@),
    ;
}

} // verus!
