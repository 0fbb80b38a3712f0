use crate::order::{compare, spec_lt, TotalOrder};
use std::cmp::Ordering;
use vstd::prelude::*;

verus! {

/// A split of a sequence with its score. Candidates are ordered by score; between equal
/// scores the one at the smaller location ranks higher.
#[derive(Clone, Copy, Debug, PartialEq, Eq)]
pub struct BestCandidate<T> {
    pub statistic: T,
    pub location: usize,
}

impl<T: TotalOrder> TotalOrder for BestCandidate<T> {
    open spec fn spec_le(a: Self, b: Self) -> bool {
        spec_lt(a.statistic, b.statistic) || (a.statistic == b.statistic && b.location
            <= a.location)
    }

    proof fn lemma_reflexive(a: Self) {
    }

    proof fn lemma_transitive(a: Self, b: Self, c: Self) {
        if spec_lt(a.statistic, b.statistic) && spec_lt(b.statistic, c.statistic) {
            T::lemma_transitive(a.statistic, b.statistic, c.statistic);
            if a.statistic == c.statistic {
                T::lemma_antisymmetric(a.statistic, b.statistic);
            }
        }
    }

    proof fn lemma_antisymmetric(a: Self, b: Self) {
        if a.statistic != b.statistic {
            T::lemma_antisymmetric(a.statistic, b.statistic);
        }
    }

    proof fn lemma_total(a: Self, b: Self) {
        T::lemma_total(a.statistic, b.statistic);
    }

    fn le(&self, other: &Self) -> (r: bool) {
        match compare(&self.statistic, &other.statistic) {
            Ordering::Less => true,
            Ordering::Greater => false,
            Ordering::Equal => other.location <= self.location,
        }
    }
}

/// The greater of two values; the second when they are equal.
pub open spec fn spec_max<T: TotalOrder>(a: T, b: T) -> T {
    if T::spec_le(a, b) {
        b
    } else {
        a
    }
}

pub proof fn lemma_spec_max<T: TotalOrder>(a: T, b: T)
    ensures
        T::spec_le(a, spec_max(a, b)),
        T::spec_le(b, spec_max(a, b)),
        spec_max(a, b) == a || spec_max(a, b) == b,
{
    T::lemma_reflexive(a);
    T::lemma_reflexive(b);
    T::lemma_total(a, b);
}

} // verus!
