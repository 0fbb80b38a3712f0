use crate::candidate::{lemma_spec_max, spec_max, BestCandidate};
use crate::detector::ChangePointDetector;
use crate::errors::Error;
use crate::median::{median_of, Heaps};
use crate::numeric::HeapNum;
use crate::order::{spec_lt, TotalOrder};
use vstd::prelude::*;

verus! {

/// The median that a heap pair reports after the values `z[lo..hi]` were pushed in order.
pub open spec fn window_median<T: HeapNum>(z: Seq<T>, lo: int, hi: int) -> T {
    median_of(z.subrange(lo, hi))
}

/// The weight `i·(j−i)/j`, which keeps strongly unbalanced splits from scoring high.
pub open spec fn weight<T: HeapNum>(i: int, j: int) -> T {
    T::spec_from_ratio((i * (j - i)) as u128, j as u128)
}

/// The score of the split at `i` against the window `z[i..=j]`: the weight times the
/// square of the difference between the median of `z[0..=i]` and that of `z[i..=j]`.
pub open spec fn statistic<T: HeapNum>(z: Seq<T>, i: int, j: int) -> T {
    let d = T::spec_difference(window_median(z, 0, i + 1), window_median(z, i, j + 1));
    T::spec_product(weight::<T>(i, j), T::spec_product(d, d))
}

/// The greatest score of the split at `i` over the window ends `i + delta <= j < hi`.
pub open spec fn inner_best<T: HeapNum>(z: Seq<T>, delta: int, i: int, hi: int) -> T
    decreases hi - i - delta,
{
    if hi <= i + delta + 1 {
        statistic(z, i, i + delta)
    } else {
        spec_max(inner_best(z, delta, i, hi - 1), statistic(z, i, hi - 1))
    }
}

/// The split at `i` with its best score.
pub open spec fn split_candidate<T: HeapNum>(z: Seq<T>, delta: int, i: int) -> BestCandidate<T> {
    BestCandidate { statistic: inner_best(z, delta, i, z.len() as int), location: i as usize }
}

/// The best candidate over the splits `delta <= i < hi`.
pub open spec fn outer_best<T: HeapNum>(z: Seq<T>, delta: int, hi: int) -> BestCandidate<T>
    decreases hi - delta,
{
    if hi <= delta + 1 {
        split_candidate(z, delta, delta)
    } else {
        spec_max(outer_best(z, delta, hi - 1), split_candidate(z, delta, hi - 1))
    }
}

/// The best split of `z` with minimum segment length `delta`: the highest score over all
/// splits `delta <= i < len − delta`, the smallest such `i` among equal scores.
pub open spec fn edm_x_best<T: HeapNum>(z: Seq<T>, delta: int) -> BestCandidate<T> {
    outer_best(z, delta, z.len() - delta)
}

/// Scores the split at `i` against every window `z[i..=j]` with `j ≥ i + delta`, pushing
/// `z[j]` into a fresh heap pair as `j` advances.
fn inner_edm_x_loop<T: HeapNum>(left_median: T, delta: usize, z: &[T], i: usize) -> (r:
    BestCandidate<T>)
    requires
        1 <= delta <= i,
        i + delta < z@.len(),
        left_median == window_median(z@, 0, i + 1),
    ensures
        r == split_candidate(z@, delta as int, i as int),
{
    let n = z.len();
    let mut right_heaps: Heaps<T> = Heaps::new();
    let mut best: Option<T> = None;
    let mut j: usize = i;
    while j < n
        invariant
            n == z@.len(),
            1 <= delta <= i,
            i + delta < n,
            i <= j <= n,
            left_median == window_median(z@, 0, i + 1),
            right_heaps.wf(),
            right_heaps.pushed() == z@.subrange(i as int, j as int),
            j <= i + delta ==> best.is_none(),
            j > i + delta ==> best == Some(inner_best(z@, delta as int, i as int, j as int)),
        decreases n - j,
    {
        right_heaps.add_to_heaps(z[j]);
        proof {
            assert(z@.subrange(i as int, j as int).push(z@[j as int]) =~= z@.subrange(
                i as int,
                j + 1,
            ));
        }
        if j - i >= delta {
            let right_median = right_heaps.get_median();
            let median_diff = left_median.difference(&right_median);
            let median_diff_squared = median_diff.product(&median_diff);
            let left_len = i as u128;
            let right_len = (j - i) as u128;
            assert(left_len * right_len <= u64::MAX as u128 * u64::MAX as u128)
                by (nonlinear_arith)
                requires
                    left_len <= u64::MAX,
                    right_len <= u64::MAX,
            ;
            let stat_weight = T::from_ratio(left_len * right_len, j as u128);
            let stat = stat_weight.product(&median_diff_squared);
            best =
            match best {
                None => Some(stat),
                Some(b) => {
                    if b.le(&stat) {
                        Some(stat)
                    } else {
                        Some(b)
                    }
                },
            };
        }
        j = j + 1;
    }
    BestCandidate { statistic: best.unwrap(), location: i }
}

/// Finds the best split of `z`: a heap pair tracks the median of `z[0..=i]` as `i`
/// advances, and each split `delta <= i < len − delta` is scored by the inner scan.
fn edm_x<T: HeapNum>(z: &[T], delta: usize) -> (r: BestCandidate<T>)
    requires
        1 <= delta,
        2 * delta < z@.len(),
    ensures
        r == edm_x_best(z@, delta as int),
{
    let n = z.len();
    let mut left_heaps: Heaps<T> = Heaps::new();
    let mut best: Option<BestCandidate<T>> = None;
    let mut i: usize = 0;
    while i < n - delta
        invariant
            n == z@.len(),
            1 <= delta,
            2 * delta < n,
            i <= n - delta,
            left_heaps.wf(),
            left_heaps.pushed() == z@.subrange(0, i as int),
            i <= delta ==> best.is_none(),
            i > delta ==> best == Some(outer_best(z@, delta as int, i as int)),
        decreases n - i,
    {
        left_heaps.add_to_heaps(z[i]);
        proof {
            assert(z@.subrange(0, i as int).push(z@[i as int]) =~= z@.subrange(0, i + 1));
        }
        if i >= delta {
            let left_median = left_heaps.get_median();
            let inner_best_candidate = inner_edm_x_loop(left_median, delta, z, i);
            best =
            match best {
                None => Some(inner_best_candidate),
                Some(b) => {
                    if b.le(&inner_best_candidate) {
                        Some(inner_best_candidate)
                    } else {
                        Some(b)
                    }
                },
            };
        }
        i = i + 1;
    }
    best.unwrap()
}

/// The EDM-X change-point detector, with its minimum segment length `delta`.
#[derive(Clone, Copy, Debug)]
pub struct EDMX {
    delta: usize,
}

impl EDMX {
    #[verifier::type_invariant]
    spec fn inv(&self) -> bool {
        self.delta >= 1
    }

    /// The minimum segment length.
    pub closed spec fn spec_delta(&self) -> usize {
        self.delta
    }

    pub fn new(delta: usize) -> (r: Self)
        requires
            delta >= 1,
        ensures
            r.spec_delta() == delta,
    {
        EDMX { delta: delta }
    }
}

impl<T: HeapNum> ChangePointDetector<T> for EDMX {
    /// Too few values for one split (at most `2·delta`) is an error that carries the length
    /// and `delta`; otherwise the best split that the EDM-X scan finds.
    open spec fn spec_find_candidate(&self, observations: Seq<T>) -> Result<BestCandidate<T>, Error> {
        if observations.len() <= 2 * self.spec_delta() {
            Err(Error::NotEnoughValues(observations.len() as usize, self.spec_delta()))
        } else {
            Ok(edm_x_best(observations, self.spec_delta() as int))
        }
    }

    fn find_candidate(&self, observations: &[T]) -> (r: Result<BestCandidate<T>, Error>) {
        proof {
            use_type_invariant(self);
        }
        let n = observations.len();
        if n <= self.delta || n - self.delta <= self.delta {
            Err(Error::NotEnoughValues(n, self.delta))
        } else {
            Ok(edm_x(observations, self.delta))
        }
    }
}

proof fn lemma_inner_best<T: HeapNum>(z: Seq<T>, delta: int, i: int, hi: int)
    requires
        hi > i + delta,
    ensures
        forall|j: int| i + delta <= j < hi ==> T::spec_le(#[trigger] statistic(z, i, j), inner_best(z, delta, i, hi)),
        exists|j: int| i + delta <= j < hi && inner_best(z, delta, i, hi) == statistic(z, i, j),
    decreases hi - i - delta,
{
    if hi <= i + delta + 1 {
        T::lemma_reflexive(statistic(z, i, i + delta));
        assert(inner_best(z, delta, i, hi) == statistic(z, i, i + delta));
    } else {
        let prev = inner_best(z, delta, i, hi - 1);
        let last = statistic(z, i, hi - 1);
        lemma_inner_best(z, delta, i, hi - 1);
        lemma_spec_max(prev, last);
        assert forall|j: int| i + delta <= j < hi implies T::spec_le(#[trigger] statistic(z, i, j), inner_best(z, delta, i, hi)) by {
            if j < hi - 1 {
                T::lemma_transitive(statistic(z, i, j), prev, spec_max(prev, last));
            }
        }
        if spec_max(prev, last) == last {
            assert(inner_best(z, delta, i, hi) == statistic(z, i, hi - 1));
        } else {
            let j0 = choose|j: int| i + delta <= j < hi - 1 && prev == statistic(z, i, j);
            assert(inner_best(z, delta, i, hi) == statistic(z, i, j0));
        }
    }
}

proof fn lemma_outer_best<T: HeapNum>(z: Seq<T>, delta: int, hi: int)
    requires
        0 <= delta < hi <= usize::MAX,
    ensures
        delta <= outer_best(z, delta, hi).location < hi,
        outer_best(z, delta, hi) == split_candidate(z, delta, outer_best(z, delta, hi).location as int),
        forall|i: int| delta <= i < hi ==> BestCandidate::<T>::spec_le(#[trigger] split_candidate(z, delta, i), outer_best(z, delta, hi)),
    decreases hi - delta,
{
    if hi <= delta + 1 {
        BestCandidate::<T>::lemma_reflexive(split_candidate(z, delta, delta));
    } else {
        let prev = outer_best(z, delta, hi - 1);
        let last = split_candidate(z, delta, hi - 1);
        lemma_outer_best(z, delta, hi - 1);
        lemma_spec_max(prev, last);
        assert forall|i: int| delta <= i < hi implies BestCandidate::<T>::spec_le(#[trigger] split_candidate(z, delta, i), outer_best(z, delta, hi)) by {
            if i < hi - 1 {
                BestCandidate::<T>::lemma_transitive(split_candidate(z, delta, i), prev, spec_max(prev, last));
            }
        }
    }
}

/// The scan finds the best split: its score is reached by some window of its split, no
/// split and window score higher, and every split before it scores strictly lower.
pub proof fn lemma_best_split_is_maximal<T: HeapNum>(z: Seq<T>, delta: int)
    requires
        1 <= delta,
        2 * delta < z.len(),
        z.len() <= usize::MAX,
    ensures
        delta <= edm_x_best(z, delta).location < z.len() - delta,
        exists|j: int|
            edm_x_best(z, delta).location + delta <= j < z.len() && edm_x_best(z, delta).statistic
                == statistic(z, edm_x_best(z, delta).location as int, j),
        forall|i: int, j: int|
            delta <= i < z.len() - delta && i + delta <= j < z.len() ==> T::spec_le(
                #[trigger] statistic(z, i, j),
                edm_x_best(z, delta).statistic,
            ),
        forall|i: int, j: int|
            delta <= i < edm_x_best(z, delta).location && i + delta <= j < z.len() ==> spec_lt(
                #[trigger] statistic(z, i, j),
                edm_x_best(z, delta).statistic,
            ),
{
    let n = z.len() as int;
    let b = edm_x_best(z, delta);
    lemma_outer_best(z, delta, n - delta);
    lemma_inner_best(z, delta, b.location as int, n);
    assert forall|i: int, j: int| delta <= i < n - delta && i + delta <= j < n implies T::spec_le(
        #[trigger] statistic(z, i, j),
        b.statistic,
    ) by {
        let c = split_candidate(z, delta, i);
        lemma_inner_best(z, delta, i, n);
        assert(BestCandidate::<T>::spec_le(c, b));
        if c.statistic == b.statistic {
        } else {
            T::lemma_transitive(statistic(z, i, j), c.statistic, b.statistic);
        }
    }
    assert forall|i: int, j: int| delta <= i < b.location && i + delta <= j < n implies spec_lt(
        #[trigger] statistic(z, i, j),
        b.statistic,
    ) by {
        let c = split_candidate(z, delta, i);
        lemma_inner_best(z, delta, i, n);
        assert(BestCandidate::<T>::spec_le(c, b));
        T::lemma_transitive(statistic(z, i, j), c.statistic, b.statistic);
        if statistic(z, i, j) == b.statistic {
            T::lemma_antisymmetric(c.statistic, b.statistic);
        }
    }
}

/// Input validation: a sequence shorter than twice the minimum segment length is
/// refused with its length and that minimum.
pub proof fn lemma_too_short_fails<T: HeapNum>(detector: EDMX, observations: Seq<T>)
    requires
        observations.len() < 2 * detector.spec_delta(),
    ensures
        <EDMX as ChangePointDetector<T>>::spec_find_candidate(&detector, observations) == Err::<
            BestCandidate<T>,
            Error,
        >(Error::NotEnoughValues(observations.len() as usize, detector.spec_delta())),
{
}

/// Idempotence: scanning the same sequence twice gives the same result.
pub proof fn lemma_find_candidate_idempotent<T, B: ChangePointDetector<T>>(
    detector: B,
    first: Seq<T>,
    second: Seq<T>,
)
    requires
        first == second,
    ensures
        detector.spec_find_candidate(first) == detector.spec_find_candidate(second),
{
}

} // verus!
