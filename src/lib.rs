//! Change-point detection: the EDM-X scan finds the split of a sequence where the medians
//! on either side differ most, and a permutation test says how surprising that split is.
use vstd::prelude::*;

pub mod candidate;
pub mod detector;
pub mod edm_x;
pub mod errors;
pub mod heap;
pub mod median;
pub mod numeric;
pub mod order;

pub use candidate::BestCandidate;
pub use detector::ChangePointDetector;
pub use edm_x::EDMX;
pub use errors::{Error, NonFinite, ParseNonNaNError};
pub use heap::{max_heap_cmp, min_heap_cmp, Heap, MaxHeap, MaxHeapItem, MinHeap, MinHeapItem};
pub use median::Heaps;
pub use numeric::HeapNum;
pub use order::TotalOrder;
pub use permutation_test::{evaluate_permutations, permutation_test, PermutationTestResult};

verus! {

} // verus!
