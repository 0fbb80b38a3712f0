use crate::order::{compare, le_fn, spec_order, TotalOrder};
use std::cmp::Ordering;
use vstd::prelude::*;
use vstd::relations::sorted_by;

verus! {

/// An item of a min-heap. Its order is the reverse of its value's, so that a heap of
/// such items hands out the smallest value first.
#[derive(Clone, Copy, Debug)]
pub struct MinHeapItem<T>(pub T);

/// An item of a max-heap, ordered as its value is: the heap hands out the largest first.
#[derive(Clone, Copy, Debug)]
pub struct MaxHeapItem<T>(pub T);

/// Compares two min-heap items: the smaller value is the greater item.
pub fn min_heap_cmp<T: TotalOrder>(this: &MinHeapItem<T>, other: &MinHeapItem<T>) -> (r: Ordering)
    ensures
        r == spec_order(other.0, this.0),
{
    compare(&other.0, &this.0)
}

/// Compares two max-heap items by their values.
pub fn max_heap_cmp<T: TotalOrder>(this: &MaxHeapItem<T>, other: &MaxHeapItem<T>) -> (r: Ordering)
    ensures
        r == spec_order(this.0, other.0),
{
    compare(&this.0, &other.0)
}

impl<T: TotalOrder> TotalOrder for MinHeapItem<T> {
    open spec fn spec_le(a: Self, b: Self) -> bool {
        T::spec_le(b.0, a.0)
    }

    proof fn lemma_reflexive(a: Self) {
        T::lemma_reflexive(a.0);
    }

    proof fn lemma_transitive(a: Self, b: Self, c: Self) {
        T::lemma_transitive(c.0, b.0, a.0);
    }

    proof fn lemma_antisymmetric(a: Self, b: Self) {
        T::lemma_antisymmetric(a.0, b.0);
    }

    proof fn lemma_total(a: Self, b: Self) {
        T::lemma_total(a.0, b.0);
    }

    fn le(&self, other: &Self) -> (r: bool) {
        proof {
            T::lemma_reflexive(self.0);
        }
        match min_heap_cmp(self, other) {
            Ordering::Greater => false,
            _ => true,
        }
    }
}

impl<T: TotalOrder> TotalOrder for MaxHeapItem<T> {
    open spec fn spec_le(a: Self, b: Self) -> bool {
        T::spec_le(a.0, b.0)
    }

    proof fn lemma_reflexive(a: Self) {
        T::lemma_reflexive(a.0);
    }

    proof fn lemma_transitive(a: Self, b: Self, c: Self) {
        T::lemma_transitive(a.0, b.0, c.0);
    }

    proof fn lemma_antisymmetric(a: Self, b: Self) {
        T::lemma_antisymmetric(a.0, b.0);
    }

    proof fn lemma_total(a: Self, b: Self) {
        T::lemma_total(a.0, b.0);
    }

    fn le(&self, other: &Self) -> (r: bool) {
        proof {
            T::lemma_reflexive(self.0);
        }
        match max_heap_cmp(self, other) {
            Ordering::Greater => false,
            _ => true,
        }
    }
}

impl<T> From<T> for MinHeapItem<T> {
    fn from(source: T) -> (r: Self) {
        MinHeapItem(source)
    }
}

impl<T> vstd::std_specs::convert::FromSpecImpl<T> for MinHeapItem<T> {
    open spec fn obeys_from_spec() -> bool {
        true
    }

    open spec fn from_spec(v: T) -> Self {
        MinHeapItem(v)
    }
}

impl<T> From<T> for MaxHeapItem<T> {
    fn from(source: T) -> (r: Self) {
        MaxHeapItem(source)
    }
}

impl<T> vstd::std_specs::convert::FromSpecImpl<T> for MaxHeapItem<T> {
    open spec fn obeys_from_spec() -> bool {
        true
    }

    open spec fn from_spec(v: T) -> Self {
        MaxHeapItem(v)
    }
}

/// Ascending in the order of `T`.
pub open spec fn sorted<T: TotalOrder>(s: Seq<T>) -> bool {
    forall|i: int, j: int| 0 <= i < j < s.len() ==> #[trigger] T::spec_le(s[i], s[j])
}

pub proof fn lemma_sorted_by_le<T: TotalOrder>(s: Seq<T>)
    requires
        sorted(s),
    ensures
        sorted_by(s, le_fn::<T>()),
{
    assert forall|i: int, j: int| 0 <= i < j < s.len() implies #[trigger] le_fn::<T>()(
        s[i],
        s[j],
    ) by {
        assert(T::spec_le(s[i], s[j]));
    }
}

/// Inserting a value where it is at least everything before it and at most everything
/// after it keeps a sequence sorted.
pub proof fn lemma_insert_sorted<T: TotalOrder>(s: Seq<T>, p: int, v: T)
    requires
        sorted(s),
        0 <= p <= s.len(),
        forall|k: int| 0 <= k < p ==> #[trigger] T::spec_le(s[k], v),
        forall|k: int| p <= k < s.len() ==> #[trigger] T::spec_le(v, s[k]),
    ensures
        sorted(s.insert(p, v)),
{
    let t = s.insert(p, v);
    assert forall|i: int, j: int| 0 <= i < j < t.len() implies #[trigger] T::spec_le(t[i], t[j]) by {
        if j < p {
            assert(T::spec_le(s[i], s[j]));
        } else if j == p {
            assert(T::spec_le(s[i], v));
        } else if i < p {
            assert(T::spec_le(s[i], s[j - 1]));
        } else if i == p {
            assert(T::spec_le(v, s[j - 1]));
        } else {
            assert(T::spec_le(s[i - 1], s[j - 1]));
        }
    }
}

/// A priority queue that hands out its greatest item first. Its items are kept in a
/// vector in ascending order, so the greatest is the last; a push finds its place by
/// binary search.
pub struct Heap<I> {
    items: Vec<I>,
}

/// A heap that hands out the smallest value first.
pub type MinHeap<T> = Heap<MinHeapItem<T>>;

/// A heap that hands out the largest value first.
pub type MaxHeap<T> = Heap<MaxHeapItem<T>>;

impl<I: TotalOrder> View for Heap<I> {
    type V = Seq<I>;

    /// The items in ascending order.
    closed spec fn view(&self) -> Seq<I> {
        self.items@
    }
}

impl<I: TotalOrder> Heap<I> {
    pub open spec fn wf(&self) -> bool {
        sorted(self@)
    }

    pub fn new() -> (r: Self)
        ensures
            r.wf(),
            r@ == Seq::<I>::empty(),
    {
        Heap { items: Vec::new() }
    }

    pub fn len(&self) -> (r: usize)
        ensures
            r == self@.len(),
    {
        self.items.len()
    }

    /// Adds an item, placing it between the items below it and those above it.
    pub fn push(&mut self, item: I)
        requires
            old(self).wf(),
        ensures
            final(self).wf(),
            exists|p: int|
                0 <= p <= old(self)@.len() && final(self)@ == old(self)@.insert(p, item),
    {
        let mut lo: usize = 0;
        let mut hi: usize = self.items.len();
        while lo < hi
            invariant
                sorted(self.items@),
                0 <= lo <= hi <= self.items@.len(),
                forall|k: int| 0 <= k < lo ==> #[trigger] I::spec_le(self.items@[k], item),
                forall|k: int| hi <= k < self.items@.len() ==> #[trigger] I::spec_le(item, self.items@[k]),
            decreases hi - lo,
        {
            let mid = lo + (hi - lo) / 2;
            if self.items[mid].le(&item) {
                proof {
                    assert forall|k: int| 0 <= k <= mid implies #[trigger] I::spec_le(
                        self.items@[k],
                        item,
                    ) by {
                        if k < mid {
                            assert(I::spec_le(self.items@[k], self.items@[mid as int]));
                            I::lemma_transitive(self.items@[k], self.items@[mid as int], item);
                        }
                    }
                }
                lo = mid + 1;
            } else {
                proof {
                    I::lemma_total(self.items@[mid as int], item);
                    assert forall|k: int| mid <= k < self.items@.len() implies #[trigger] I::spec_le(
                        item,
                        self.items@[k],
                    ) by {
                        if k > mid {
                            assert(I::spec_le(self.items@[mid as int], self.items@[k]));
                            I::lemma_transitive(item, self.items@[mid as int], self.items@[k]);
                        }
                    }
                }
                hi = mid;
            }
        }
        proof {
            lemma_insert_sorted(self.items@, lo as int, item);
        }
        self.items.insert(lo, item);
    }

    /// The greatest item, if any.
    pub fn peek(&self) -> (r: Option<I>)
        requires
            self.wf(),
        ensures
            self@.len() == 0 ==> r.is_none(),
            self@.len() > 0 ==> r == Some(self@.last()),
    {
        let n = self.items.len();
        if n == 0 {
            None
        } else {
            Some(self.items[n - 1])
        }
    }

    /// Removes and returns the greatest item, if any.
    pub fn pop(&mut self) -> (r: Option<I>)
        requires
            old(self).wf(),
        ensures
            final(self).wf(),
            old(self)@.len() == 0 ==> r.is_none() && final(self)@ == old(self)@,
            old(self)@.len() > 0 ==> r == Some(old(self)@.last()) && final(self)@ == old(
                self,
            )@.drop_last(),
            forall|k: int| 0 <= k < old(self)@.len() ==> #[trigger] I::spec_le(
                old(self)@[k],
                r.unwrap(),
            ),
    {
        proof {
            if self@.len() > 0 {
                assert forall|k: int| 0 <= k < self@.len() implies #[trigger] I::spec_le(
                    self@[k],
                    self@.last(),
                ) by {
                    if k < self@.len() - 1 {
                        assert(I::spec_le(self@[k], self@[self@.len() - 1]));
                    } else {
                        I::lemma_reflexive(self@[k]);
                    }
                }
            }
        }
        self.items.pop()
    }
}

} // verus!
