use crate::heap::{
    lemma_sorted_by_le, sorted, Heap, MaxHeap, MaxHeapItem, MinHeap, MinHeapItem,
};
use crate::numeric::{midpoint, HeapNum};
use crate::order::{le_fn, lemma_total_ordering, TotalOrder};
use vstd::prelude::*;
use vstd::seq_lib::{
    lemma_multiset_commutative, lemma_sorted_unique, to_multiset_build, to_multiset_insert,
};

verus! {

/// Where a value goes on its way into a pair of heaps.
pub enum HeapItem<T> {
    MinHeap(MinHeapItem<T>),
    MaxHeap(MaxHeapItem<T>),
    FirstPush(T),
}

/// Which of the two heaps of a pair holds more values.
#[derive(Clone, Copy, Debug)]
pub enum HeapSizeInfo {
    MinHeapBigger,
    MaxHeapBigger,
    EqualSizes,
    Empty,
}

/// The median of a sorted sequence: its middle element, or the midpoint of its two middle
/// elements when its length is even.
pub open spec fn median_of_sorted<T: HeapNum>(t: Seq<T>) -> T {
    let h = (t.len() / 2) as int;
    if t.len() % 2 == 0 {
        midpoint(t[h - 1], t[h])
    } else {
        t[h]
    }
}

/// The median of the values of `s`.
pub open spec fn median_of<T: HeapNum>(s: Seq<T>) -> T {
    median_of_sorted(s.sort_by(le_fn::<T>()))
}

/// The values of a max-heap's items, in ascending order.
pub open spec fn values_max<T>(s: Seq<MaxHeapItem<T>>) -> Seq<T> {
    Seq::new(s.len(), |k: int| s[k].0)
}

/// The values of a min-heap's items, in ascending order.
pub open spec fn values_min<T>(s: Seq<MinHeapItem<T>>) -> Seq<T> {
    Seq::new(s.len(), |k: int| s[s.len() - 1 - k].0)
}

proof fn lemma_values_max<T: TotalOrder>(s: Seq<MaxHeapItem<T>>)
    requires
        sorted(s),
    ensures
        sorted(values_max(s)),
        forall|p: int, x: MaxHeapItem<T>|
            0 <= p <= s.len() ==> #[trigger] values_max(s.insert(p, x)) == values_max(s).insert(
                p,
                x.0,
            ),
        s.len() > 0 ==> values_max(s.drop_last()) == values_max(s).drop_last(),
{
    let v = values_max(s);
    assert forall|i: int, j: int| 0 <= i < j < v.len() implies #[trigger] T::spec_le(
        v[i],
        v[j],
    ) by {
        assert(MaxHeapItem::<T>::spec_le(s[i], s[j]));
    }
    assert forall|p: int, x: MaxHeapItem<T>| 0 <= p <= s.len() implies #[trigger] values_max(
        s.insert(p, x),
    ) == values_max(s).insert(p, x.0) by {
        assert(values_max(s.insert(p, x)) =~= values_max(s).insert(p, x.0));
    }
    if s.len() > 0 {
        assert(values_max(s.drop_last()) =~= values_max(s).drop_last());
    }
}

proof fn lemma_values_min<T: TotalOrder>(s: Seq<MinHeapItem<T>>)
    requires
        sorted(s),
    ensures
        sorted(values_min(s)),
        forall|p: int, x: MinHeapItem<T>|
            0 <= p <= s.len() ==> #[trigger] values_min(s.insert(p, x)) == values_min(s).insert(
                s.len() - p,
                x.0,
            ),
        s.len() > 0 ==> values_min(s.drop_last()) == values_min(s).drop_first(),
{
    let v = values_min(s);
    assert forall|i: int, j: int| 0 <= i < j < v.len() implies #[trigger] T::spec_le(
        v[i],
        v[j],
    ) by {
        assert(MinHeapItem::<T>::spec_le(s[s.len() - 1 - j], s[s.len() - 1 - i]));
    }
    assert forall|p: int, x: MinHeapItem<T>| 0 <= p <= s.len() implies #[trigger] values_min(
        s.insert(p, x),
    ) == values_min(s).insert(s.len() - p, x.0) by {
        assert(values_min(s.insert(p, x)) =~= values_min(s).insert(s.len() - p, x.0));
    }
    if s.len() > 0 {
        assert(values_min(s.drop_last()) =~= values_min(s).drop_first());
    }
}

/// Two sorted sequences, the last of the first at most the first of the second, make a
/// sorted sequence.
proof fn lemma_concat_sorted<T: TotalOrder>(a: Seq<T>, b: Seq<T>)
    requires
        sorted(a),
        sorted(b),
        a.len() > 0 && b.len() > 0 ==> T::spec_le(a.last(), b[0]),
    ensures
        sorted(a + b),
{
    let c = a + b;
    assert forall|i: int, j: int| 0 <= i < j < c.len() implies #[trigger] T::spec_le(
        c[i],
        c[j],
    ) by {
        if j < a.len() {
            assert(T::spec_le(a[i], a[j]));
        } else if i >= a.len() {
            assert(T::spec_le(b[i - a.len()], b[j - a.len()]));
        } else {
            let x = a[i];
            let y = b[j - a.len()];
            if i < a.len() - 1 {
                assert(T::spec_le(a[i], a[a.len() - 1]));
            } else {
                T::lemma_reflexive(x);
            }
            if j - a.len() > 0 {
                assert(T::spec_le(b[0], b[j - a.len()]));
            } else {
                T::lemma_reflexive(y);
            }
            T::lemma_transitive(x, a.last(), b[0]);
            T::lemma_transitive(x, b[0], y);
        }
    }
}

/// Every element of a sorted sequence is at most its last and at least its first.
proof fn lemma_sorted_ends<T: TotalOrder>(s: Seq<T>)
    requires
        sorted(s),
        s.len() > 0,
    ensures
        forall|k: int| 0 <= k < s.len() ==> #[trigger] T::spec_le(s[k], s.last()),
        forall|k: int| 0 <= k < s.len() ==> #[trigger] T::spec_le(s[0], s[k]),
{
    assert forall|k: int| 0 <= k < s.len() implies #[trigger] T::spec_le(s[k], s.last()) by {
        if k < s.len() - 1 {
            assert(T::spec_le(s[k], s[s.len() - 1]));
        } else {
            T::lemma_reflexive(s[k]);
        }
    }
    assert forall|k: int| 0 <= k < s.len() implies #[trigger] T::spec_le(s[0], s[k]) by {
        if k > 0 {
            assert(T::spec_le(s[0], s[k]));
        } else {
            T::lemma_reflexive(s[k]);
        }
    }
}

/// A running median: a max-heap holds the lower half of the values pushed so far and a
/// min-heap the upper half, their sizes at most one apart.
pub struct Heaps<T> {
    min_heap: MinHeap<T>,
    max_heap: MaxHeap<T>,
    heap_size_info: HeapSizeInfo,
    pushed: Ghost<Seq<T>>,
}

impl<T: HeapNum> Heaps<T> {
    /// The values pushed so far, in the order of the pushes.
    pub closed spec fn pushed(&self) -> Seq<T> {
        self.pushed@
    }

    /// The lower half, ascending.
    pub closed spec fn lower(&self) -> Seq<T> {
        values_max(self.max_heap@)
    }

    /// The upper half, ascending.
    pub closed spec fn upper(&self) -> Seq<T> {
        values_min(self.min_heap@)
    }

    pub closed spec fn wf(&self) -> bool {
        let l = self.lower();
        let u = self.upper();
        &&& self.max_heap.wf()
        &&& self.min_heap.wf()
        &&& match self.heap_size_info {
            HeapSizeInfo::Empty => l.len() == 0 && u.len() == 0 && self.pushed@.len() == 0,
            HeapSizeInfo::EqualSizes => l.len() == u.len() && l.len() > 0,
            HeapSizeInfo::MinHeapBigger => u.len() == l.len() + 1 && l.len() > 0,
            HeapSizeInfo::MaxHeapBigger => l.len() == u.len() + 1,
        }
        &&& l.len() > 0 ==> self.pushed@.len() > 0
        &&& l.len() > 0 && u.len() > 0 ==> T::spec_le(l.last(), u[0])
        &&& (l + u).to_multiset() == self.pushed@.to_multiset()
    }

    proof fn lemma_halves(&self)
        requires
            self.wf(),
        ensures
            sorted(self.lower()),
            sorted(self.upper()),
            sorted(self.lower() + self.upper()),
    {
        lemma_values_max(self.max_heap@);
        lemma_values_min(self.min_heap@);
        lemma_concat_sorted(self.lower(), self.upper());
    }

    pub fn new() -> (r: Self)
        ensures
            r.wf(),
            r.pushed() == Seq::<T>::empty(),
    {
        let r = Heaps {
            min_heap: Heap::new(),
            max_heap: Heap::new(),
            heap_size_info: HeapSizeInfo::Empty,
            pushed: Ghost(Seq::empty()),
        };
        proof {
            assert(r.lower() =~= Seq::<T>::empty());
            assert(r.upper() =~= Seq::<T>::empty());
            assert(r.lower() + r.upper() =~= Seq::<T>::empty());
        }
        r
    }

    /// The value that a pushed item carries.
    pub open spec fn item_value(item: HeapItem<T>) -> T {
        match item {
            HeapItem::MinHeap(x) => x.0,
            HeapItem::MaxHeap(x) => x.0,
            HeapItem::FirstPush(x) => x,
        }
    }

    /// The first push goes to the lower half; later ones go to the lower half when they are at
    /// most its largest value, and to the upper half otherwise.
    pub closed spec fn routed(&self, item: HeapItem<T>) -> bool {
        match item {
            HeapItem::FirstPush(_) => self.heap_size_info is Empty,
            HeapItem::MaxHeap(x) => !(self.heap_size_info is Empty) && T::spec_le(
                x.0,
                self.lower().last(),
            ),
            HeapItem::MinHeap(x) => !(self.heap_size_info is Empty) && !T::spec_le(
                x.0,
                self.lower().last(),
            ),
        }
    }

    proof fn lemma_pushed(&self, old_pushed: Seq<T>, v: T, old_lu: Seq<T>)
        requires
            old_lu.to_multiset() == old_pushed.to_multiset(),
            (self.lower() + self.upper()).to_multiset() == old_lu.to_multiset().insert(v),
            self.pushed() == old_pushed.push(v),
        ensures
            (self.lower() + self.upper()).to_multiset() == self.pushed().to_multiset(),
    {
        to_multiset_build(old_pushed, v);
    }

    /// Which heap of the pair is the larger.
    pub closed spec fn size_info(&self) -> HeapSizeInfo {
        self.heap_size_info
    }

    /// The flag after an item arrives: the first value makes the lower half the larger;
    /// a value on the smaller side evens the sizes; a value on the side of equal sizes
    /// makes that side the larger; a value on the larger side is followed by moving that
    /// side's top across, which evens the sizes.
    pub open spec fn next_size_info(info: HeapSizeInfo, item: HeapItem<T>) -> HeapSizeInfo {
        match item {
            HeapItem::FirstPush(_) => HeapSizeInfo::MaxHeapBigger,
            HeapItem::MaxHeap(_) => match info {
                HeapSizeInfo::EqualSizes => HeapSizeInfo::MaxHeapBigger,
                _ => HeapSizeInfo::EqualSizes,
            },
            HeapItem::MinHeap(_) => match info {
                HeapSizeInfo::EqualSizes => HeapSizeInfo::MinHeapBigger,
                _ => HeapSizeInfo::EqualSizes,
            },
        }
    }

    /// Puts an item on its side and evens the sizes out again; see `next_size_info`.
    fn push_to_heap(&mut self, push_item: HeapItem<T>)
        requires
            old(self).wf(),
            old(self).routed(push_item),
        ensures
            final(self).wf(),
            final(self).pushed() == old(self).pushed().push(Self::item_value(push_item)),
            final(self).size_info() == Self::next_size_info(old(self).size_info(), push_item),
            (match push_item {
                HeapItem::FirstPush(x) => final(self).lower() == seq![x] && final(self).upper()
                    == Seq::<T>::empty(),
                HeapItem::MaxHeap(x) => if old(self).size_info() is MaxHeapBigger {
                    final(self).lower().len() == old(self).lower().len() && final(self).upper().len()
                        == old(self).upper().len() + 1
                } else {
                    final(self).upper() == old(self).upper() && final(self).lower().to_multiset()
                        == old(self).lower().to_multiset().insert(x.0)
                },
                HeapItem::MinHeap(x) => if old(self).size_info() is MinHeapBigger {
                    final(self).upper().len() == old(self).upper().len() && final(self).lower().len()
                        == old(self).lower().len() + 1
                } else {
                    final(self).lower() == old(self).lower() && final(self).upper().to_multiset()
                        == old(self).upper().to_multiset().insert(x.0)
                },
            }),
    {
        let ghost v = Self::item_value(push_item);
        let ghost l = self.lower();
        let ghost u = self.upper();
        let ghost old_pushed = self.pushed@;
        let ghost old_max = self.max_heap@;
        let ghost old_min = self.min_heap@;
        proof {
            self.lemma_halves();
            lemma_values_max(old_max);
            lemma_values_min(old_min);
            lemma_multiset_commutative(l, u);
            if l.len() > 0 {
                lemma_sorted_ends(l);
            }
            if u.len() > 0 {
                lemma_sorted_ends(u);
            }
        }
        match push_item {
            HeapItem::FirstPush(item) => {
                self.max_heap.push(MaxHeapItem(item));
                self.heap_size_info = HeapSizeInfo::MaxHeapBigger;
                self.pushed = Ghost(self.pushed@.push(v));
                proof {
                    assert(self.lower() =~= seq![item]);
                    assert(self.upper() =~= Seq::<T>::empty());
                    assert(self.pushed@ =~= self.lower() + self.upper());
                }
            },
            HeapItem::MaxHeap(item) => {
                match self.heap_size_info {
                    HeapSizeInfo::EqualSizes => {
                        self.max_heap.push(item);
                        self.heap_size_info = HeapSizeInfo::MaxHeapBigger;
                        proof {
                            self.lemma_lower_insert(old_max, l, u, v);
                        }
                    },
                    HeapSizeInfo::MinHeapBigger => {
                        self.max_heap.push(item);
                        self.heap_size_info = HeapSizeInfo::EqualSizes;
                        proof {
                            self.lemma_lower_insert(old_max, l, u, v);
                        }
                    },
                    HeapSizeInfo::MaxHeapBigger => {
                        self.max_heap.push(item);
                        let ghost m = self.lower();
                        proof {
                            let p = choose|p: int|
                                0 <= p <= old_max.len() && self.max_heap@ == old_max.insert(p, item);
                            assert(m == l.insert(p, v));
                            lemma_values_max(self.max_heap@);
                            lemma_sorted_ends(m);
                            if u.len() > 0 {
                                T::lemma_transitive(v, l.last(), u[0]);
                                assert(T::spec_le(m.last(), u[0]));
                            }
                            to_multiset_insert(l, p, v);
                            assert(m.to_multiset() == l.to_multiset().insert(v));
                        }
                        let moved = self.max_heap.pop();
                        match moved {
                            Some(MaxHeapItem(value)) => {
                                let ghost old_min2 = self.min_heap@;
                                self.min_heap.push(MinHeapItem(value));
                                proof {
                                    let q = choose|q: int|
                                        0 <= q <= old_min2.len() && self.min_heap@ == old_min2.insert(
                                            q,
                                            MinHeapItem(value),
                                        );
                                    let j = u.len() - q;
                                    assert(self.upper() == u.insert(j, value));
                                    assert(self.lower() == m.drop_last());
                                    assert(m =~= m.drop_last().push(value));
                                    to_multiset_build(m.drop_last(), value);
                                    to_multiset_insert(u, j, value);
                                    lemma_multiset_commutative(self.lower(), self.upper());
                                    assert(self.lower().to_multiset().insert(value)
                                        == m.to_multiset());
                                    assert(self.upper().to_multiset() == u.to_multiset().insert(
                                        value,
                                    ));
                                    assert((l + u).to_multiset() == l.to_multiset().add(
                                        u.to_multiset(),
                                    ));
                                    assert((self.lower() + self.upper()).to_multiset() =~= (l
                                        + u).to_multiset().insert(v)) by {
                                        broadcast use vstd::multiset::group_multiset_axioms;

                                        let a = self.lower().to_multiset();
                                        let b = u.to_multiset();
                                        assert(a.add(b.insert(value)) =~= a.insert(value).add(b));
                                        assert(l.to_multiset().insert(v).add(b) =~= l.to_multiset().add(
                                            b,
                                        ).insert(v));
                                    }
                                    lemma_values_max(self.max_heap@);
                                    assert(T::spec_le(m[m.len() - 2], m[m.len() - 1]));
                                    if j != 0 {
                                        T::lemma_transitive(self.lower().last(), value, u[0]);
                                    }
                                    assert(self.upper().len() == u.len() + 1);
                                    assert(self.lower().len() == l.len());
                                }
                            },
                            None => {
                                proof {
                                    assert(false);
                                }
                            },
                        }
                        self.heap_size_info = HeapSizeInfo::EqualSizes;
                    },
                    HeapSizeInfo::Empty => {
                        proof {
                            assert(false);
                        }
                    },
                }
                self.pushed = Ghost(self.pushed@.push(v));
                proof {
                    self.lemma_pushed(old_pushed, v, l + u);
                }
            },
            HeapItem::MinHeap(item) => {
                proof {
                    T::lemma_total(v, l.last());
                }
                match self.heap_size_info {
                    HeapSizeInfo::EqualSizes => {
                        self.min_heap.push(item);
                        self.heap_size_info = HeapSizeInfo::MinHeapBigger;
                        proof {
                            self.lemma_upper_insert(old_min, l, u, v);
                        }
                    },
                    HeapSizeInfo::MaxHeapBigger => {
                        self.min_heap.push(item);
                        self.heap_size_info = HeapSizeInfo::EqualSizes;
                        proof {
                            self.lemma_upper_insert(old_min, l, u, v);
                        }
                    },
                    HeapSizeInfo::MinHeapBigger => {
                        self.min_heap.push(item);
                        let ghost w = self.upper();
                        proof {
                            let q = choose|q: int|
                                0 <= q <= old_min.len() && self.min_heap@ == old_min.insert(q, item);
                            let j = u.len() - q;
                            assert(w == u.insert(j, v));
                            lemma_values_min(self.min_heap@);
                            lemma_sorted_ends(w);
                            assert(T::spec_le(l.last(), w[0])) by {
                                if j != 0 {
                                    assert(w[0] == u[0]);
                                }
                            }
                            to_multiset_insert(u, j, v);
                            assert(w.to_multiset() == u.to_multiset().insert(v));
                        }
                        let moved = self.min_heap.pop();
                        match moved {
                            Some(MinHeapItem(value)) => {
                                let ghost old_max2 = self.max_heap@;
                                self.max_heap.push(MaxHeapItem(value));
                                proof {
                                    let p = choose|p: int|
                                        0 <= p <= old_max2.len() && self.max_heap@ == old_max2.insert(
                                            p,
                                            MaxHeapItem(value),
                                        );
                                    assert(value == w[0]);
                                    assert(self.lower() == l.insert(p, value));
                                    assert(self.upper() == w.drop_first());
                                    assert(w =~= seq![value] + w.drop_first());
                                    lemma_multiset_commutative(seq![value], w.drop_first());
                                    to_multiset_insert(l, p, value);
                                    lemma_multiset_commutative(self.lower(), self.upper());
                                    assert(self.lower().to_multiset() == l.to_multiset().insert(
                                        value,
                                    ));
                                    assert(w.to_multiset() == seq![value].to_multiset().add(
                                        self.upper().to_multiset(),
                                    ));
                                    assert(seq![value].to_multiset() =~= vstd::multiset::Multiset::empty().insert(value)) by {
                                        broadcast use vstd::multiset::group_multiset_axioms;
                                        broadcast use vstd::seq_lib::group_to_multiset_ensures;
                                    }
                                    assert((l + u).to_multiset() == l.to_multiset().add(
                                        u.to_multiset(),
                                    ));
                                    assert((self.lower() + self.upper()).to_multiset() =~= (l
                                        + u).to_multiset().insert(v)) by {
                                        broadcast use vstd::multiset::group_multiset_axioms;

                                        let c = self.upper().to_multiset();
                                        let a = l.to_multiset();
                                        assert(a.insert(value).add(c) =~= a.add(
                                            vstd::multiset::Multiset::empty().insert(value).add(c),
                                        ));
                                        assert(a.add(u.to_multiset().insert(v)) =~= a.add(
                                            u.to_multiset(),
                                        ).insert(v));
                                    }
                                    lemma_values_min(self.min_heap@);
                                    lemma_values_max(self.max_heap@);
                                    assert(T::spec_le(w[0], w[1]));
                                    if p != l.len() {
                                        T::lemma_transitive(l.last(), w[0], w[1]);
                                    }
                                }
                            },
                            None => {
                                proof {
                                    assert(false);
                                }
                            },
                        }
                        self.heap_size_info = HeapSizeInfo::EqualSizes;
                    },
                    HeapSizeInfo::Empty => {
                        proof {
                            assert(false);
                        }
                    },
                }
                self.pushed = Ghost(self.pushed@.push(v));
                proof {
                    self.lemma_pushed(old_pushed, v, l + u);
                }
            },
        }
    }

    /// Adds a value: the first goes to the lower half, a later one goes there when it
    /// is at most the lower half's largest value and to the upper half otherwise, and the
    /// sizes are then evened out again.
    pub fn add_to_heaps(&mut self, value: T)
        requires
            old(self).wf(),
        ensures
            final(self).wf(),
            final(self).pushed() == old(self).pushed().push(value),
    {
        let heap_item_to_push = match self.heap_size_info {
            HeapSizeInfo::Empty => HeapItem::FirstPush(value),
            _ => match self.max_heap.peek() {
                Some(top) => {
                    if value.le(&top.0) {
                        HeapItem::MaxHeap(MaxHeapItem(value))
                    } else {
                        HeapItem::MinHeap(MinHeapItem(value))
                    }
                },
                None => {
                    proof {
                        assert(false);
                    }
                    HeapItem::FirstPush(value)
                },
            },
        };
        self.push_to_heap(heap_item_to_push);
    }

    /// The median of the values held: the midpoint of the two tops when the heaps are of
    /// equal size, else the top of the larger heap.
    pub fn get_median(&self) -> (r: T)
        requires
            self.wf(),
            self.pushed().len() > 0,
        ensures
            r == median_of(self.pushed()),
    {
        let ghost t = self.lower() + self.upper();
        proof {
            let s = self.pushed();
            self.lemma_halves();
            lemma_total_ordering::<T>();
            s.lemma_sort_by_ensures(le_fn::<T>());
            lemma_sorted_by_le(t);
            lemma_sorted_unique(t, s.sort_by(le_fn::<T>()), le_fn::<T>());
            assert(t == s.sort_by(le_fn::<T>()));
        }
        match self.heap_size_info {
            HeapSizeInfo::Empty => {
                proof {
                    assert(false);
                }
                vstd::pervasive::unreached()
            },
            HeapSizeInfo::MinHeapBigger => {
                let top = self.min_heap.peek().unwrap();
                proof {
                    assert(t[(t.len() / 2) as int] == self.upper()[0]);
                }
                top.0
            },
            HeapSizeInfo::MaxHeapBigger => {
                let top = self.max_heap.peek().unwrap();
                proof {
                    assert(t[(t.len() / 2) as int] == self.lower().last());
                }
                top.0
            },
            HeapSizeInfo::EqualSizes => {
                let min_heap_value = self.min_heap.peek().unwrap().0;
                let max_heap_value = self.max_heap.peek().unwrap().0;
                let two = T::one().sum(&T::one());
                proof {
                    assert(t[(t.len() / 2) as int] == self.upper()[0]);
                    assert(t[t.len() / 2 - 1] == self.lower().last());
                }
                max_heap_value.sum(&min_heap_value).quotient(&two)
            },
        }
    }

    /// After a value went into the lower half, at most its largest value.
    proof fn lemma_lower_insert(&self, old_max: Seq<MaxHeapItem<T>>, l: Seq<T>, u: Seq<T>, v: T)
        requires
            sorted(old_max),
            l == values_max(old_max),
            u == self.upper(),
            self.max_heap.wf(),
            l.len() > 0,
            u.len() > 0,
            T::spec_le(v, l.last()),
            T::spec_le(l.last(), u[0]),
            exists|p: int|
                0 <= p <= old_max.len() && self.max_heap@ == old_max.insert(p, MaxHeapItem(v)),
        ensures
            self.lower().len() == l.len() + 1,
            self.lower().to_multiset() == l.to_multiset().insert(v),
            T::spec_le(self.lower().last(), self.upper()[0]),
            (self.lower() + self.upper()).to_multiset() == (l + u).to_multiset().insert(v),
    {
        let p = choose|p: int|
            0 <= p <= old_max.len() && self.max_heap@ == old_max.insert(p, MaxHeapItem(v));
        lemma_values_max(old_max);
        assert(self.lower() == l.insert(p, v));
        T::lemma_transitive(v, l.last(), u[0]);
        assert(self.lower() + u =~= (l + u).insert(p, v));
        to_multiset_insert(l + u, p, v);
        to_multiset_insert(l, p, v);
    }

    /// After a value went into the upper half, above the largest value of the lower half.
    proof fn lemma_upper_insert(&self, old_min: Seq<MinHeapItem<T>>, l: Seq<T>, u: Seq<T>, v: T)
        requires
            sorted(old_min),
            u == values_min(old_min),
            l == self.lower(),
            self.min_heap.wf(),
            l.len() > 0,
            T::spec_le(l.last(), v),
            u.len() > 0 ==> T::spec_le(l.last(), u[0]),
            exists|q: int|
                0 <= q <= old_min.len() && self.min_heap@ == old_min.insert(q, MinHeapItem(v)),
        ensures
            self.upper().len() == u.len() + 1,
            self.upper().to_multiset() == u.to_multiset().insert(v),
            T::spec_le(self.lower().last(), self.upper()[0]),
            (self.lower() + self.upper()).to_multiset() == (l + u).to_multiset().insert(v),
    {
        let q = choose|q: int|
            0 <= q <= old_min.len() && self.min_heap@ == old_min.insert(q, MinHeapItem(v));
        lemma_values_min(old_min);
        let j = u.len() - q;
        assert(self.upper() == u.insert(j, v));
        assert(l + self.upper() =~= (l + u).insert(l.len() + j, v));
        to_multiset_insert(l + u, l.len() + j, v);
        to_multiset_insert(u, j, v);
    }
}

} // verus!
