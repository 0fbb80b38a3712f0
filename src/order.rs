use std::cmp::Ordering;
use vstd::prelude::*;
use vstd::relations::total_ordering;

verus! {

/// A type whose values are totally ordered by `spec_le`, with an executable comparison.
///
/// Equality of the order is equality of values: two values that are each at most the
/// other are the same value.
pub trait TotalOrder: Sized + Copy {
    spec fn spec_le(a: Self, b: Self) -> bool;

    proof fn lemma_reflexive(a: Self)
        ensures
            Self::spec_le(a, a),
    ;

    proof fn lemma_transitive(a: Self, b: Self, c: Self)
        requires
            Self::spec_le(a, b),
            Self::spec_le(b, c),
        ensures
            Self::spec_le(a, c),
    ;

    proof fn lemma_antisymmetric(a: Self, b: Self)
        requires
            Self::spec_le(a, b),
            Self::spec_le(b, a),
        ensures
            a == b,
    ;

    proof fn lemma_total(a: Self, b: Self)
        ensures
            Self::spec_le(a, b) || Self::spec_le(b, a),
    ;

    fn le(&self, other: &Self) -> (r: bool)
        ensures
            r == Self::spec_le(*self, *other),
    ;
}

/// The order of `T` as a relation, in the form that vstd's sorting lemmas take.
pub open spec fn le_fn<T: TotalOrder>() -> spec_fn(T, T) -> bool {
    |a: T, b: T| T::spec_le(a, b)
}

/// Strictly below in the order of `T`.
pub open spec fn spec_lt<T: TotalOrder>(a: T, b: T) -> bool {
    T::spec_le(a, b) && a != b
}

/// The three-way comparison that the order of `T` determines.
pub open spec fn spec_order<T: TotalOrder>(a: T, b: T) -> Ordering {
    if a == b {
        Ordering::Equal
    } else if T::spec_le(a, b) {
        Ordering::Less
    } else {
        Ordering::Greater
    }
}

pub proof fn lemma_total_ordering<T: TotalOrder>()
    ensures
        total_ordering(le_fn::<T>()),
{
    assert forall|a: T| #[trigger] le_fn::<T>()(a, a) by {
        T::lemma_reflexive(a);
    }
    assert forall|a: T, b: T| #[trigger] le_fn::<T>()(a, b) && #[trigger] le_fn::<T>()(b, a)
        implies a == b by {
        T::lemma_antisymmetric(a, b);
    }
    assert forall|a: T, b: T, c: T| #[trigger] le_fn::<T>()(a, b) && #[trigger] le_fn::<T>()(
        b,
        c,
    ) implies le_fn::<T>()(a, c) by {
        T::lemma_transitive(a, b, c);
    }
    assert forall|a: T, b: T| #[trigger] le_fn::<T>()(a, b) || #[trigger] le_fn::<T>()(b, a) by {
        T::lemma_total(a, b);
    }
}

/// Totality: of two values, exactly one is below the other, equal to it, or above it.
pub proof fn lemma_trichotomy<T: TotalOrder>(a: T, b: T)
    ensures
        spec_lt(a, b) || a == b || spec_lt(b, a),
        !(spec_lt(a, b) && spec_lt(b, a)),
{
    T::lemma_total(a, b);
    if T::spec_le(a, b) && T::spec_le(b, a) {
        T::lemma_antisymmetric(a, b);
    }
}

/// Three-way comparison of two values of a totally ordered type.
pub fn compare<T: TotalOrder>(a: &T, b: &T) -> (r: Ordering)
    ensures
        r == spec_order(*a, *b),
{
    let ab = a.le(b);
    let ba = b.le(a);
    proof {
        T::lemma_reflexive(*a);
    }
    if ab && ba {
        proof {
            T::lemma_antisymmetric(*a, *b);
        }
        Ordering::Equal
    } else if ab {
        Ordering::Less
    } else {
        Ordering::Greater
    }
}

impl TotalOrder for u32 {
    open spec fn spec_le(a: Self, b: Self) -> bool {
        a <= b
    }

    proof fn lemma_reflexive(a: Self) {
    }

    proof fn lemma_transitive(a: Self, b: Self, c: Self) {
    }

    proof fn lemma_antisymmetric(a: Self, b: Self) {
    }

    proof fn lemma_total(a: Self, b: Self) {
    }

    fn le(&self, other: &Self) -> (r: bool) {
        *self <= *other
    }
}

impl TotalOrder for u64 {
    open spec fn spec_le(a: Self, b: Self) -> bool {
        a <= b
    }

    proof fn lemma_reflexive(a: Self) {
    }

    proof fn lemma_transitive(a: Self, b: Self, c: Self) {
    }

    proof fn lemma_antisymmetric(a: Self, b: Self) {
    }

    proof fn lemma_total(a: Self, b: Self) {
    }

    fn le(&self, other: &Self) -> (r: bool) {
        *self <= *other
    }
}

} // verus!
