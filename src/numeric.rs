use crate::order::TotalOrder;
use vstd::prelude::*;

verus! {

/// A totally ordered number with zero, one, the four arithmetic operations and a way to
/// build a value from a ratio of two counts. Each operation is total: it returns a value
/// of the type for every pair of operands, as `spec_add` and its siblings say.
pub trait HeapNum: TotalOrder {
    spec fn spec_sum(a: Self, b: Self) -> Self;

    spec fn spec_difference(a: Self, b: Self) -> Self;

    spec fn spec_product(a: Self, b: Self) -> Self;

    spec fn spec_quotient(a: Self, b: Self) -> Self;

    spec fn spec_zero() -> Self;

    spec fn spec_one() -> Self;

    /// The value that stands for the ratio `num / den`.
    spec fn spec_from_ratio(num: u128, den: u128) -> Self;

    fn sum(&self, other: &Self) -> (r: Self)
        ensures
            r == Self::spec_sum(*self, *other),
    ;

    fn difference(&self, other: &Self) -> (r: Self)
        ensures
            r == Self::spec_difference(*self, *other),
    ;

    fn product(&self, other: &Self) -> (r: Self)
        ensures
            r == Self::spec_product(*self, *other),
    ;

    fn quotient(&self, other: &Self) -> (r: Self)
        ensures
            r == Self::spec_quotient(*self, *other),
    ;

    fn zero() -> (r: Self)
        ensures
            r == Self::spec_zero(),
    ;

    fn one() -> (r: Self)
        ensures
            r == Self::spec_one(),
    ;

    fn from_ratio(num: u128, den: u128) -> (r: Self)
        requires
            den > 0,
        ensures
            r == Self::spec_from_ratio(num, den),
    ;
}

/// The midpoint `(a + b) / (1 + 1)` of two values.
pub open spec fn midpoint<T: HeapNum>(a: T, b: T) -> T {
    T::spec_quotient(T::spec_sum(a, b), T::spec_sum(T::spec_one(), T::spec_one()))
}

/// An integer clipped to the range of `u64`.
pub open spec fn clip_u64(x: int) -> u64 {
    if x > u64::MAX {
        u64::MAX
    } else if x < 0 {
        0
    } else {
        x as u64
    }
}

/// Unsigned integers with clipped arithmetic: a result beyond the range is replaced by the
/// nearest end of it, and a division by zero divides by one, the smallest divisor there is.
impl HeapNum for u64 {
    open spec fn spec_sum(a: Self, b: Self) -> Self {
        clip_u64(a + b)
    }

    open spec fn spec_difference(a: Self, b: Self) -> Self {
        clip_u64(a - b)
    }

    open spec fn spec_product(a: Self, b: Self) -> Self {
        clip_u64(a * b)
    }

    open spec fn spec_quotient(a: Self, b: Self) -> Self {
        if b == 0 {
            a
        } else {
            a / b
        }
    }

    open spec fn spec_zero() -> Self {
        0
    }

    open spec fn spec_one() -> Self {
        1
    }

    open spec fn spec_from_ratio(num: u128, den: u128) -> Self {
        if den == 0 {
            clip_u64(num as int)
        } else {
            clip_u64(num as int / den as int)
        }
    }

    fn sum(&self, other: &Self) -> (r: Self) {
        if *self > u64::MAX - *other {
            u64::MAX
        } else {
            *self + *other
        }
    }

    fn difference(&self, other: &Self) -> (r: Self) {
        if *self < *other {
            0
        } else {
            *self - *other
        }
    }

    fn product(&self, other: &Self) -> (r: Self) {
        let a = *self as u128;
        let b = *other as u128;
        assert(a * b <= u64::MAX as u128 * u64::MAX as u128) by (nonlinear_arith)
            requires
                a <= u64::MAX,
                b <= u64::MAX,
        ;
        let p = a * b;
        if p > u64::MAX as u128 {
            u64::MAX
        } else {
            p as u64
        }
    }

    fn quotient(&self, other: &Self) -> (r: Self) {
        if *other == 0 {
            *self
        } else {
            *self / *other
        }
    }

    fn zero() -> (r: Self) {
        0
    }

    fn one() -> (r: Self) {
        1
    }

    fn from_ratio(num: u128, den: u128) -> (r: Self) {
        let q = num / den;
        if q > u64::MAX as u128 {
            u64::MAX
        } else {
            q as u64
        }
    }
}

/// Clipped arithmetic: the largest value added to or multiplied by itself stays the
/// largest value, and dividing by zero divides by the smallest divisor, one.
pub proof fn lemma_clipped_u64(a: u64)
    ensures
        u64::spec_sum(u64::MAX, u64::MAX) == u64::MAX,
        u64::spec_product(u64::MAX, u64::MAX) == u64::MAX,
        u64::spec_quotient(a, 0) == u64::spec_quotient(a, 1),
{
    assert(u64::MAX as int * u64::MAX as int > u64::MAX) by (nonlinear_arith);
}

} // verus!
