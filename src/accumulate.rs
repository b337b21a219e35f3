//! Values that a Fenwick tree can hold.
//!
//! A Fenwick tree only ever starts from zero and adds values in place, so any
//! commutative monoid under addition will do. The integer impls use wrapping
//! (two's complement) addition, which makes them such a monoid and which
//! agrees with exact addition wherever the exact sum fits the type.
use vstd::prelude::*;

verus! {

/// A commutative monoid under addition, with an executable zero and an
/// in-place addition.
pub trait Accumulate: Copy + Sized {
    /// The additive identity.
    spec fn zero_value() -> Self;

    /// The sum of two values.
    spec fn plus(self, rhs: Self) -> Self;

    /// Addition is associative and commutative, and zero is its identity.
    proof fn lemma_commutative_monoid(a: Self, b: Self, c: Self)
        ensures
            a.plus(Self::zero_value()) == a,
            a.plus(b) == b.plus(a),
            a.plus(b).plus(c) == a.plus(b.plus(c)),
    ;

    /// The additive identity.
    fn zero() -> (r: Self)
        ensures
            r == Self::zero_value(),
    ;

    /// Adds `rhs` to `self` in place.
    fn add_in_place(&mut self, rhs: Self)
        ensures
            *final(self) == old(self).plus(rhs),
    ;
}

impl Accumulate for i32 {
    open spec fn zero_value() -> i32 {
        0
    }

    open spec fn plus(self, rhs: i32) -> i32 {
        vstd::wrapping::i32_specs::wrapping_add(self, rhs)
    }

    proof fn lemma_commutative_monoid(a: i32, b: i32, c: i32) {
    }

    fn zero() -> (r: i32) {
        0
    }

    fn add_in_place(&mut self, rhs: i32) {
        *self = self.wrapping_add(rhs);
    }
}

impl Accumulate for i64 {
    open spec fn zero_value() -> i64 {
        0
    }

    open spec fn plus(self, rhs: i64) -> i64 {
        vstd::wrapping::i64_specs::wrapping_add(self, rhs)
    }

    proof fn lemma_commutative_monoid(a: i64, b: i64, c: i64) {
    }

    fn zero() -> (r: i64) {
        0
    }

    fn add_in_place(&mut self, rhs: i64) {
        *self = self.wrapping_add(rhs);
    }
}

impl Accumulate for isize {
    open spec fn zero_value() -> isize {
        0
    }

    open spec fn plus(self, rhs: isize) -> isize {
        vstd::wrapping::isize_specs::wrapping_add(self, rhs)
    }

    proof fn lemma_commutative_monoid(a: isize, b: isize, c: isize) {
    }

    fn zero() -> (r: isize) {
        0
    }

    fn add_in_place(&mut self, rhs: isize) {
        *self = self.wrapping_add(rhs);
    }
}

impl Accumulate for u32 {
    open spec fn zero_value() -> u32 {
        0
    }

    open spec fn plus(self, rhs: u32) -> u32 {
        vstd::wrapping::u32_specs::wrapping_add(self, rhs)
    }

    proof fn lemma_commutative_monoid(a: u32, b: u32, c: u32) {
    }

    fn zero() -> (r: u32) {
        0
    }

    fn add_in_place(&mut self, rhs: u32) {
        *self = self.wrapping_add(rhs);
    }
}

impl Accumulate for u64 {
    open spec fn zero_value() -> u64 {
        0
    }

    open spec fn plus(self, rhs: u64) -> u64 {
        vstd::wrapping::u64_specs::wrapping_add(self, rhs)
    }

    proof fn lemma_commutative_monoid(a: u64, b: u64, c: u64) {
    }

    fn zero() -> (r: u64) {
        0
    }

    fn add_in_place(&mut self, rhs: u64) {
        *self = self.wrapping_add(rhs);
    }
}

impl Accumulate for usize {
    open spec fn zero_value() -> usize {
        0
    }

    open spec fn plus(self, rhs: usize) -> usize {
        vstd::wrapping::usize_specs::wrapping_add(self, rhs)
    }

    proof fn lemma_commutative_monoid(a: usize, b: usize, c: usize) {
    }

    fn zero() -> (r: usize) {
        0
    }

    fn add_in_place(&mut self, rhs: usize) {
        *self = self.wrapping_add(rhs);
    }
}

} // verus!
