//! Fenwick trees (binary indexed trees): prefix sums and point updates in
//! logarithmic time over a flat array of partial sums.
//!
//! A Fenwick tree over a logical array `a[0..n]` is a backing array `f` of the
//! same length in which each node holds the sum of a range of `a` fixed by its
//! position. `array::update` performs `a[i] += delta` and `array::prefix_sum`
//! returns `a[0] + ... + a[i]`, each touching O(log n) nodes. The walks over
//! the implicit tree that they use are exposed in `index` (with their domains
//! checked) and `index_iter`, for one-based and zero-based arrays, so that
//! multi-dimensional trees can be built by nesting them.
use vstd::prelude::*;

pub mod accumulate;
pub mod array;
pub mod index;
pub mod index_iter;
pub mod lowbit;
pub mod slice;

pub use accumulate::Accumulate;
pub use lowbit::{lowbit, LowBit};

verus! {

} // verus!
