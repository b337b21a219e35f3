//! Index sequences for traversing Fenwick trees, with their domains checked.
//!
//! - `down(i)` yields the nodes whose sums add up to the prefix sum up to `i`.
//! - `up(i, limit)` yields the nodes to change when element `i` changes.
//!
//! Nesting these walks, one per axis, traverses a multi-dimensional tree.
pub mod one_based;
pub mod zero_based;
