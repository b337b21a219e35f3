//! Walks over a one-based Fenwick tree.
use vstd::prelude::*;

use crate::index_iter::one_based::{
    down_seq,
    lemma_down_seq_bounded,
    lemma_up_seq_bounded,
    up_seq,
    Down,
    Up,
};

verus! {

/// The walk over the nodes that make up the prefix sum of `1 ..= init`. Each
/// position `p` it yields satisfies `1 <= p <= init`.
pub fn down(init: usize) -> (r: Down)
    requires
        1 <= init,
    ensures
        r@ == down_seq(init),
        forall|k: int| 0 <= k < r@.len() ==> 1 <= #[trigger] r@[k] <= init,
{
    proof {
        lemma_down_seq_bounded(init);
    }
    crate::index_iter::one_based::down(init)
}

/// The walk over the nodes to change when element `init` of a tree with
/// `limit_inclusive` elements changes. Each position `p` it yields satisfies
/// `init <= p <= limit_inclusive`.
pub fn up(init: usize, limit_inclusive: usize) -> (r: Up)
    requires
        1 <= init,
        init <= limit_inclusive,
        limit_inclusive <= usize::MAX / 2,
    ensures
        r@ == up_seq(init, limit_inclusive),
        forall|k: int| 0 <= k < r@.len() ==> init <= #[trigger] r@[k] <= limit_inclusive,
{
    proof {
        lemma_up_seq_bounded(init, limit_inclusive);
    }
    crate::index_iter::one_based::up(init, limit_inclusive)
}

} // verus!
