//! Walks over a zero-based Fenwick tree.
use vstd::prelude::*;

use crate::index_iter::zero_based::{
    down_seq,
    lemma_down_seq_bounded,
    lemma_up_seq_increasing,
    up_seq,
    Down,
    Up,
};

verus! {

/// The walk over the nodes that make up the prefix sum of `0 ..= init`. Each
/// position `p` it yields satisfies `p <= init`.
pub fn down(init: usize) -> (r: Down)
    requires
        init != usize::MAX,
    ensures
        r@ == down_seq(init),
        forall|k: int| 0 <= k < r@.len() ==> #[trigger] r@[k] <= init,
{
    proof {
        lemma_down_seq_bounded(init);
    }
    crate::index_iter::zero_based::down(init)
}

/// The walk over the nodes to change when element `init` of a tree with
/// `limit_exclusive` elements changes. Each position `p` it yields satisfies
/// `init <= p < limit_exclusive`.
pub fn up(init: usize, limit_exclusive: usize) -> (r: Up)
    requires
        init < limit_exclusive,
    ensures
        r@ == up_seq(init, limit_exclusive),
        forall|k: int| 0 <= k < r@.len() ==> init <= #[trigger] r@[k] < limit_exclusive,
{
    proof {
        lemma_up_seq_increasing(init, limit_exclusive);
    }
    crate::index_iter::zero_based::up(init, limit_exclusive)
}

} // verus!
