//! Index sequences of a one-based Fenwick tree.
//!
//! Node `x` of a one-based tree stores the sum of the logical elements
//! `x - lowbit(x) + 1 ..= x`. Position 0 is no node.
use vstd::prelude::*;

verus! {

/// One step of a prefix-sum walk: `x` with its lowest set bit cleared.
pub open spec fn spec_next_down(x: usize) -> usize {
    if x == 0 {
        0
    } else {
        x & ((x - 1) as usize)
    }
}

/// One step of an update walk: `x` plus its lowest set bit, or 0 where that
/// sum wraps past the all-ones value (and for 0 itself).
pub open spec fn spec_next_up(x: usize) -> usize {
    if x == 0 || x | ((x - 1) as usize) == usize::MAX {
        0
    } else {
        ((x | ((x - 1) as usize)) + 1) as usize
    }
}

/// The nodes whose sums add up to the prefix `1 ..= x`, highest first; empty
/// for 0.
pub open spec fn down_seq(x: usize) -> Seq<usize>
    decreases x,
    via down_seq_decreases
{
    if x == 0 {
        Seq::empty()
    } else {
        seq![x] + down_seq(spec_next_down(x))
    }
}

#[via_fn]
proof fn down_seq_decreases(x: usize) {
    if x != 0 {
        lemma_next_down_lt(x);
    }
}

/// The nodes up to `limit_inclusive` that must change when logical element `x`
/// changes, lowest first; empty when `x` is 0 or exceeds the limit.
pub open spec fn up_seq(x: usize, limit_inclusive: usize) -> Seq<usize>
    decreases (if x == 0 || x > limit_inclusive { 0 } else { limit_inclusive + 1 - x }),
    via up_seq_decreases
{
    if x == 0 || x > limit_inclusive {
        Seq::empty()
    } else {
        seq![x] + up_seq(spec_next_up(x), limit_inclusive)
    }
}

#[via_fn]
proof fn up_seq_decreases(x: usize, limit_inclusive: usize) {
    if x != 0 {
        lemma_next_up_gt(x);
    }
}

pub proof fn lemma_next_down_lt(x: usize)
    requires
        x != 0,
    ensures
        spec_next_down(x) < x,
{
    let y = (x - 1) as usize;
    assert(x & y < x) by (bit_vector)
        requires
            x != 0,
            y == (x - 1) as usize,
    ;
}

/// From a node, the update step climbs, and it stays within twice the node.
pub proof fn lemma_next_up_gt(x: usize)
    requires
        x != 0,
    ensures
        spec_next_up(x) == 0 || spec_next_up(x) > x,
        x <= usize::MAX / 2 ==> x < spec_next_up(x) <= 2 * x,
{
    let y = (x - 1) as usize;
    assert(x <= (x | y) && (x | y) <= x + y) by (bit_vector)
        requires
            x != 0,
            y == (x - 1) as usize,
    ;
}

/// One step of a prefix-sum walk, computed as `x & (x - 1)` in wrapping
/// arithmetic.
pub fn next_down(x: usize) -> (r: usize)
    ensures
        r == spec_next_down(x),
{
    let r = x & x.wrapping_sub(1);
    proof {
        if x == 0 {
            assert(0usize & usize::MAX == 0) by (bit_vector);
        }
    }
    r
}

/// One step of an update walk, computed as `(x | (x - 1)) + 1` in wrapping
/// arithmetic.
pub fn next_up(x: usize) -> (r: usize)
    ensures
        r == spec_next_up(x),
{
    let m = x | x.wrapping_sub(1);
    proof {
        if x == 0 {
            let a = x.wrapping_sub(1);
            assert(a == usize::MAX);
            assert(0usize | a == a) by (bit_vector);
        }
    }
    m.wrapping_add(1)
}

/// Starts the walk over the nodes whose sums make up the prefix sum of
/// `1 ..= init`; it yields nothing when `init` is 0.
pub fn down(init: usize) -> (r: Down)
    ensures
        r@ == down_seq(init),
{
    Down(init)
}

/// A prefix-sum walk in progress: the position it yields next, or 0 once it
/// is exhausted.
pub struct Down(usize);

impl View for Down {
    type V = Seq<usize>;

    closed spec fn view(&self) -> Seq<usize> {
        down_seq(self.0)
    }
}

impl Down {
    /// Yields the next position of the walk, or `None` once it is exhausted.
    pub fn next(&mut self) -> (r: Option<usize>)
        ensures
            old(self)@.len() == 0 ==> r is None && final(self)@ == old(self)@,
            old(self)@.len() > 0 ==> r == Some(old(self)@[0]) && final(self)@
                == old(self)@.drop_first(),
    {
        let x = self.0;
        if x != 0 {
            self.0 = next_down(x);
            assert(old(self)@.drop_first() =~= final(self)@);
            Some(x)
        } else {
            None
        }
    }
}

/// Starts the walk over the nodes up to `limit_inclusive` that must change when
/// logical element `init` changes; it yields nothing when `init` exceeds the
/// limit. The bound on the limit keeps every step from wrapping.
pub fn up(init: usize, limit_inclusive: usize) -> (r: Up)
    requires
        1 <= init,
        limit_inclusive <= usize::MAX / 2,
    ensures
        r@ == up_seq(init, limit_inclusive),
{
    Up { curr: init, limit_inclusive }
}

/// An update walk in progress: the position it yields next, and the bound
/// that ends it.
pub struct Up {
    curr: usize,
    limit_inclusive: usize,
}

impl View for Up {
    type V = Seq<usize>;

    closed spec fn view(&self) -> Seq<usize> {
        up_seq(self.curr, self.limit_inclusive)
    }
}

impl Up {
    #[verifier::type_invariant]
    spec fn well_formed(&self) -> bool {
        1 <= self.curr && self.limit_inclusive <= usize::MAX / 2
    }

    /// Yields the next position of the walk, or `None` once it is exhausted.
    pub fn next(&mut self) -> (r: Option<usize>)
        ensures
            old(self)@.len() == 0 ==> r is None && final(self)@ == old(self)@,
            old(self)@.len() > 0 ==> r == Some(old(self)@[0]) && final(self)@
                == old(self)@.drop_first(),
    {
        proof {
            use_type_invariant(&*self);
        }
        let x = self.curr;
        if x <= self.limit_inclusive {
            proof {
                lemma_next_up_gt(x);
            }
            self.curr = next_up(x);
            assert(old(self)@.drop_first() =~= final(self)@);
            Some(x)
        } else {
            None
        }
    }
}

/// Every node of a prefix-sum walk from `x` lies in `1 ..= x`.
pub proof fn lemma_down_seq_bounded(x: usize)
    ensures
        forall|k: int| 0 <= k < down_seq(x).len() ==> 1 <= #[trigger] down_seq(x)[k] <= x,
    decreases x,
{
    if x != 0 {
        lemma_next_down_lt(x);
        let n = spec_next_down(x);
        lemma_down_seq_bounded(n);
        assert forall|k: int| 0 <= k < down_seq(x).len() implies 1 <= #[trigger] down_seq(x)[k]
            <= x by {
            if k > 0 {
                assert(down_seq(x)[k] == down_seq(n)[k - 1]);
            }
        }
    }
}

/// Every node of an update walk from `x` lies in `x ..= limit_inclusive`, and
/// the walk climbs strictly.
pub proof fn lemma_up_seq_bounded(x: usize, limit_inclusive: usize)
    requires
        1 <= x,
        limit_inclusive <= usize::MAX / 2,
    ensures
        forall|k: int|
            0 <= k < up_seq(x, limit_inclusive).len() ==> x <= #[trigger] up_seq(
                x,
                limit_inclusive,
            )[k] <= limit_inclusive,
        forall|k: int, l: int|
            0 <= k < l < up_seq(x, limit_inclusive).len() ==> #[trigger] up_seq(
                x,
                limit_inclusive,
            )[k] < #[trigger] up_seq(x, limit_inclusive)[l],
    decreases (if x > limit_inclusive { 0 } else { limit_inclusive + 1 - x }),
{
    if x <= limit_inclusive {
        lemma_next_up_gt(x);
        let u = spec_next_up(x);
        lemma_up_seq_bounded(u, limit_inclusive);
        let s = up_seq(x, limit_inclusive);
        let t = up_seq(u, limit_inclusive);
        assert forall|k: int| 0 <= k < s.len() implies x <= #[trigger] s[k] <= limit_inclusive by {
            if k > 0 {
                assert(s[k] == t[k - 1]);
            }
        }
        assert forall|k: int, l: int| 0 <= k < l < s.len() implies #[trigger] s[k]
            < #[trigger] s[l] by {
            assert(s[l] == t[l - 1]);
            if k > 0 {
                assert(s[k] == t[k - 1]);
            }
        }
    }
}

} // verus!
