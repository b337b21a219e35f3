//! Index sequences of a zero-based Fenwick tree.
//!
//! Node `x` of a zero-based tree stores the sum of the logical elements
//! `node_low(x) ..= x`, where `node_low(x)` is `x` with its trailing one bits
//! cleared. The steps use wrapping arithmetic on `usize`, so that index 0 and
//! the all-ones value need no special case.
use vstd::prelude::*;

verus! {

/// First logical element summed by node `x` (for `x` below all ones).
pub open spec fn node_low(x: usize) -> usize {
    x & ((x + 1) as usize)
}

/// Node `x` holds logical element `i` in its sum.
pub open spec fn covers(x: usize, i: usize) -> bool {
    x < usize::MAX && node_low(x) <= i && i <= x
}

/// One step of a prefix-sum walk: the node ending just below the range of `x`,
/// or all ones once that range starts at 0 (and for all ones itself).
pub open spec fn spec_next_down(x: usize) -> usize {
    if x == usize::MAX || node_low(x) == 0 {
        usize::MAX
    } else {
        (node_low(x) - 1) as usize
    }
}

/// One step of an update walk: `x` with its lowest clear bit set.
pub open spec fn spec_next_up(x: usize) -> usize {
    if x == usize::MAX {
        usize::MAX
    } else {
        x | ((x + 1) as usize)
    }
}

/// The nodes whose sums add up to the prefix `0 ..= x`, highest first; empty
/// for all ones.
pub open spec fn down_seq(x: usize) -> Seq<usize>
    decreases (if x == usize::MAX { 0 } else { x + 1 }),
    via down_seq_decreases
{
    if x == usize::MAX {
        Seq::empty()
    } else {
        seq![x] + down_seq(spec_next_down(x))
    }
}

#[via_fn]
proof fn down_seq_decreases(x: usize) {
    if x != usize::MAX {
        lemma_node_low_le(x);
    }
}

/// The nodes below `limit` that must change when logical element `x` changes,
/// lowest first; empty when `x >= limit`.
pub open spec fn up_seq(x: usize, limit: usize) -> Seq<usize>
    decreases (if x < limit { limit - x } else { 0 }),
    via up_seq_decreases
{
    if x >= limit {
        Seq::empty()
    } else {
        seq![x] + up_seq(spec_next_up(x), limit)
    }
}

#[via_fn]
proof fn up_seq_decreases(x: usize, limit: usize) {
    if x < limit {
        lemma_next_up_gt(x);
    }
}

pub proof fn lemma_node_low_le(x: usize)
    requires
        x < usize::MAX,
    ensures
        node_low(x) <= x,
{
    let y = (x + 1) as usize;
    assert(x & y <= x) by (bit_vector)
        requires
            y == (x + 1) as usize,
            y != 0,
    ;
}

pub proof fn lemma_next_up_gt(x: usize)
    requires
        x < usize::MAX,
    ensures
        spec_next_up(x) > x,
{
    let y = (x + 1) as usize;
    assert(x | y > x) by (bit_vector)
        requires
            y == (x + 1) as usize,
            y != 0,
    ;
}

/// One step of a prefix-sum walk, computed as `(x & (x + 1)) - 1` in
/// wrapping arithmetic.
pub fn next_down(x: usize) -> (r: usize)
    ensures
        r == spec_next_down(x),
{
    let a = x.wrapping_add(1);
    let b = x & a;
    let r = b.wrapping_sub(1);
    proof {
        if x == usize::MAX {
            assert(a == 0);
            assert(x & 0 == 0) by (bit_vector);
        } else {
            assert(a == (x + 1) as usize);
        }
    }
    r
}

/// One step of an update walk, computed as `x | (x + 1)` in wrapping
/// arithmetic.
pub fn next_up(x: usize) -> (r: usize)
    ensures
        r == spec_next_up(x),
{
    let a = x.wrapping_add(1);
    proof {
        if x == usize::MAX {
            assert(a == 0);
            assert(x | 0 == x) by (bit_vector);
        }
    }
    x | a
}

/// Starts the walk over the nodes whose sums make up the prefix sum of
/// `0 ..= init`; it yields nothing when `init` is all ones.
pub fn down(init: usize) -> (r: Down)
    ensures
        r@ == down_seq(init),
{
    Down(init)
}

/// A prefix-sum walk in progress: the position it yields next, or all ones
/// once it is exhausted.
pub struct Down(usize);

impl View for Down {
    type V = Seq<usize>;

    closed spec fn view(&self) -> Seq<usize> {
        down_seq(self.0)
    }
}

impl Down {
    /// Yields the next position of the walk, or `None` once it is exhausted.
    pub fn next(&mut self) -> (r: Option<usize>)
        ensures
            old(self)@.len() == 0 ==> r is None && final(self)@ == old(self)@,
            old(self)@.len() > 0 ==> r == Some(old(self)@[0]) && final(self)@
                == old(self)@.drop_first(),
    {
        let x = self.0;
        if x != usize::MAX {
            self.0 = next_down(x);
            assert(old(self)@.drop_first() =~= final(self)@);
            Some(x)
        } else {
            None
        }
    }
}

/// Starts the walk over the nodes below `limit_exclusive` that must change when
/// logical element `init` changes; it yields nothing when
/// `init >= limit_exclusive`.
pub fn up(init: usize, limit_exclusive: usize) -> (r: Up)
    ensures
        r@ == up_seq(init, limit_exclusive),
{
    Up { curr: init, limit_exclusive }
}

/// An update walk in progress: the position it yields next, and the bound
/// that ends it.
pub struct Up {
    curr: usize,
    limit_exclusive: usize,
}

impl View for Up {
    type V = Seq<usize>;

    closed spec fn view(&self) -> Seq<usize> {
        up_seq(self.curr, self.limit_exclusive)
    }
}

impl Up {
    /// Yields the next position of the walk, or `None` once it is exhausted.
    pub fn next(&mut self) -> (r: Option<usize>)
        ensures
            old(self)@.len() == 0 ==> r is None && final(self)@ == old(self)@,
            old(self)@.len() > 0 ==> r == Some(old(self)@[0]) && final(self)@
                == old(self)@.drop_first(),
    {
        let x = self.curr;
        if x < self.limit_exclusive {
            self.curr = next_up(x);
            assert(old(self)@.drop_first() =~= final(self)@);
            Some(x)
        } else {
            None
        }
    }
}

/// Every node of a prefix-sum walk from `x` lies at or below `x`.
pub proof fn lemma_down_seq_bounded(x: usize)
    ensures
        forall|k: int| 0 <= k < down_seq(x).len() ==> #[trigger] down_seq(x)[k] <= x,
    decreases (if x == usize::MAX { 0 } else { x + 1 }),
{
    if x != usize::MAX {
        lemma_node_low_le(x);
        let n = spec_next_down(x);
        lemma_down_seq_bounded(n);
        assert forall|k: int| 0 <= k < down_seq(x).len() implies #[trigger] down_seq(x)[k] <= x by {
            if k > 0 {
                assert(down_seq(x)[k] == down_seq(n)[k - 1]);
            }
        }
    }
}

/// Every node of an update walk from `x` lies in `x .. limit`, and the walk
/// climbs strictly.
pub proof fn lemma_up_seq_increasing(x: usize, limit: usize)
    ensures
        forall|k: int|
            0 <= k < up_seq(x, limit).len() ==> x <= #[trigger] up_seq(x, limit)[k] < limit,
        forall|k: int, l: int|
            0 <= k < l < up_seq(x, limit).len() ==> #[trigger] up_seq(x, limit)[k]
                < #[trigger] up_seq(x, limit)[l],
    decreases (if x < limit { limit - x } else { 0 }),
{
    if x < limit {
        lemma_next_up_gt(x);
        let u = spec_next_up(x);
        lemma_up_seq_increasing(u, limit);
        let s = up_seq(x, limit);
        let t = up_seq(u, limit);
        assert forall|k: int| 0 <= k < s.len() implies x <= #[trigger] s[k] < limit by {
            if k > 0 {
                assert(s[k] == t[k - 1]);
            }
        }
        assert forall|k: int, l: int| 0 <= k < l < s.len() implies #[trigger] s[k]
            < #[trigger] s[l] by {
            assert(s[l] == t[l - 1]);
            if k > 0 {
                assert(s[k] == t[k - 1]);
            }
        }
    }
}

/// No node strictly between `x` and the next node of its update walk reaches
/// down to `x`.
pub proof fn lemma_up_step_skips(x: usize, j: usize)
    requires
        x < usize::MAX,
        x < j,
        j < spec_next_up(x),
    ensures
        j < usize::MAX,
        node_low(j) > x,
{
    let y = (x + 1) as usize;
    let z = (j + 1) as usize;
    assert(x & y <= x) by (bit_vector);
    assert(j & z > x) by (bit_vector)
        requires
            y == (x + 1) as usize,
            y != 0,
            z == (j + 1) as usize,
            z != 0,
            x < j,
            j < (x | y),
    ;
}

/// The next node of an update walk covers everything that `x` covers.
pub proof fn lemma_up_step_covers(x: usize, i: usize)
    requires
        covers(x, i),
        spec_next_up(x) < usize::MAX,
    ensures
        covers(spec_next_up(x), i),
{
    lemma_next_up_gt(x);
    let y = (x + 1) as usize;
    let u = x | y;
    let w = (u + 1) as usize;
    assert(u & w <= x & y) by (bit_vector)
        requires
            y == (x + 1) as usize,
            y != 0,
            u == x | y,
            w == (u + 1) as usize,
            w != 0,
    ;
}

/// From a node that covers `i`, the update walk below `limit` visits only nodes
/// that cover `i`, and every node from `x` on below `limit` that covers `i`.
pub proof fn lemma_up_seq_covers(x: usize, limit: usize, i: usize)
    requires
        covers(x, i),
    ensures
        forall|k: int| 0 <= k < up_seq(x, limit).len() ==> covers(#[trigger] up_seq(x, limit)[k], i),
        forall|j: usize| x <= j < limit && covers(j, i) ==> up_seq(x, limit).contains(j),
    decreases (if x < limit { limit - x } else { 0 }),
{
    if x < limit {
        lemma_next_up_gt(x);
        let u = spec_next_up(x);
        let s = up_seq(x, limit);
        let t = up_seq(u, limit);
        if u < limit {
            lemma_up_step_covers(x, i);
            lemma_up_seq_covers(u, limit, i);
        }
        assert forall|k: int| 0 <= k < s.len() implies covers(#[trigger] s[k], i) by {
            if k > 0 {
                assert(s[k] == t[k - 1]);
            }
        }
        assert forall|j: usize| x <= j < limit && covers(j, i) implies s.contains(j) by {
            if j == x {
                assert(s[0] == x);
            } else if j < u {
                lemma_up_step_skips(x, j);
            } else {
                let k = choose|k: int| 0 <= k < t.len() && t[k] == j;
                assert(s[k + 1] == j);
            }
        }
    }
}

/// The update walk from `i` below `limit` visits exactly the nodes below
/// `limit` that cover `i`.
pub proof fn lemma_up_walk(i: usize, limit: usize)
    requires
        i < limit,
    ensures
        forall|j: usize| j < limit ==> (up_seq(i, limit).contains(j) <==> covers(j, i)),
{
    lemma_node_low_le(i);
    lemma_up_seq_covers(i, limit, i);
    lemma_up_seq_increasing(i, limit);
    assert forall|j: usize| j < limit implies (up_seq(i, limit).contains(j) <==> covers(j, i)) by {
        if up_seq(i, limit).contains(j) {
            let k = choose|k: int| 0 <= k < up_seq(i, limit).len() && up_seq(i, limit)[k] == j;
            assert(covers(up_seq(i, limit)[k], i));
        }
    }
}

} // verus!
