//! Operations on a one-dimensional Fenwick tree stored in a zero-based slice.
//!
//! The slice is the tree's backing array, not the logical array: node `j`
//! holds the sum of the logical elements `node_low(j) ..= j`. Starting from
//! all zeros, `update(f, i, d)` performs `a[i] += d` on the logical array `a`,
//! and `prefix_sum(f, i)` returns `a[0] + ... + a[i]`.
use vstd::prelude::*;

use crate::accumulate::Accumulate;
use crate::index::zero_based::{down as seq_dn, up as seq_up};
use crate::index_iter::zero_based::{
    covers,
    down_seq,
    lemma_node_low_le,
    lemma_up_seq_increasing,
    lemma_up_walk,
    node_low,
    spec_next_down,
};

verus! {

/// The sum of the logical elements `a[lo .. hi]`, added from the left.
pub open spec fn range_sum<T: Accumulate>(a: Seq<T>, lo: int, hi: int) -> T
    decreases hi - lo,
{
    if hi <= lo {
        T::zero_value()
    } else {
        range_sum(a, lo, hi - 1).plus(a[hi - 1])
    }
}

/// `f` is the backing array of a Fenwick tree over the logical array `a`:
/// each node holds the sum of its range of `a`.
pub open spec fn represents<T: Accumulate>(f: Seq<T>, a: Seq<T>) -> bool {
    &&& f.len() == a.len()
    &&& f.len() <= usize::MAX
    &&& forall|j: int|
        0 <= j < f.len() ==> #[trigger] f[j] == range_sum(a, node_low(j as usize) as int, j + 1)
}

/// `n` zeros.
pub open spec fn zeros<T: Accumulate>(n: nat) -> Seq<T> {
    Seq::new(n, |k: int| T::zero_value())
}

/// The backing array `f` after adding `delta` to logical element `i`: every
/// node that covers `i` grows by `delta`, and no other node changes.
pub open spec fn updated<T: Accumulate>(f: Seq<T>, i: usize, delta: T) -> Seq<T> {
    Seq::new(
        f.len(),
        |j: int|
            if covers(j as usize, i) {
                f[j].plus(delta)
            } else {
                f[j]
            },
    )
}

/// The logical array `a` after adding `delta` to its element `i`.
pub open spec fn added<T: Accumulate>(a: Seq<T>, i: int, delta: T) -> Seq<T> {
    a.update(i, a[i].plus(delta))
}

/// The sum of the nodes of `f` listed in `s`.
pub open spec fn nodes_sum<T: Accumulate>(f: Seq<T>, s: Seq<usize>) -> T
    decreases s.len(),
{
    if s.len() == 0 {
        T::zero_value()
    } else {
        f[s[0] as int].plus(nodes_sum(f, s.drop_first()))
    }
}

/// Updates one element in the Fenwick tree stored in `fenwick`: conceptually
/// `a[i] += delta` on the logical array `a`.
pub fn update<T: Accumulate>(fenwick: &mut [T], i: usize, delta: T)
    requires
        i < old(fenwick)@.len(),
    ensures
        final(fenwick)@ == updated(old(fenwick)@, i, delta),
        forall|a: Seq<T>|
            represents(old(fenwick)@, a) ==> represents(
                final(fenwick)@,
                #[trigger] added(a, i as int, delta),
            ),
{
    let ghost f0 = fenwick@;
    let n = fenwick.len();
    let mut it = seq_up(i, n);
    proof {
        lemma_up_walk(i, n);
        lemma_up_seq_increasing(i, n);
    }
    loop
        invariant
            fenwick@.len() == n,
            n == f0.len(),
            forall|k: int| 0 <= k < it@.len() ==> #[trigger] it@[k] < n,
            forall|k: int, l: int|
                0 <= k < l < it@.len() ==> #[trigger] it@[k] < #[trigger] it@[l],
            forall|j: usize|
                j < n ==> (#[trigger] it@.contains(j) ==> covers(j, i)),
            forall|j: int|
                0 <= j < n ==> #[trigger] fenwick@[j] == if covers(j as usize, i)
                    && !it@.contains(j as usize) {
                    f0[j].plus(delta)
                } else {
                    f0[j]
                },
        ensures
            it@.len() == 0,
        decreases it@.len(),
    {
        let ghost before = it@;
        match it.next() {
            Some(k) => {
                let mut v = fenwick[k];
                v.add_in_place(delta);
                fenwick[k] = v;
                proof {
                    assert forall|j: usize| #[trigger] before.contains(j) && j != k implies it@.contains(
                        j,
                    ) by {
                        let m = choose|m: int| 0 <= m < before.len() && before[m] == j;
                        assert(it@[m - 1] == j);
                    }
                    assert forall|j: usize| #[trigger] it@.contains(j) implies before.contains(j)
                        && j != k by {
                        let m = choose|m: int| 0 <= m < it@.len() && it@[m] == j;
                        assert(before[m + 1] == j);
                    }
                }
            },
            None => {
                break ;
            },
        }
    }
    proof {
        assert(fenwick@ =~= updated(f0, i, delta));
        assert forall|a: Seq<T>| represents(f0, a) implies represents(
            fenwick@,
            #[trigger] added(a, i as int, delta),
        ) by {
            lemma_update_keeps_representation(f0, a, i, delta);
        }
    }
}

/// The prefix sum up to and including `i` of the Fenwick tree stored in
/// `fenwick`: conceptually `a[0] + ... + a[i]` on the logical array `a`.
pub fn prefix_sum<T: Accumulate>(fenwick: &[T], i: usize) -> (r: T)
    requires
        i < fenwick@.len(),
    ensures
        r == nodes_sum(fenwick@, down_seq(i)),
        forall|a: Seq<T>| #[trigger] represents(fenwick@, a) ==> r == range_sum(a, 0, i + 1),
{
    let n = fenwick.len();
    let mut sum = T::zero();
    let mut it = seq_dn(i);
    proof {
        T::lemma_commutative_monoid(nodes_sum(fenwick@, down_seq(i)), sum, sum);
    }
    loop
        invariant
            i < fenwick@.len(),
            forall|k: int| 0 <= k < it@.len() ==> #[trigger] it@[k] <= i,
            sum.plus(nodes_sum(fenwick@, it@)) == nodes_sum(fenwick@, down_seq(i)),
        ensures
            sum == nodes_sum(fenwick@, down_seq(i)),
        decreases it@.len(),
    {
        let ghost before = it@;
        match it.next() {
            Some(k) => {
                let ghost s0 = sum;
                sum.add_in_place(fenwick[k]);
                proof {
                    T::lemma_commutative_monoid(s0, fenwick@[k as int], nodes_sum(fenwick@, it@));
                    assert forall|m: int| 0 <= m < it@.len() implies #[trigger] it@[m] <= i by {
                        assert(it@[m] == before[m + 1]);
                    }
                }
            },
            None => {
                proof {
                    T::lemma_commutative_monoid(sum, sum, sum);
                    assert(nodes_sum(fenwick@, it@) == T::zero_value());
                }
                break ;
            },
        }
    }
    proof {
        assert forall|a: Seq<T>| #[trigger] represents(fenwick@, a) implies sum == range_sum(
            a,
            0,
            i + 1,
        ) by {
            lemma_prefix_walk(fenwick@, a, i);
        }
    }
    sum
}

/// A range sum splits at any point in between.
pub proof fn lemma_range_sum_split<T: Accumulate>(a: Seq<T>, lo: int, mid: int, hi: int)
    requires
        lo <= mid <= hi,
    ensures
        range_sum(a, lo, hi) == range_sum(a, lo, mid).plus(range_sum(a, mid, hi)),
    decreases hi - mid,
{
    if hi == mid {
        T::lemma_commutative_monoid(range_sum(a, lo, mid), a[0], a[0]);
    } else {
        lemma_range_sum_split(a, lo, mid, hi - 1);
        T::lemma_commutative_monoid(range_sum(a, lo, mid), range_sum(a, mid, hi - 1), a[hi - 1]);
    }
}

/// Adding `delta` to one logical element adds it to exactly the range sums
/// that include that element.
pub proof fn lemma_range_sum_added<T: Accumulate>(a: Seq<T>, k: int, delta: T, lo: int, hi: int)
    requires
        0 <= k < a.len(),
        0 <= lo,
        hi <= a.len(),
    ensures
        range_sum(added(a, k, delta), lo, hi) == if lo <= k < hi {
            range_sum(a, lo, hi).plus(delta)
        } else {
            range_sum(a, lo, hi)
        },
    decreases hi - lo,
{
    let b = added(a, k, delta);
    if hi > lo {
        lemma_range_sum_added(a, k, delta, lo, hi - 1);
        let r = range_sum(a, lo, hi - 1);
        if hi - 1 == k {
            T::lemma_commutative_monoid(r, a[k], delta);
        } else if lo <= k < hi - 1 {
            T::lemma_commutative_monoid(r, delta, a[hi - 1]);
            T::lemma_commutative_monoid(r, a[hi - 1], delta);
            T::lemma_commutative_monoid(delta, a[hi - 1], delta);
        }
    }
}

/// Updating a backing array keeps it the Fenwick tree of the logical array
/// with the same element added.
pub proof fn lemma_update_keeps_representation<T: Accumulate>(
    f: Seq<T>,
    a: Seq<T>,
    i: usize,
    delta: T,
)
    requires
        represents(f, a),
        i < f.len(),
    ensures
        represents(updated(f, i, delta), added(a, i as int, delta)),
{
    let g = updated(f, i, delta);
    let b = added(a, i as int, delta);
    assert forall|j: int| 0 <= j < g.len() implies #[trigger] g[j] == range_sum(
        b,
        node_low(j as usize) as int,
        j + 1,
    ) by {
        lemma_node_low_le(j as usize);
        lemma_range_sum_added(a, i as int, delta, node_low(j as usize) as int, j + 1);
    }
}

/// The nodes of a prefix-sum walk from `x` sum to the logical prefix
/// `a[0 ..= x]`.
pub proof fn lemma_prefix_walk<T: Accumulate>(f: Seq<T>, a: Seq<T>, x: usize)
    requires
        represents(f, a),
        x < f.len(),
    ensures
        nodes_sum(f, down_seq(x)) == range_sum(a, 0, x + 1),
    decreases x,
{
    lemma_node_low_le(x);
    let lo = node_low(x);
    let n = spec_next_down(x);
    let rest = down_seq(n);
    assert(down_seq(x) == seq![x] + rest);
    assert(down_seq(x).drop_first() =~= rest);
    lemma_range_sum_split(a, 0, lo as int, x + 1);
    assert(f[x as int] == range_sum(a, lo as int, x + 1));
    assert(nodes_sum(f, down_seq(x)) == f[x as int].plus(nodes_sum(f, rest)));
    if lo == 0 {
        assert(rest == Seq::<usize>::empty());
        T::lemma_commutative_monoid(f[x as int], f[x as int], f[x as int]);
        T::lemma_commutative_monoid(T::zero_value(), f[x as int], f[x as int]);
    } else {
        lemma_prefix_walk(f, a, n);
        T::lemma_commutative_monoid(f[x as int], nodes_sum(f, rest), f[x as int]);
    }
}

/// An all-zero backing array is the Fenwick tree of the all-zero logical
/// array.
pub proof fn lemma_zeros_represent_zeros<T: Accumulate>(n: nat)
    requires
        n <= usize::MAX,
    ensures
        represents(zeros::<T>(n), zeros::<T>(n)),
{
    assert forall|lo: int, hi: int| 0 <= lo && hi <= n implies #[trigger] range_sum(
        zeros::<T>(n),
        lo,
        hi,
    ) == T::zero_value() by {
        lemma_range_sum_zeros::<T>(n, lo, hi);
    }
    assert forall|j: int| 0 <= j < n implies #[trigger] zeros::<T>(n)[j] == range_sum(
        zeros::<T>(n),
        node_low(j as usize) as int,
        j + 1,
    ) by {
        lemma_node_low_le(j as usize);
    }
}

proof fn lemma_range_sum_zeros<T: Accumulate>(n: nat, lo: int, hi: int)
    requires
        0 <= lo,
        hi <= n,
    ensures
        range_sum(zeros::<T>(n), lo, hi) == T::zero_value(),
    decreases hi - lo,
{
    if hi > lo {
        lemma_range_sum_zeros::<T>(n, lo, hi - 1);
        T::lemma_commutative_monoid(T::zero_value(), T::zero_value(), T::zero_value());
    }
}

/// The backing array `f` after `update` is called with each `(index, delta)`
/// of `ops` in turn.
pub open spec fn apply_updates<T: Accumulate>(f: Seq<T>, ops: Seq<(usize, T)>) -> Seq<T>
    decreases ops.len(),
{
    if ops.len() == 0 {
        f
    } else {
        apply_updates(updated(f, ops[0].0, ops[0].1), ops.drop_first())
    }
}

/// The logical array `a` after each `(index, delta)` of `ops` is added to it
/// in turn.
pub open spec fn apply_direct<T: Accumulate>(a: Seq<T>, ops: Seq<(usize, T)>) -> Seq<T>
    decreases ops.len(),
{
    if ops.len() == 0 {
        a
    } else {
        apply_direct(added(a, ops[0].0 as int, ops[0].1), ops.drop_first())
    }
}

/// Any run of updates keeps a backing array the Fenwick tree of the logical
/// array that receives the same additions.
pub proof fn lemma_updates_keep_representation<T: Accumulate>(
    f: Seq<T>,
    a: Seq<T>,
    ops: Seq<(usize, T)>,
)
    requires
        represents(f, a),
        forall|k: int| 0 <= k < ops.len() ==> (#[trigger] ops[k]).0 < f.len(),
    ensures
        apply_updates(f, ops).len() == f.len(),
        represents(apply_updates(f, ops), apply_direct(a, ops)),
    decreases ops.len(),
{
    if ops.len() > 0 {
        let (i, d) = ops[0];
        lemma_update_keeps_representation(f, a, i, d);
        let rest = ops.drop_first();
        assert forall|k: int| 0 <= k < rest.len() implies (#[trigger] rest[k]).0 < f.len() by {
            assert(rest[k] == ops[k + 1]);
        }
        lemma_updates_keep_representation(updated(f, i, d), added(a, i as int, d), rest);
    }
}

/// Update/query duality: start from an all-zero backing array of length `n`
/// and apply any updates (any indices below `n`, in any order, repeats
/// included). Then the prefix sum up to any `i < n` equals `a[0] + ... + a[i]`
/// for the logical array `a` that receives the same additions directly.
pub proof fn lemma_update_query_duality<T: Accumulate>(
    n: usize,
    ops: Seq<(usize, T)>,
    i: usize,
)
    requires
        forall|k: int| 0 <= k < ops.len() ==> (#[trigger] ops[k]).0 < n,
        i < n,
    ensures
        nodes_sum(apply_updates(zeros::<T>(n as nat), ops), down_seq(i)) == range_sum(
            apply_direct(zeros::<T>(n as nat), ops),
            0,
            i + 1,
        ),
{
    lemma_zeros_represent_zeros::<T>(n as nat);
    lemma_updates_keep_representation(zeros::<T>(n as nat), zeros::<T>(n as nat), ops);
    lemma_prefix_walk(
        apply_updates(zeros::<T>(n as nat), ops),
        apply_direct(zeros::<T>(n as nat), ops),
        i,
    );
}

} // verus!
