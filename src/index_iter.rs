//! Index sequences of the implicit Fenwick tree, produced one position at a
//! time by small cursor types, for one-based and zero-based arrays.
use vstd::prelude::*;

pub mod one_based;
pub mod zero_based;

verus! {

/// Shifts one-based positions to zero-based ones.
pub open spec fn to_zero_based(s: Seq<usize>) -> Seq<usize> {
    s.map_values(|y: usize| (y - 1) as usize)
}

/// The zero-based prefix-sum walk from `i` is the one-based walk from `i + 1`
/// with every position lowered by one.
pub proof fn lemma_down_conventions_agree(i: usize)
    requires
        i < usize::MAX,
    ensures
        zero_based::down_seq(i) == to_zero_based(one_based::down_seq((i + 1) as usize)),
    decreases i,
{
    let j = (i + 1) as usize;
    let y = (i + 1) as usize;
    assert((j & i) == (i & y)) by (bit_vector)
        requires
            j == y,
    ;
    let n = zero_based::spec_next_down(i);
    let m = one_based::spec_next_down(j);
    zero_based::lemma_node_low_le(i);
    assert(m == zero_based::node_low(i));
    let zs = zero_based::down_seq(n);
    let os = one_based::down_seq(m);
    assert(zero_based::down_seq(i) == seq![i] + zs);
    assert(one_based::down_seq(j) == seq![j] + os);
    if zero_based::node_low(i) != 0 {
        lemma_down_conventions_agree(n);
    } else {
        assert(zs == Seq::<usize>::empty());
        assert(os == Seq::<usize>::empty());
    }
    assert(to_zero_based(seq![j] + os) =~= seq![i] + to_zero_based(os));
}

/// The zero-based update walk from `i` below `limit` is the one-based walk from
/// `i + 1` up to `limit` with every position lowered by one.
pub proof fn lemma_up_conventions_agree(i: usize, limit: usize)
    requires
        i < limit,
    ensures
        zero_based::up_seq(i, limit) == to_zero_based(one_based::up_seq((i + 1) as usize, limit)),
    decreases limit - i,
{
    let j = (i + 1) as usize;
    let y = (i + 1) as usize;
    assert((j | i) == (i | y)) by (bit_vector)
        requires
            j == y,
    ;
    let u = zero_based::spec_next_up(i);
    zero_based::lemma_next_up_gt(i);
    let v = one_based::spec_next_up(j);
    assert(v == 0 || v == u + 1);
    let zs = zero_based::up_seq(u, limit);
    let os = one_based::up_seq(v, limit);
    assert(zero_based::up_seq(i, limit) == seq![i] + zs);
    assert(one_based::up_seq(j, limit) == seq![j] + os);
    if u < limit {
        lemma_up_conventions_agree(u, limit);
    } else {
        assert(zs == Seq::<usize>::empty());
        assert(os == Seq::<usize>::empty());
    }
    assert(to_zero_based(seq![j] + os) =~= seq![i] + to_zero_based(os));
}

} // verus!
