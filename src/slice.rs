//! The accumulator operations under the names that suit a borrowed slice.
use vstd::prelude::*;

use crate::accumulate::Accumulate;
use crate::array::{nodes_sum, range_sum, represents, updated};
use crate::index_iter::zero_based::down_seq;

verus! {

/// Adds `delta` to logical element `i` of the Fenwick tree stored in
/// `fenwick`; the same operation as `array::update`.
pub fn update<T: Accumulate>(fenwick: &mut [T], i: usize, delta: T)
    requires
        i < old(fenwick)@.len(),
    ensures
        final(fenwick)@ == updated(old(fenwick)@, i, delta),
        forall|a: Seq<T>|
            represents(old(fenwick)@, a) ==> represents(
                final(fenwick)@,
                #[trigger] crate::array::added(a, i as int, delta),
            ),
{
    crate::array::update(fenwick, i, delta)
}

/// The sum of logical elements `0 ..= i` of the Fenwick tree stored in
/// `fenwick`; the same operation as `array::prefix_sum`.
pub fn partial_sum<T: Accumulate>(fenwick: &[T], i: usize) -> (r: T)
    requires
        i < fenwick@.len(),
    ensures
        r == nodes_sum(fenwick@, down_seq(i)),
        forall|a: Seq<T>| #[trigger] represents(fenwick@, a) ==> r == range_sum(a, 0, i + 1),
{
    crate::array::prefix_sum(fenwick, i)
}

} // verus!
