//! Removing several values from a collection, in place.

use vstd::prelude::*;
use crate::difference::{
    difference_of, lemma_difference_is_without, lemma_difference_step, without,
};
use crate::search::{comparable, found_in, hint_holds};

verus! {

/// Removes from `array` every item whose value `values` holds, and keeps the
/// others in their order.
///
/// With `is_sorted` set to `Some(true)`, `values` is searched by halving.
/// That finds what `values` holds where `values` is in ascending order. With
/// that flag and `values` in another order, what stays is still what the
/// search by halving leaves, and some items that `values` holds may be among
/// it.
pub fn pull_all<A>(array: &mut Vec<A>, values: &[A], is_sorted: Option<bool>) where
    A: PartialEq + Ord,

    ensures
        comparable::<A>(is_sorted) ==> final(array)@ == difference_of(
            old(array)@,
            values@,
            is_sorted,
        ),
        comparable::<A>(is_sorted) && hint_holds(values@, is_sorted) ==> final(array)@ == without(
            old(array)@,
            values@,
        ),
{
    let mut items: Vec<A> = Vec::new();
    core::mem::swap(array, &mut items);
    assert(items@.take(0) =~= Seq::<A>::empty());
    for item in it: items
        invariant
            it.seq() == old(array)@,
            comparable::<A>(is_sorted) ==> array@ == difference_of(
                old(array)@.take(it.index() as int),
                values@,
                is_sorted,
            ),
    {
        proof {
            lemma_difference_step(old(array)@, values@, is_sorted, it.index() as int);
        }
        if !found_in(values, &item, is_sorted) {
            array.push(item);
        }
    }
    proof {
        assert(old(array)@.take(old(array)@.len() as int) =~= old(array)@);
        if hint_holds(values@, is_sorted) {
            lemma_difference_is_without(old(array)@, values@, is_sorted);
        }
    }
}

/// Removal of several values as a method of the collection itself.
pub trait PullAll<A, I>: View<V = Seq<I>> where A: IntoIterator, I: PartialEq + Ord {
    /// Removes from this collection every item whose value `values` holds;
    /// see [`pull_all`].
    fn pull_all(&mut self, values: &[I], is_sorted: Option<bool>)
        ensures
            comparable::<I>(is_sorted) ==> final(self)@ == difference_of(
                old(self)@,
                values@,
                is_sorted,
            ),
            comparable::<I>(is_sorted) && hint_holds(values@, is_sorted) ==> final(self)@
                == without(old(self)@, values@),
    ;
}

impl<A> PullAll<Vec<A>, A> for Vec<A> where A: PartialEq + Ord {
    fn pull_all(&mut self, values: &[A], is_sorted: Option<bool>) {
        pull_all(self, values, is_sorted)
    }
}

} // verus!
