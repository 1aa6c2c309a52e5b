//! A collection without its last item.

use vstd::prelude::*;
use crate::element::{clone_is_identity, clones_of, copies_of};

verus! {

/// All the items of `items` but the last; nothing where `items` holds
/// nothing.
pub open spec fn all_but_last<A>(items: Seq<A>) -> Seq<A> {
    if items.len() == 0 {
        items
    } else {
        items.drop_last()
    }
}

/// Gets all but the last element of `array`.
pub fn initial<A>(array: &[A]) -> (result: Vec<A>) where A: Clone
    ensures
        clones_of(result@, all_but_last(array@)),
        clone_is_identity::<A>() ==> result@ == all_but_last(array@),
{
    let end: usize = if array.len() == 0 {
        0
    } else {
        array.len() - 1
    };
    assert(array@.subrange(0, end as int) =~= all_but_last(array@));
    copies_of(array, 0, end)
}

/// The collection without its last item, as a method of the collection
/// itself.
pub trait Initial<A, I>: View<V = Seq<I>> where A: IntoIterator, I: Clone {
    /// Gets all but the last element of this collection; see [`initial`].
    fn initial(&self) -> (result: Vec<I>)
        ensures
            clones_of(result@, all_but_last(self@)),
            clone_is_identity::<I>() ==> result@ == all_but_last(self@),
    ;
}

impl<A> Initial<Vec<A>, A> for Vec<A> where A: Clone {
    fn initial(&self) -> (result: Vec<A>) {
        initial(self.as_slice())
    }
}

impl<A, const N: usize> Initial<[A; N], A> for [A; N] where A: Clone {
    fn initial(&self) -> (result: Vec<A>) {
        initial(self.as_slice())
    }
}

} // verus!
