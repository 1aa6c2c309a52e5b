//! A collection without its first item.

use vstd::prelude::*;
use crate::element::{clone_is_identity, clones_of, copies_of};

verus! {

/// All the items of `items` but the first; nothing where `items` holds
/// nothing.
pub open spec fn all_but_first<A>(items: Seq<A>) -> Seq<A> {
    if items.len() == 0 {
        items
    } else {
        items.drop_first()
    }
}

/// Gets all but the first element of `array`.
pub fn tail<A>(array: &[A]) -> (result: Vec<A>) where A: Clone
    ensures
        clones_of(result@, all_but_first(array@)),
        clone_is_identity::<A>() ==> result@ == all_but_first(array@),
{
    let start: usize = if array.len() == 0 {
        0
    } else {
        1
    };
    assert(array@.subrange(start as int, array@.len() as int) =~= all_but_first(array@));
    copies_of(array, start, array.len())
}

/// The collection without its first item, as a method of the collection
/// itself.
pub trait Tail<A, I>: View<V = Seq<I>> where A: IntoIterator, I: Clone {
    /// Gets all but the first element of this collection; see [`tail`].
    fn tail(&self) -> (result: Vec<I>)
        ensures
            clones_of(result@, all_but_first(self@)),
            clone_is_identity::<I>() ==> result@ == all_but_first(self@),
    ;
}

impl<A> Tail<Vec<A>, A> for Vec<A> where A: Clone {
    fn tail(&self) -> (result: Vec<A>) {
        tail(self.as_slice())
    }
}

impl<A, const N: usize> Tail<[A; N], A> for [A; N] where A: Clone {
    fn tail(&self) -> (result: Vec<A>) {
        tail(self.as_slice())
    }
}

} // verus!
