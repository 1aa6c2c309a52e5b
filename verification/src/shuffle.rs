//! The items of a collection in an order picked by chance.

use vstd::prelude::*;
use rand::seq::SliceRandom;
use crate::element::{clone_is_identity, copies_of};

verus! {

/// Calls `SliceRandom::shuffle` of rand on the items of `items`, with the
/// generator of the current thread (`rand::rng`). Which order comes out is
/// left to chance. What is claimed here, and not proved, is what holds of
/// every outcome: the call only swaps items within the slice, so the same
/// items are there afterwards, each as often as before.
///
/// The generator is seeded from the operating system when a thread first
/// asks for it, and rand panics where the system gives no seed.
#[verifier::external_body]
fn shuffle_in_place<A>(items: &mut Vec<A>)
    ensures
        final(items)@.to_multiset() == old(items)@.to_multiset(),
{
    items.as_mut_slice().shuffle(&mut rand::rng());
}

/// Creates a vector of the values of `array` in an order that chance picks:
/// the same values, each as often as `array` holds it.
pub fn shuffle<A>(array: &[A]) -> (result: Vec<A>) where A: Clone
    ensures
        result@.len() == array@.len(),
        clone_is_identity::<A>() ==> result@.to_multiset() == array@.to_multiset(),
{
    assert(array@.subrange(0, array@.len() as int) =~= array@);
    let mut result = copies_of(array, 0, array.len());
    let ghost copied = result@;
    shuffle_in_place(&mut result);
    proof {
        copied.to_multiset_ensures();
        result@.to_multiset_ensures();
    }
    result
}

/// Shuffling as a method of the collection itself.
pub trait Shuffle<A, I>: View<V = Seq<I>> where A: IntoIterator, I: Clone {
    /// Creates a vector of the values of this collection in an order that
    /// chance picks; see [`shuffle`].
    fn shuffle(&self) -> (result: Vec<I>)
        ensures
            result@.len() == self@.len(),
            clone_is_identity::<I>() ==> result@.to_multiset() == self@.to_multiset(),
    ;
}

impl<A> Shuffle<Vec<A>, A> for Vec<A> where A: Clone {
    fn shuffle(&self) -> (result: Vec<A>) {
        shuffle(self.as_slice())
    }
}

impl<A, const N: usize> Shuffle<[A; N], A> for [A; N] where A: Clone {
    fn shuffle(&self) -> (result: Vec<A>) {
        shuffle(self.as_slice())
    }
}

} // verus!
