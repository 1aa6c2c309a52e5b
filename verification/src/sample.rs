//! One item of a collection, picked by chance.

use vstd::prelude::*;
use rand::seq::IndexedRandom;

verus! {

/// Whether `picked` is an item of `items`, or `None` where `items` holds
/// nothing to pick.
pub open spec fn is_pick_of<A>(picked: Option<&A>, items: Seq<A>) -> bool {
    match picked {
        Some(item) => items.contains(*item),
        None => items.len() == 0,
    }
}

/// Calls `IndexedRandom::choose` of rand on `items`, with the generator of
/// the current thread (`rand::rng`). Which item comes back is left to chance.
/// What is claimed here, and not proved, is what holds of every outcome: the
/// call gives `None` on an empty slice and nowhere else, and otherwise a
/// reference to one of the items of the slice.
///
/// The generator is seeded from the operating system when a thread first
/// asks for it, and rand panics where the system gives no seed.
#[verifier::external_body]
fn pick_one<A>(items: &[A]) -> (picked: Option<&A>)
    ensures
        is_pick_of(picked, items@),
{
    items.choose(&mut rand::rng())
}

/// Gets a random element from `array`: one of its items, whichever chance
/// picks, and `None` only where `array` is empty.
pub fn sample<A>(array: &[A]) -> (result: Option<&A>)
    ensures
        is_pick_of(result, array@),
{
    pick_one(array)
}

/// Random choice as a method of the collection itself.
pub trait Sample<A, I>: View<V = Seq<I>> where A: IntoIterator {
    /// Gets a random element from this collection; see [`sample`].
    fn sample(&self) -> (result: Option<&I>)
        ensures
            is_pick_of(result, self@),
    ;
}

impl<A> Sample<Vec<A>, A> for Vec<A> {
    fn sample(&self) -> (result: Option<&A>) {
        sample(self.as_slice())
    }
}

impl<A, const N: usize> Sample<[A; N], A> for [A; N] {
    fn sample(&self) -> (result: Option<&A>) {
        sample(self.as_slice())
    }
}

} // verus!
