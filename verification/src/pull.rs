//! Removing one value from a collection, in place.

use vstd::prelude::*;
use crate::difference::without;
use crate::element::eq_is_identity;
use crate::pull_all::pull_all;

verus! {

/// The items of `items` whose value is not `value`, in their order.
pub open spec fn without_value<A>(items: Seq<A>, value: A) -> Seq<A> {
    items.filter(|x: A| x != value)
}

/// To leave out one value is to leave out the values of a collection that
/// holds that value alone.
pub proof fn lemma_without_single<A>(items: Seq<A>, value: A)
    ensures
        without(items, seq![value]) == without_value(items, value),
    decreases items.len(),
{
    reveal(Seq::filter);
    if items.len() > 0 {
        lemma_without_single(items.drop_last(), value);
        assert(seq![value][0] == value);
        assert(seq![value].contains(items.last()) <==> items.last() == value);
    }
}

/// Removes from `array` every item whose value is `value`, not the first
/// alone, and keeps the others in their order.
pub fn pull<A>(array: &mut Vec<A>, value: A) where A: PartialEq + Ord
    ensures
        eq_is_identity::<A>() ==> final(array)@ == without_value(old(array)@, value),
{
    let values: [A; 1] = [value];
    proof {
        assert(values@ =~= seq![value]);
        lemma_without_single(old(array)@, value);
    }
    pull_all(array, values.as_slice(), None);
}

/// Removal of one value as a method of the collection itself.
pub trait Pull<A, I>: View<V = Seq<I>> where A: IntoIterator, I: PartialEq + Ord {
    /// Removes from this collection every item whose value is `value`; see
    /// [`pull`].
    fn pull(&mut self, value: I)
        ensures
            eq_is_identity::<I>() ==> final(self)@ == without_value(
                old(self)@,
                value,
            ),
    ;
}

impl<A> Pull<Vec<A>, A> for Vec<A> where A: PartialEq + Ord {
    fn pull(&mut self, value: A) {
        pull(self, value)
    }
}

} // verus!
