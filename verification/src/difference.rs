//! The values of one collection that another does not hold.

use vstd::prelude::*;
use crate::element::{clone_is_identity, clones_of, copy_of, lemma_clones_are_equal};
use crate::search::{comparable, finds, found_in, hint_holds, lemma_finds_what_is_there};

verus! {

/// The items of `items` whose value does not occur in `excluded`, in the
/// order and in the number in which `items` holds them.
pub open spec fn without<A>(items: Seq<A>, excluded: Seq<A>) -> Seq<A> {
    items.filter(|x: A| !excluded.contains(x))
}

/// The items of `items` that a search in `excluded` under the hint
/// `is_sorted` does not find, in the order and in the number in which `items`
/// holds them.
pub open spec fn difference_of<A: PartialOrd>(
    items: Seq<A>,
    excluded: Seq<A>,
    is_sorted: Option<bool>,
) -> Seq<A> {
    items.filter(|x: A| !finds(excluded, x, is_sorted))
}

/// `difference_of` goes through `items` from the front: what it keeps of
/// `items` up to and with the item at `end` is what it keeps of the items
/// before, followed by that item unless the search finds it.
pub proof fn lemma_difference_step<A: PartialOrd>(
    items: Seq<A>,
    excluded: Seq<A>,
    is_sorted: Option<bool>,
    end: int,
)
    requires
        0 <= end < items.len(),
    ensures
        difference_of(items.take(end + 1), excluded, is_sorted) == if finds(
            excluded,
            items[end],
            is_sorted,
        ) {
            difference_of(items.take(end), excluded, is_sorted)
        } else {
            difference_of(items.take(end), excluded, is_sorted).push(items[end])
        },
{
    reveal(Seq::filter);
    assert(items.take(end + 1).drop_last() =~= items.take(end));
}

/// Under a hint that is true of `excluded`, what is kept of `items` is the
/// items whose value does not occur in `excluded`.
pub proof fn lemma_difference_is_without<A: PartialOrd>(
    items: Seq<A>,
    excluded: Seq<A>,
    is_sorted: Option<bool>,
)
    requires
        hint_holds(excluded, is_sorted),
    ensures
        difference_of(items, excluded, is_sorted) == without(items, excluded),
    decreases items.len(),
{
    reveal(Seq::filter);
    if items.len() > 0 {
        lemma_difference_is_without(items.drop_last(), excluded, is_sorted);
        lemma_finds_what_is_there(excluded, items.last(), is_sorted);
    }
}

/// With `excluded` in ascending order of a total order, the hint makes no
/// difference: what is kept of `items` is the same with it and without it.
pub proof fn lemma_hint_makes_no_difference<A: PartialOrd>(
    items: Seq<A>,
    excluded: Seq<A>,
    is_sorted: Option<bool>,
)
    requires
        hint_holds(excluded, Some(true)),
    ensures
        difference_of(items, excluded, Some(true)) == difference_of(items, excluded, is_sorted),
{
    lemma_difference_is_without(items, excluded, Some(true));
    lemma_difference_is_without(items, excluded, is_sorted);
}

/// Creates a vector of the values of `array` that `other` does not hold, in
/// the order of `array` and as often as `array` holds them.
///
/// With `is_sorted` set to `Some(true)`, `other` is searched by halving. That
/// finds what `other` holds where `other` is in ascending order, and the
/// result is then the same as without the flag. With that flag and an `other`
/// in another order, the result is still what the search by halving leaves,
/// and some values that `other` holds may be among it.
pub fn difference<A>(array: &[A], other: &[A], is_sorted: Option<bool>) -> (result: Vec<A>) where
    A: PartialEq + Ord + Clone,

    ensures
        comparable::<A>(is_sorted) ==> clones_of(
            result@,
            difference_of(array@, other@, is_sorted),
        ),
        comparable::<A>(is_sorted) && clone_is_identity::<A>() ==> result@ == difference_of(
            array@,
            other@,
            is_sorted,
        ),
        comparable::<A>(is_sorted) && clone_is_identity::<A>() && hint_holds(other@, is_sorted)
            ==> result@ == without(array@, other@),
{
    let mut result: Vec<A> = Vec::new();
    let mut i: usize = 0;
    assert(array@.take(0) =~= Seq::<A>::empty());
    while i < array.len()
        invariant
            i <= array.len(),
            comparable::<A>(is_sorted) ==> clones_of(
                result@,
                difference_of(array@.take(i as int), other@, is_sorted),
            ),
        decreases array.len() - i,
    {
        proof {
            lemma_difference_step(array@, other@, is_sorted, i as int);
        }
        if !found_in(other, &array[i], is_sorted) {
            result.push(copy_of(&array[i]));
        }
        i += 1;
    }
    proof {
        assert(array@.take(i as int) =~= array@);
        if comparable::<A>(is_sorted) && clone_is_identity::<A>() {
            lemma_clones_are_equal(result@, difference_of(array@, other@, is_sorted));
            if hint_holds(other@, is_sorted) {
                lemma_difference_is_without(array@, other@, is_sorted);
            }
        }
    }
    result
}

/// The difference as a method of the collection itself.
pub trait Difference<A, I>: View<V = Seq<I>> where
    A: IntoIterator,
    I: PartialEq + Ord + Clone,
 {
    /// Creates a vector of the values of this collection that `other` does
    /// not hold; see [`difference`].
    fn difference(&self, other: &[I], is_sorted: Option<bool>) -> (result: Vec<I>)
        ensures
            comparable::<I>(is_sorted) ==> clones_of(
                result@,
                difference_of(self@, other@, is_sorted),
            ),
            comparable::<I>(is_sorted) && clone_is_identity::<I>() ==> result@ == difference_of(
                self@,
                other@,
                is_sorted,
            ),
            comparable::<I>(is_sorted) && clone_is_identity::<I>() && hint_holds(other@, is_sorted)
                ==> result@ == without(self@, other@),
    ;
}

impl<A> Difference<Vec<A>, A> for Vec<A> where A: PartialEq + Ord + Clone {
    fn difference(&self, other: &[A], is_sorted: Option<bool>) -> (result: Vec<A>) {
        difference(self.as_slice(), other, is_sorted)
    }
}

impl<A, const N: usize> Difference<[A; N], A> for [A; N] where A: PartialEq + Ord + Clone {
    fn difference(&self, other: &[A], is_sorted: Option<bool>) -> (result: Vec<A>) {
        difference(self.as_slice(), other, is_sorted)
    }
}

} // verus!
