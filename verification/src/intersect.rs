//! The values that two collections both hold.

use vstd::prelude::*;
use std::collections::HashSet;
use std::hash::Hash;
use crate::element::{copy_of, hashes_by_value};
use crate::uniq::{distinct, lemma_distinct_values};

verus! {

/// The items of `items` whose value `other` holds, in the order and in the
/// number in which `items` holds them.
pub open spec fn held_by<A>(items: Seq<A>, other: Seq<A>) -> Seq<A> {
    items.filter(|x: A| other.contains(x))
}

/// The values that both `items` and `other` hold, each once, in the order in
/// which `items` first holds them.
pub open spec fn common<A>(items: Seq<A>, other: Seq<A>) -> Seq<A> {
    distinct(held_by(items, other))
}

/// `held_by` goes through `items` from the front: what it keeps of `items`
/// up to and with the item at `end` is what it keeps of the items before,
/// followed by that item where `other` holds it.
pub proof fn lemma_held_by_step<A>(items: Seq<A>, other: Seq<A>, end: int)
    requires
        0 <= end < items.len(),
    ensures
        held_by(items.take(end + 1), other) == if other.contains(items[end]) {
            held_by(items.take(end), other).push(items[end])
        } else {
            held_by(items.take(end), other)
        },
{
    reveal(Seq::filter);
    assert(items.take(end + 1).drop_last() =~= items.take(end));
}

/// `held_by` holds the values that both collections hold.
pub proof fn lemma_held_by_values<A>(items: Seq<A>, other: Seq<A>)
    ensures
        forall|x: A| held_by(items, other).contains(x) <==> items.contains(x) && other.contains(x),
{
    let holds = |x: A| other.contains(x);
    assert forall|x: A| held_by(items, other).contains(x) <==> items.contains(x) && other.contains(
        x,
    ) by {
        if held_by(items, other).contains(x) {
            let i = choose|i: int|
                0 <= i < items.filter(holds).len() && items.filter(holds)[i] == x;
            items.lemma_filter_pred(holds, i);
            items.lemma_filter_contains_rev(holds, x);
        }
        if items.contains(x) && other.contains(x) {
            let i = choose|i: int| 0 <= i < items.len() && items[i] == x;
            items.lemma_filter_contains(holds, i);
        }
    }
}

/// The values of `common` are the values of the one collection that are
/// values of the other too, and `common` holds none of them twice.
pub proof fn lemma_common_is_intersection<A>(items: Seq<A>, other: Seq<A>)
    ensures
        common(items, other).to_set() == items.to_set().intersect(other.to_set()),
        common(items, other).no_duplicates(),
{
    lemma_held_by_values(items, other);
    lemma_distinct_values(held_by(items, other));
    assert(common(items, other).to_set() =~= items.to_set().intersect(other.to_set()));
}

/// The values of `items`, as a hash set.
fn values_of<A>(items: &[A]) -> (values: HashSet<A>) where A: Hash + Eq + Clone
    ensures
        hashes_by_value::<A>() ==> values@ == items@.to_set(),
{
    let mut values: HashSet<A> = HashSet::new();
    let mut i: usize = 0;
    assert(items@.take(0).to_set() =~= Set::<A>::empty());
    while i < items.len()
        invariant
            i <= items.len(),
            hashes_by_value::<A>() ==> values@ == items@.take(i as int).to_set(),
        decreases items.len() - i,
    {
        proof {
            assert(items@.take(i + 1) =~= items@.take(i as int).push(items@[i as int]));
            items@.take(i as int).lemma_push_to_set_commute(items@[i as int]);
        }
        values.insert(copy_of(&items[i]));
        i += 1;
    }
    assert(items@.take(i as int) =~= items@);
    values
}

/// Creates a vector of the values that both `array` and `other` hold, each
/// of them once, in the order in which `array` first holds them.
pub fn intersect<A>(array: &[A], other: &[A]) -> (result: Vec<A>) where
    A: PartialEq + Ord + Clone + Hash,

    ensures
        hashes_by_value::<A>() ==> result@ == common(array@, other@),
{
    let wanted = values_of(other);
    let mut taken: HashSet<A> = HashSet::new();
    let mut result: Vec<A> = Vec::new();
    let mut i: usize = 0;
    assert(array@.take(0) =~= Seq::<A>::empty());
    assert(held_by(array@.take(0), other@).to_set() =~= Set::<A>::empty());
    while i < array.len()
        invariant
            i <= array.len(),
            hashes_by_value::<A>() ==> wanted@ == other@.to_set(),
            hashes_by_value::<A>() ==> taken@ == held_by(array@.take(i as int), other@).to_set(),
            hashes_by_value::<A>() ==> result@ == common(array@.take(i as int), other@),
        decreases array.len() - i,
    {
        let ghost kept = held_by(array@.take(i as int), other@);
        proof {
            lemma_held_by_step(array@, other@, i as int);
            kept.lemma_push_to_set_commute(array@[i as int]);
            assert(kept.push(array@[i as int]).drop_last() =~= kept);
        }
        if wanted.contains(&array[i]) {
            if taken.insert(copy_of(&array[i])) {
                result.push(copy_of(&array[i]));
            }
        }
        i += 1;
    }
    assert(array@.take(i as int) =~= array@);
    result
}

/// The intersection as a method of the collection itself.
pub trait Intersect<A, I>: View<V = Seq<I>> where
    A: IntoIterator,
    I: PartialEq + Ord + Clone + Hash,
 {
    /// Creates a vector of the values that both this collection and `other`
    /// hold; see [`intersect`].
    fn intersect(&self, other: &[I]) -> (result: Vec<I>)
        ensures
            hashes_by_value::<I>() ==> result@ == common(self@, other@),
    ;
}

impl<A> Intersect<Vec<A>, A> for Vec<A> where A: PartialEq + Ord + Clone + Hash {
    fn intersect(&self, other: &[A]) -> (result: Vec<A>) {
        intersect(self.as_slice(), other)
    }
}

impl<A, const N: usize> Intersect<[A; N], A> for [A; N] where
    A: PartialEq + Ord + Clone + Hash,
 {
    fn intersect(&self, other: &[A]) -> (result: Vec<A>) {
        intersect(self.as_slice(), other)
    }
}

} // verus!
