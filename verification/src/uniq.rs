//! A collection without its repetitions.

use vstd::prelude::*;
use std::collections::HashSet;
use std::hash::Hash;
use crate::element::{copy_of, hashes_by_value};

verus! {

/// The first occurrence of each value of `items`, in the order of `items`.
pub open spec fn distinct<A>(items: Seq<A>) -> Seq<A>
    decreases items.len(),
{
    if items.len() == 0 {
        Seq::empty()
    } else {
        let earlier = items.drop_last();
        if earlier.contains(items.last()) {
            distinct(earlier)
        } else {
            distinct(earlier).push(items.last())
        }
    }
}

/// A sequence with one more item at its end holds that item and what it
/// held before.
proof fn lemma_push_contains<A>(items: Seq<A>, last: A, x: A)
    ensures
        items.push(last).contains(x) <==> items.contains(x) || x == last,
{
    let longer = items.push(last);
    if items.contains(x) {
        let i = choose|i: int| 0 <= i < items.len() && items[i] == x;
        assert(longer[i] == x);
    }
    if x == last {
        assert(longer[items.len() as int] == x);
    }
    if longer.contains(x) {
        let i = choose|i: int| 0 <= i < longer.len() && longer[i] == x;
        if i < items.len() {
            assert(items[i] == x);
        }
    }
}

/// `distinct` holds the values that `items` holds, no other and none twice.
pub proof fn lemma_distinct_values<A>(items: Seq<A>)
    ensures
        forall|x: A| distinct(items).contains(x) <==> items.contains(x),
        distinct(items).no_duplicates(),
    decreases items.len(),
{
    if items.len() > 0 {
        let earlier = items.drop_last();
        let last = items.last();
        lemma_distinct_values(earlier);
        assert(items =~= earlier.push(last));
        assert forall|x: A| distinct(items).contains(x) <==> items.contains(x) by {
            lemma_push_contains(earlier, last, x);
            lemma_push_contains(distinct(earlier), last, x);
        }
    }
}

/// Creates a vector of the values of `array` without the repetitions: of
/// each value the first occurrence stays, in the order of `array`.
pub fn uniq<A>(array: &[A]) -> (result: Vec<A>) where A: Hash + Eq + Clone
    ensures
        hashes_by_value::<A>() ==> result@ == distinct(array@),
{
    let mut result: Vec<A> = Vec::new();
    let mut seen: HashSet<A> = HashSet::new();
    let mut i: usize = 0;
    assert(array@.take(0) =~= Seq::<A>::empty());
    while i < array.len()
        invariant
            i <= array.len(),
            hashes_by_value::<A>() ==> result@ == distinct(array@.take(i as int)),
            hashes_by_value::<A>() ==> seen@ == array@.take(i as int).to_set(),
        decreases array.len() - i,
    {
        let ghost before = array@.take(i as int);
        proof {
            assert(array@.take(i + 1) =~= before.push(array@[i as int]));
            assert(array@.take(i + 1).drop_last() =~= before);
            before.lemma_push_to_set_commute(array@[i as int]);
        }
        if seen.insert(copy_of(&array[i])) {
            result.push(copy_of(&array[i]));
        }
        i += 1;
    }
    assert(array@.take(i as int) =~= array@);
    result
}

/// Deduplication as a method of the collection itself.
pub trait Uniq<A, I>: View<V = Seq<I>> where A: IntoIterator, I: Hash + Eq + Clone {
    /// Creates a vector of the values of this collection without the
    /// repetitions; see [`uniq`].
    fn uniq(&self) -> (result: Vec<I>)
        ensures
            hashes_by_value::<I>() ==> result@ == distinct(self@),
    ;
}

impl<A> Uniq<Vec<A>, A> for Vec<A> where A: Hash + Eq + Clone {
    fn uniq(&self) -> (result: Vec<A>) {
        uniq(self.as_slice())
    }
}

impl<A, const N: usize> Uniq<[A; N], A> for [A; N] where A: Hash + Eq + Clone {
    fn uniq(&self) -> (result: Vec<A>) {
        uniq(self.as_slice())
    }
}

} // verus!
