//! The values of one collection that none of several others holds.

use vstd::prelude::*;
use crate::difference::{difference, difference_of, without};
use crate::element::{clone_is_identity, clones_of, copy_of, lemma_clones_are_equal};
use crate::search::{comparable, hint_holds};

verus! {

/// The items of all the `collections`, one collection after the other.
pub open spec fn flattened<A>(collections: Seq<&[A]>) -> Seq<A> {
    collections.map_values(|c: &[A]| c@).flatten()
}

/// A clone of every item of all the `collections`, one collection after the
/// other.
fn flatten<A: Clone>(collections: &Vec<&[A]>) -> (all: Vec<A>)
    ensures
        clones_of(all@, flattened(collections@)),
{
    let mut all: Vec<A> = Vec::new();
    let mut k: usize = 0;
    assert(collections@.take(0).map_values(|c: &[A]| c@) =~= Seq::<Seq<A>>::empty());
    while k < collections.len()
        invariant
            k <= collections.len(),
            clones_of(all@, flattened(collections@.take(k as int))),
        decreases collections.len() - k,
    {
        let part: &[A] = collections[k];
        let ghost before = all@;
        let ghost flat = flattened(collections@.take(k as int));
        let mut j: usize = 0;
        while j < part.len()
            invariant
                j <= part.len(),
                clones_of(before, flat),
                clones_of(all@, flat + part@.take(j as int)),
            decreases part.len() - j,
        {
            assert(part@.take(j + 1) =~= part@.take(j as int).push(part@[j as int]));
            assert(flat + part@.take(j + 1) =~= (flat + part@.take(j as int)).push(
                part@[j as int],
            ));
            all.push(copy_of(&part[j]));
            j += 1;
        }
        proof {
            let views = collections@.take(k as int).map_values(|c: &[A]| c@);
            assert(part@.take(j as int) =~= part@);
            assert(collections@.take(k + 1).map_values(|c: &[A]| c@) =~= views.push(part@));
            views.lemma_flatten_push(part@);
        }
        k += 1;
    }
    assert(collections@.take(k as int) =~= collections@);
    all
}

/// Creates a vector of the values of `array` that none of `others` holds, in
/// the order of `array` and as often as `array` holds them: the difference of
/// `array` and all the items of `others` taken as one collection.
///
/// `is_sorted` speaks of that one collection, not of each of `others`: with
/// `Some(true)` it is searched by halving, which finds what it holds where
/// the items of `others`, one collection after the other, are in ascending
/// order.
pub fn difference_all<A>(array: &[A], others: Vec<&[A]>, is_sorted: Option<bool>) -> (result: Vec<
    A,
>) where A: PartialEq + Ord + Clone
    ensures
        comparable::<A>(is_sorted) && clone_is_identity::<A>() ==> result@ == difference_of(
            array@,
            flattened(others@),
            is_sorted,
        ),
        comparable::<A>(is_sorted) && clone_is_identity::<A>() && hint_holds(
            flattened(others@),
            is_sorted,
        ) ==> result@ == without(array@, flattened(others@)),
{
    let all = flatten(&others);
    proof {
        if clone_is_identity::<A>() {
            lemma_clones_are_equal(all@, flattened(others@));
        }
    }
    difference(array, all.as_slice(), is_sorted)
}

/// The difference from several collections as a method of the collection
/// itself.
pub trait DifferenceAll<A, I>: View<V = Seq<I>> where
    A: IntoIterator,
    I: PartialEq + Ord + Clone,
 {
    /// Creates a vector of the values of this collection that none of
    /// `others` holds; see [`difference_all`].
    fn difference_all(&self, others: Vec<&[I]>, is_sorted: Option<bool>) -> (result: Vec<I>)
        ensures
            comparable::<I>(is_sorted) && clone_is_identity::<I>() ==> result@ == difference_of(
                self@,
                flattened(others@),
                is_sorted,
            ),
            comparable::<I>(is_sorted) && clone_is_identity::<I>() && hint_holds(
                flattened(others@),
                is_sorted,
            ) ==> result@ == without(self@, flattened(others@)),
    ;
}

impl<A> DifferenceAll<Vec<A>, A> for Vec<A> where A: PartialEq + Ord + Clone {
    fn difference_all(&self, others: Vec<&[A]>, is_sorted: Option<bool>) -> (result: Vec<A>) {
        difference_all(self.as_slice(), others, is_sorted)
    }
}

impl<A, const N: usize> DifferenceAll<[A; N], A> for [A; N] where A: PartialEq + Ord + Clone {
    fn difference_all(&self, others: Vec<&[A]>, is_sorted: Option<bool>) -> (result: Vec<A>) {
        difference_all(self.as_slice(), others, is_sorted)
    }
}

} // verus!
