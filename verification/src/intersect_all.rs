//! The values that a collection and each of several others hold.

use vstd::prelude::*;
use std::hash::Hash;
use crate::element::{copies_of, hashes_by_value};
use crate::intersect::{common, intersect, lemma_common_is_intersection};

verus! {

/// What is left of `items` after it has been intersected with each of
/// `others` in turn: `items` itself where there is none, else the values that
/// the result so far and the next of `others` both hold.
pub open spec fn common_to_all<A>(items: Seq<A>, others: Seq<&[A]>) -> Seq<A>
    decreases others.len(),
{
    if others.len() == 0 {
        items
    } else {
        common(common_to_all(items, others.drop_last()), others.last()@)
    }
}

/// Whether every one of `others` holds the value `x`.
pub open spec fn held_by_all<A>(x: A, others: Seq<&[A]>) -> bool {
    forall|k: int| 0 <= k < others.len() ==> (#[trigger] others[k])@.contains(x)
}

/// Every one of `others` holds `x` where the last of them does and every
/// one before it.
proof fn lemma_held_by_all_step<A>(x: A, others: Seq<&[A]>)
    requires
        others.len() > 0,
    ensures
        held_by_all(x, others) <==> held_by_all(x, others.drop_last()) && others.last()@.contains(
            x,
        ),
{
    let earlier = others.drop_last();
    if held_by_all(x, others) {
        assert forall|k: int| 0 <= k < earlier.len() implies (#[trigger] earlier[k])@.contains(
            x,
        ) by {
            assert(earlier[k] == others[k]);
        }
        assert(others[others.len() - 1]@.contains(x));
    }
    if held_by_all(x, earlier) && others.last()@.contains(x) {
        assert forall|k: int| 0 <= k < others.len() implies (#[trigger] others[k])@.contains(x) by {
            if k < earlier.len() {
                assert(earlier[k] == others[k]);
            }
        }
    }
}

/// The values of `common_to_all` are the values of `items` that every one of
/// `others` holds.
pub proof fn lemma_common_to_all_is_intersection<A>(items: Seq<A>, others: Seq<&[A]>)
    ensures
        forall|x: A|
            common_to_all(items, others).contains(x) <==> items.contains(x) && held_by_all(
                x,
                others,
            ),
    decreases others.len(),
{
    if others.len() > 0 {
        let earlier = others.drop_last();
        let so_far = common_to_all(items, earlier);
        lemma_common_to_all_is_intersection(items, earlier);
        lemma_common_is_intersection(so_far, others.last()@);
        assert forall|x: A|
            common_to_all(items, others).contains(x) <==> items.contains(x) && held_by_all(
                x,
                others,
            ) by {
            lemma_held_by_all_step(x, others);
            assert(common(so_far, others.last()@).contains(x) <==> common(
                so_far,
                others.last()@,
            ).to_set().contains(x));
            assert(so_far.to_set().intersect(others.last()@.to_set()).contains(x)
                <==> so_far.contains(x) && others.last()@.contains(x));
        }
    }
}

/// Creates a vector of the values of `array` that every one of `others`
/// holds: `array` intersected with each of `others` in turn. With no
/// `others`, that is `array` as it stands.
pub fn intersect_all<A>(array: &[A], others: Vec<&[A]>) -> (result: Vec<A>) where
    A: PartialEq + Ord + Clone + Hash,

    ensures
        hashes_by_value::<A>() ==> result@ == common_to_all(array@, others@),
{
    assert(array@.subrange(0, array@.len() as int) =~= array@);
    let mut result = copies_of(array, 0, array.len());
    assert(others@.take(0) =~= Seq::<&[A]>::empty());
    let mut k: usize = 0;
    while k < others.len()
        invariant
            k <= others.len(),
            hashes_by_value::<A>() ==> result@ == common_to_all(array@, others@.take(k as int)),
        decreases others.len() - k,
    {
        proof {
            assert(others@.take(k + 1).drop_last() =~= others@.take(k as int));
        }
        result = intersect(result.as_slice(), others[k]);
        k += 1;
    }
    assert(others@.take(k as int) =~= others@);
    result
}

/// The intersection with several collections as a method of the collection
/// itself.
pub trait IntersectAll<A, I>: View<V = Seq<I>> where
    A: IntoIterator,
    I: PartialEq + Ord + Clone + Hash,
 {
    /// Creates a vector of the values of this collection that every one of
    /// `others` holds; see [`intersect_all`].
    fn intersect_all(&self, others: Vec<&[I]>) -> (result: Vec<I>)
        ensures
            hashes_by_value::<I>() ==> result@ == common_to_all(self@, others@),
    ;
}

impl<A> IntersectAll<Vec<A>, A> for Vec<A> where A: PartialEq + Ord + Clone + Hash {
    fn intersect_all(&self, others: Vec<&[A]>) -> (result: Vec<A>) {
        intersect_all(self.as_slice(), others)
    }
}

impl<A, const N: usize> IntersectAll<[A; N], A> for [A; N] where
    A: PartialEq + Ord + Clone + Hash,
 {
    fn intersect_all(&self, others: Vec<&[A]>) -> (result: Vec<A>) {
        intersect_all(self.as_slice(), others)
    }
}

} // verus!
