//! What the operations of this library need of the element type of a
//! collection. Each is a condition on the type's own `==`, `<`, `clone` or
//! hashing, and each operation names the ones it needs: what it promises, it
//! promises for the element types that meet them. The integer types meet all
//! of them.

use vstd::prelude::*;
use vstd::std_specs::cmp::{PartialEqSpec, PartialOrdIs, PartialOrdSpec};

verus! {

/// The `==` of `A` holds of two values exactly when they are the same value.
pub open spec fn eq_is_identity<A: PartialEq>() -> bool {
    &&& A::obeys_eq_spec()
    &&& forall|x: A, y: A| #[trigger] x.eq_spec(&y) <==> (x == y)
}

/// A clone of a value of `A` is that value again.
pub open spec fn clone_is_identity<A: Clone>() -> bool {
    forall|x: A, y: A| #[trigger] cloned(x, y) ==> x == y
}

/// The hash sets of std tell the values of `A` apart: `A` hashes and
/// compares by value, and a clone of a value is that value again.
pub open spec fn hashes_by_value<A: Clone>() -> bool {
    vstd::std_specs::hash::obeys_key_model::<A>() && clone_is_identity::<A>()
}

/// Whether `x` comes strictly before `y` by the `<` of `A`.
pub open spec fn precedes<A: PartialOrd>(x: A, y: A) -> bool {
    x.is_lt(&y)
}

/// The `<` of `A` answers as `precedes` says, the same for the same values.
pub open spec fn lt_is_specified<A: PartialOrd>() -> bool {
    A::obeys_partial_cmp_spec()
}

/// The `<` of `A` is a strict total order on its values.
pub open spec fn lt_is_total_order<A: PartialOrd>() -> bool {
    &&& lt_is_specified::<A>()
    &&& forall|x: A, y: A| #[trigger] precedes(x, y) || precedes(y, x) || x == y
    &&& forall|x: A, y: A| !(#[trigger] precedes(x, y) && precedes(y, x))
    &&& forall|x: A, y: A, z: A|
        #[trigger] precedes(x, y) && #[trigger] precedes(y, z) ==> precedes(x, z)
}

/// Whether `copies` holds, index by index, a clone of what `items` holds.
pub open spec fn clones_of<A: Clone>(copies: Seq<A>, items: Seq<A>) -> bool {
    &&& copies.len() == items.len()
    &&& forall|i: int| 0 <= i < items.len() ==> cloned(#[trigger] items[i], copies[i])
}

/// Where a clone is the value again, a sequence of clones is the sequence
/// again.
pub proof fn lemma_clones_are_equal<A: Clone>(copies: Seq<A>, items: Seq<A>)
    requires
        clone_is_identity::<A>(),
        clones_of(copies, items),
    ensures
        copies == items,
{
    assert(copies =~= items);
}

/// A clone of `item`.
pub(crate) fn copy_of<A: Clone>(item: &A) -> (copy: A)
    ensures
        cloned(*item, copy),
        clone_is_identity::<A>() ==> copy == *item,
{
    let copy = item.clone();
    assert(cloned(*item, copy));
    copy
}

/// A clone of each item of `items` from index `from` up to index `to`, in
/// their order.
pub(crate) fn copies_of<A: Clone>(items: &[A], from: usize, to: usize) -> (copies: Vec<A>)
    requires
        from <= to <= items.len(),
    ensures
        clones_of(copies@, items@.subrange(from as int, to as int)),
        clone_is_identity::<A>() ==> copies@ == items@.subrange(from as int, to as int),
{
    let mut copies: Vec<A> = Vec::new();
    let mut i: usize = from;
    while i < to
        invariant
            from <= i <= to <= items.len(),
            clones_of(copies@, items@.subrange(from as int, i as int)),
        decreases to - i,
    {
        copies.push(copy_of(&items[i]));
        i += 1;
    }
    proof {
        if clone_is_identity::<A>() {
            lemma_clones_are_equal(copies@, items@.subrange(from as int, to as int));
        }
    }
    copies
}

} // verus!
