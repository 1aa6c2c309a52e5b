//! Where a collection first holds a value.

use vstd::prelude::*;
use crate::element::eq_is_identity;

verus! {

/// Whether `index` is where `items` first holds `element`.
pub open spec fn is_first_index_of<A>(items: Seq<A>, element: A, index: int) -> bool {
    &&& 0 <= index < items.len()
    &&& items[index] == element
    &&& forall|j: int| 0 <= j < index ==> items[j] != element
}

/// Gets the index at which `array` first holds `element`, or `None` where it
/// does not hold it.
pub fn index_of<A>(array: &[A], element: &A) -> (result: Option<usize>) where A: PartialEq
    ensures
        eq_is_identity::<A>() ==> match result {
            Some(index) => is_first_index_of(array@, *element, index as int),
            None => !array@.contains(*element),
        },
{
    let mut i: usize = 0;
    while i < array.len()
        invariant
            i <= array.len(),
            eq_is_identity::<A>() ==> forall|j: int| 0 <= j < i ==> array@[j] != *element,
        decreases array.len() - i,
    {
        if array[i] == *element {
            return Some(i);
        }
        i += 1;
    }
    None
}

/// The search for a value as a method of the collection itself.
pub trait IndexOf<A, I>: View<V = Seq<I>> where A: IntoIterator, I: PartialEq {
    /// Gets the index at which this collection first holds `element`; see
    /// [`index_of`].
    fn index_of(&self, element: &I) -> (result: Option<usize>)
        ensures
            eq_is_identity::<I>() ==> match result {
                Some(index) => is_first_index_of(self@, *element, index as int),
                None => !self@.contains(*element),
            },
    ;
}

impl<A> IndexOf<Vec<A>, A> for Vec<A> where A: PartialEq {
    fn index_of(&self, element: &A) -> (result: Option<usize>) {
        index_of(self.as_slice(), element)
    }
}

impl<A, const N: usize> IndexOf<[A; N], A> for [A; N] where A: PartialEq {
    fn index_of(&self, element: &A) -> (result: Option<usize>) {
        index_of(self.as_slice(), element)
    }
}

} // verus!
