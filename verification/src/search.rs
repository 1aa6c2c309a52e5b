//! The two ways in which a value is looked for in a collection: one by one
//! from the front, and by halving, which is meant for a collection in
//! ascending order.

use vstd::prelude::*;
use crate::element::{eq_is_identity, lt_is_specified, lt_is_total_order, precedes};

verus! {

/// Whether `items` is in ascending order: no item comes strictly before one
/// that stands earlier.
pub open spec fn ascending<A: PartialOrd>(items: Seq<A>) -> bool {
    forall|i: int, j: int|
        0 <= i < j < items.len() ==> !precedes(#[trigger] items[j], #[trigger] items[i])
}

/// Whether the caller has said that the collection is sorted.
pub open spec fn said_sorted(is_sorted: Option<bool>) -> bool {
    is_sorted == Some(true)
}

/// The index at which a search for `value` by halving ends, when it has come
/// down to the `size` items of `items` from index `base` on. Each step looks
/// at the item in the middle of that run: where `value` comes before it, the
/// run goes on from `base`, else from the middle; either way with the smaller
/// half fewer items.
pub open spec fn halving_ends_at<A: PartialOrd>(
    items: Seq<A>,
    value: A,
    base: int,
    size: int,
) -> int
    decreases size,
{
    if size <= 1 {
        base
    } else {
        let half = size / 2;
        let middle = base + half;
        if precedes(value, items[middle]) {
            halving_ends_at(items, value, base, size - half)
        } else {
            halving_ends_at(items, value, middle, size - half)
        }
    }
}

/// What a search for `value` in `items` by halving answers, whatever the
/// order of `items`: whether the item at which it ends comes neither before
/// `value` nor behind it.
pub open spec fn halving_finds<A: PartialOrd>(items: Seq<A>, value: A) -> bool {
    let last = items[halving_ends_at(items, value, 0, items.len() as int)];
    items.len() > 0 && !precedes(value, last) && !precedes(last, value)
}

/// What a search for `value` in `items` answers under the hint `is_sorted`:
/// with the hint, what the search by halving answers; without it, whether
/// `items` holds `value`.
pub open spec fn finds<A: PartialOrd>(items: Seq<A>, value: A, is_sorted: Option<bool>) -> bool {
    if said_sorted(is_sorted) {
        halving_finds(items, value)
    } else {
        items.contains(value)
    }
}

/// The comparison that a search under the hint `is_sorted` makes is the one
/// that the contracts speak of: with the hint `<`, without it `==`.
pub open spec fn comparable<A: PartialEq + PartialOrd>(is_sorted: Option<bool>) -> bool {
    if said_sorted(is_sorted) {
        lt_is_specified::<A>()
    } else {
        eq_is_identity::<A>()
    }
}

/// Whether the hint `is_sorted` is true of `items`: where it says that the
/// collection is sorted, the items are in ascending order of a total order.
pub open spec fn hint_holds<A: PartialOrd>(items: Seq<A>, is_sorted: Option<bool>) -> bool {
    said_sorted(is_sorted) ==> lt_is_total_order::<A>() && ascending(items)
}

/// In a collection in ascending order, a run that the search by halving has
/// come down to ends at the last item that `value` does not come before, if
/// there is one: `value` does not come before the item at the end, unless
/// that is the first item, and comes before every item behind it.
proof fn lemma_halving_end<A: PartialOrd>(items: Seq<A>, value: A, base: int, size: int)
    requires
        lt_is_total_order::<A>(),
        ascending(items),
        0 <= base,
        1 <= size,
        base + size <= items.len(),
        base > 0 ==> !precedes(value, items[base]),
        forall|j: int| base + size <= j < items.len() ==> precedes(value, items[j]),
    ensures
        ({
            let end = halving_ends_at(items, value, base, size);
            &&& 0 <= end < items.len()
            &&& end > 0 ==> !precedes(value, items[end])
            &&& forall|j: int| end < j < items.len() ==> precedes(value, items[j])
        }),
    decreases size,
{
    if size > 1 {
        let half = size / 2;
        let middle = base + half;
        if precedes(value, items[middle]) {
            assert forall|j: int| base + size - half <= j < items.len() implies precedes(
                value,
                items[j],
            ) by {
                if middle < j {
                    assert(!precedes(items[j], items[middle]));
                }
            }
            lemma_halving_end(items, value, base, size - half);
        } else {
            lemma_halving_end(items, value, middle, size - half);
        }
    }
}

/// In a collection in ascending order, the search by halving finds a value
/// exactly where the collection holds it.
pub proof fn lemma_halving_finds_what_is_there<A: PartialOrd>(items: Seq<A>, value: A)
    requires
        lt_is_total_order::<A>(),
        ascending(items),
    ensures
        halving_finds(items, value) == items.contains(value),
{
    if items.len() > 0 {
        lemma_halving_end(items, value, 0, items.len() as int);
        let end = halving_ends_at(items, value, 0, items.len() as int);
        let last = items[end];
        if halving_finds(items, value) {
            assert(precedes(value, last) || precedes(last, value) || value == last);
            assert(items[end] == value);
        } else {
            assert forall|j: int| 0 <= j < items.len() implies items[j] != value by {
                if j < end {
                    assert(!precedes(last, items[j]));
                }
            }
        }
    }
}

/// Under a hint that is true of the collection, a search answers whether
/// the collection holds the value.
pub proof fn lemma_finds_what_is_there<A: PartialOrd>(
    items: Seq<A>,
    value: A,
    is_sorted: Option<bool>,
)
    requires
        hint_holds(items, is_sorted),
    ensures
        finds(items, value, is_sorted) == items.contains(value),
{
    if said_sorted(is_sorted) {
        lemma_halving_finds_what_is_there(items, value);
    }
}

/// Looks for `value` in `items` one by one, from the front.
pub(crate) fn found_by_scan<A: PartialEq>(items: &[A], value: &A) -> (found: bool)
    ensures
        eq_is_identity::<A>() ==> found == items@.contains(*value),
{
    let mut i: usize = 0;
    while i < items.len()
        invariant
            i <= items.len(),
            eq_is_identity::<A>() ==> forall|j: int| 0 <= j < i ==> items@[j] != *value,
        decreases items.len() - i,
    {
        if items[i] == *value {
            return true;
        }
        i += 1;
    }
    false
}

/// Looks for `value` in `items` by halving. The number of steps depends on
/// the number of items alone.
pub(crate) fn found_by_halving<A: PartialOrd>(items: &[A], value: &A) -> (found: bool)
    ensures
        lt_is_specified::<A>() ==> found == halving_finds(items@, *value),
{
    if items.len() == 0 {
        return false;
    }
    let mut base: usize = 0;
    let mut size: usize = items.len();
    while size > 1
        invariant
            1 <= size,
            base + size <= items.len(),
            lt_is_specified::<A>() ==> halving_ends_at(items@, *value, base as int, size as int)
                == halving_ends_at(items@, *value, 0, items@.len() as int),
        decreases size,
    {
        let half: usize = size / 2;
        let middle: usize = base + half;
        if !(*value < items[middle]) {
            base = middle;
        }
        size -= half;
    }
    if *value < items[base] {
        false
    } else {
        !(items[base] < *value)
    }
}

/// Looks for `value` in `items`: by halving where the caller has said that
/// `items` is sorted, one by one otherwise.
pub(crate) fn found_in<A: PartialEq + PartialOrd>(
    items: &[A],
    value: &A,
    is_sorted: Option<bool>,
) -> (found: bool)
    ensures
        comparable::<A>(is_sorted) ==> found == finds(items@, *value, is_sorted),
{
    let halve: bool = match is_sorted {
        Some(sorted) => sorted,
        None => false,
    };
    if halve {
        found_by_halving(items, value)
    } else {
        found_by_scan(items, value)
    }
}

} // verus!
