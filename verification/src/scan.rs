//! The first item of a sequence that has a property.

use vstd::prelude::*;

verus! {

/// The least index at which `wanted` holds of an item of `items`, if it
/// holds of any.
pub open spec fn first_index<T>(items: Seq<T>, wanted: spec_fn(T) -> bool) -> Option<int>
    decreases items.len(),
{
    if items.len() == 0 {
        None
    } else {
        match first_index(items.drop_last(), wanted) {
            Some(i) => Some(i),
            None => if wanted(items.last()) {
                Some(items.len() - 1)
            } else {
                None
            },
        }
    }
}

/// What `first_index` finds is an index of the sequence at which the
/// property holds, and it holds at none before; where it finds nothing, the
/// property holds nowhere.
pub proof fn lemma_first_index<T>(items: Seq<T>, wanted: spec_fn(T) -> bool)
    ensures
        match first_index(items, wanted) {
            Some(i) => 0 <= i < items.len() && wanted(items[i]) && forall|j: int|
                0 <= j < i ==> !wanted(#[trigger] items[j]),
            None => forall|j: int| 0 <= j < items.len() ==> !wanted(#[trigger] items[j]),
        },
    decreases items.len(),
{
    if items.len() > 0 {
        lemma_first_index(items.drop_last(), wanted);
        assert forall|j: int| 0 <= j < items.len() - 1 implies items.drop_last()[j] == items[j] by {}
        match first_index(items.drop_last(), wanted) {
            Some(i) => {
                assert forall|j: int| 0 <= j < i implies !wanted(#[trigger] items[j]) by {
                    assert(items.drop_last()[j] == items[j]);
                }
            },
            None => {
                assert forall|j: int| 0 <= j < items.len() - 1 implies !wanted(#[trigger] items[j]) by {
                    assert(items.drop_last()[j] == items[j]);
                }
            },
        }
    }
}

/// Where a property holds at the same places of two sequences of one
/// length, it holds first at the same place.
pub proof fn lemma_first_index_alike<T>(
    one: Seq<T>,
    wanted_one: spec_fn(T) -> bool,
    other: Seq<T>,
    wanted_other: spec_fn(T) -> bool,
)
    requires
        one.len() == other.len(),
        forall|i: int| 0 <= i < one.len() ==> wanted_one(#[trigger] one[i]) == wanted_other(other[i]),
    ensures
        first_index(one, wanted_one) == first_index(other, wanted_other),
{
    lemma_first_index(one, wanted_one);
    lemma_first_index(other, wanted_other);
    match (first_index(one, wanted_one), first_index(other, wanted_other)) {
        (Some(i), Some(j)) => {
            if i < j {
                assert(wanted_one(one[i]) == wanted_other(other[i]));
            } else if j < i {
                assert(wanted_one(one[j]) == wanted_other(other[j]));
            }
        },
        (Some(i), None) => {
            assert(wanted_one(one[i]) == wanted_other(other[i]));
        },
        (None, Some(j)) => {
            assert(wanted_one(one[j]) == wanted_other(other[j]));
        },
        (None, None) => {},
    }
}

/// An item added at the end is found only where nothing was found before.
pub proof fn lemma_first_index_push<T>(items: Seq<T>, wanted: spec_fn(T) -> bool, item: T)
    ensures
        first_index(items.push(item), wanted) == match first_index(items, wanted) {
            Some(i) => Some(i),
            None => if wanted(item) {
                Some(items.len() as int)
            } else {
                None
            },
        },
{
    assert(items.push(item).drop_last() =~= items);
}

} // verus!
