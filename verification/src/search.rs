//! The first item of a list that is wanted.

use vstd::prelude::*;

verus! {

pub open spec fn is_first<T>(items: Seq<T>, wanted: spec_fn(T) -> bool, index: int) -> bool {
    &&& 0 <= index < items.len()
    &&& wanted(items[index])
    &&& forall|i: int| 0 <= i < index ==> !wanted(#[trigger] items[i])
}

/// The position of the first item that is wanted.
pub open spec fn first_position<T>(items: Seq<T>, wanted: spec_fn(T) -> bool) -> Option<int> {
    if exists|index: int| is_first(items, wanted, index) {
        Some(choose|index: int| is_first(items, wanted, index))
    } else {
        None
    }
}

pub proof fn lemma_first_position<T>(items: Seq<T>, wanted: spec_fn(T) -> bool, index: int)
    requires
        is_first(items, wanted, index),
    ensures
        first_position(items, wanted) == Some(index),
{
    let chosen = choose|i: int| is_first(items, wanted, i);
    assert(is_first(items, wanted, chosen));
    if chosen < index {
        assert(!wanted(items[chosen]));
    } else if index < chosen {
        assert(!wanted(items[index]));
    }
}

pub proof fn lemma_no_position<T>(items: Seq<T>, wanted: spec_fn(T) -> bool)
    requires
        forall|i: int| 0 <= i < items.len() ==> !wanted(#[trigger] items[i]),
    ensures
        first_position(items, wanted) is None,
{
}

/// What a first position means.
pub proof fn lemma_position<T>(items: Seq<T>, wanted: spec_fn(T) -> bool)
    ensures
        match first_position(items, wanted) {
            Some(index) => is_first(items, wanted, index),
            None => forall|i: int| 0 <= i < items.len() ==> !wanted(#[trigger] items[i]),
        },
{
    if first_position(items, wanted) is None {
        assert forall|i: int| 0 <= i < items.len() implies !wanted(#[trigger] items[i]) by {
            if wanted(items[i]) {
                lemma_some_position(items, wanted, i);
            }
        }
    }
}

proof fn lemma_some_position<T>(items: Seq<T>, wanted: spec_fn(T) -> bool, index: int)
    requires
        0 <= index < items.len(),
        wanted(items[index]),
    ensures
        exists|i: int| is_first(items, wanted, i),
    decreases index,
{
    if exists|i: int| 0 <= i < index && wanted(#[trigger] items[i]) {
        let earlier = choose|i: int| 0 <= i < index && wanted(#[trigger] items[i]);
        lemma_some_position(items, wanted, earlier);
    } else {
        assert(is_first(items, wanted, index));
    }
}

/// A wanted item is never passed over: the first position is there, is not
/// behind that item, and holds a wanted item with none before it.
pub proof fn law_first_wanted_item_is_found<T>(
    items: Seq<T>,
    wanted: spec_fn(T) -> bool,
    index: int,
)
    requires
        0 <= index < items.len(),
        wanted(items[index]),
    ensures
        first_position(items, wanted) matches Some(first) && 0 <= first <= index && wanted(
            items[first],
        ) && (forall|i: int| 0 <= i < first ==> !wanted(#[trigger] items[i])),
{
    lemma_position(items, wanted);
}

} // verus!
