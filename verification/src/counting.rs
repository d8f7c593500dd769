//! Counting the entries of a sequence that equal a given one.

use vstd::prelude::*;

verus! {

/// How many entries of `items` equal `item`.
pub open spec fn occurrences<T>(items: Seq<T>, item: T) -> nat
    decreases items.len(),
{
    if items.len() == 0 {
        0
    } else {
        occurrences(items.drop_last(), item) + if items.last() == item {
            1nat
        } else {
            0nat
        }
    }
}

/// No item occurs more often than there are entries.
pub proof fn lemma_occurrences_bounded<T>(items: Seq<T>, item: T)
    ensures
        occurrences(items, item) <= items.len(),
    decreases items.len(),
{
    if items.len() > 0 {
        lemma_occurrences_bounded(items.drop_last(), item);
    }
}

} // verus!
