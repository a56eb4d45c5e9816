//! Finding the first occurrence of a value in a sequence.

use vstd::prelude::*;

verus! {

/// The first index at or after `from` at which `items` holds `target`, or
/// `items.len()` when there is none.
pub open spec fn next_index_of<T>(items: Seq<T>, from: int, target: T) -> int
    decreases items.len() - from,
{
    if from < 0 || from >= items.len() {
        items.len() as int
    } else if items[from] == target {
        from
    } else {
        next_index_of(items, from + 1, target)
    }
}

/// `next_index_of` lies between `from` and the end, nothing before it is the
/// target, and unless it is the end the target stands there.
pub proof fn lemma_next_index_of<T>(items: Seq<T>, from: int, target: T)
    requires
        0 <= from <= items.len(),
    ensures
        from <= next_index_of(items, from, target) <= items.len(),
        forall|k: int| from <= k < next_index_of(items, from, target) ==> items[k] != target,
        next_index_of(items, from, target) < items.len() ==> items[next_index_of(
            items,
            from,
            target,
        )] == target,
    decreases items.len() - from,
{
    if from < items.len() && items[from] != target {
        lemma_next_index_of(items, from + 1, target);
    }
}

} // verus!
