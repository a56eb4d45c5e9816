//! Searching a byte string for a separator.

use crate::search::next_index_of;
use vstd::prelude::*;

verus! {

/// Finds the next occurrence of `target` at or after `from`; where there is
/// none, the length of `bytes`.
pub fn find_byte(bytes: &[u8], from: usize, target: u8) -> (at: usize)
    ensures
        at == next_index_of(bytes@, from as int, target),
        at <= bytes.len(),
        from <= bytes.len() ==> from <= at,
{
    if from >= bytes.len() {
        return bytes.len();
    }
    let mut at: usize = from;
    while at < bytes.len() && bytes[at] != target
        invariant
            from <= at <= bytes.len(),
            next_index_of(bytes@, at as int, target) == next_index_of(bytes@, from as int, target),
        decreases bytes.len() - at,
    {
        at = at + 1;
    }
    at
}

} // verus!
