//! Picking from sequences.

use vstd::prelude::*;

verus! {

/// What is picked from some entries, in order.
pub open spec fn picked<T, N>(entries: Seq<T>, pick: spec_fn(T) -> Option<N>) -> Seq<N>
    decreases entries.len(),
{
    if entries.len() == 0 {
        Seq::empty()
    } else {
        match pick(entries.last()) {
            Some(x) => picked(entries.drop_last(), pick).push(x),
            None => picked(entries.drop_last(), pick),
        }
    }
}

} // verus!
