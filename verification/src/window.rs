//! Time windows: queues of stamped entries whose stale front is evicted.

use vstd::prelude::*;
use std::collections::VecDeque;

verus! {

/// An entry that carries the time at which it was recorded.
pub trait Stamped {
    /// When the entry was recorded.
    spec fn at(&self) -> i64;

    /// When the entry was recorded.
    fn stamp(&self) -> (r: i64)
        ensures
            r == self.at(),
    ;
}

impl Stamped for i64 {
    open spec fn at(&self) -> i64 {
        *self
    }

    fn stamp(&self) -> (r: i64) {
        *self
    }
}

impl<A, B> Stamped for (i64, A, B) {
    open spec fn at(&self) -> i64 {
        self.0
    }

    fn stamp(&self) -> (r: i64) {
        self.0
    }
}

/// How many leading entries were recorded before `cutoff`.
pub open spec fn stale_prefix<T: Stamped>(entries: Seq<T>, cutoff: int) -> nat
    decreases entries.len(),
{
    if entries.len() > 0 && entries[0].at() < cutoff {
        1 + stale_prefix(entries.drop_first(), cutoff)
    } else {
        0
    }
}

/// What remains of a window once its stale front is gone.
pub open spec fn fresh_suffix<T: Stamped>(entries: Seq<T>, cutoff: int) -> Seq<T> {
    entries.skip(stale_prefix(entries, cutoff) as int)
}

/// The recorded times never go back.
pub open spec fn in_order<T: Stamped>(entries: Seq<T>) -> bool {
    forall|i: int, j: int|
        0 <= i <= j < entries.len() ==> (#[trigger] entries[i]).at() <= (#[trigger] entries[j]).at()
}

/// Eviction drops a front of the window: every entry of it is stale, and what is
/// left does not start with a stale entry.
pub proof fn eviction_drops_the_stale_front<T: Stamped>(entries: Seq<T>, cutoff: int)
    ensures
        stale_prefix(entries, cutoff) <= entries.len(),
        forall|i: int|
            0 <= i < stale_prefix(entries, cutoff) ==> (#[trigger] entries[i]).at() < cutoff,
        stale_prefix(entries, cutoff) < entries.len() ==> entries[stale_prefix(
            entries,
            cutoff,
        ) as int].at() >= cutoff,
    decreases entries.len(),
{
    if entries.len() > 0 && entries[0].at() < cutoff {
        let rest = entries.drop_first();
        eviction_drops_the_stale_front(rest, cutoff);
        assert forall|i: int| 0 <= i < stale_prefix(entries, cutoff) implies (
        #[trigger] entries[i]).at() < cutoff by {
            if i > 0 {
                assert(entries[i] == rest[i - 1]);
            }
        }
    }
}

/// In a window whose times never go back, an entry survives eviction exactly when
/// it was recorded at the cutoff or later.
pub proof fn eviction_keeps_the_window<T: Stamped>(entries: Seq<T>, cutoff: int)
    requires
        in_order(entries),
    ensures
        forall|i: int|
            0 <= i < entries.len() ==> ((#[trigger] entries[i]).at() >= cutoff <==> i
                >= stale_prefix(entries, cutoff)),
        in_order(fresh_suffix(entries, cutoff)),
{
    eviction_drops_the_stale_front(entries, cutoff);
    let k = stale_prefix(entries, cutoff) as int;
    assert forall|i: int| 0 <= i < entries.len() implies ((#[trigger] entries[i]).at() >= cutoff
        <==> i >= k) by {
        if i >= k {
            assert(entries[k].at() <= entries[i].at());
        }
    }
}

pub(crate) proof fn stale_prefix_step<T: Stamped>(entries: Seq<T>, cutoff: int)
    requires
        entries.len() > 0,
        entries[0].at() < cutoff,
    ensures
        stale_prefix(entries, cutoff) == 1 + stale_prefix(entries.drop_first(), cutoff),
        fresh_suffix(entries, cutoff) == fresh_suffix(entries.drop_first(), cutoff),
{
    eviction_drops_the_stale_front(entries.drop_first(), cutoff);
    assert(fresh_suffix(entries, cutoff) =~= fresh_suffix(entries.drop_first(), cutoff));
}

/// Takes the front entry if it was recorded before `cutoff`.
pub fn pop_stale<T: Stamped>(buf: &mut VecDeque<T>, cutoff: i64) -> (r: Option<T>)
    ensures
        match r {
            Some(e) => {
                &&& old(buf)@.len() > 0
                &&& old(buf)@[0].at() < cutoff
                &&& e == old(buf)@[0]
                &&& final(buf)@ == old(buf)@.drop_first()
            },
            None => {
                &&& final(buf)@ == old(buf)@
                &&& old(buf)@.len() > 0 ==> old(buf)@[0].at() >= cutoff
            },
        },
{
    if buf.len() > 0 && buf[0].stamp() < cutoff {
        assert(buf@.subrange(1, buf@.len() as int) =~= buf@.drop_first());
        buf.pop_front()
    } else {
        None
    }
}

/// Drops the front entries that were recorded before `cutoff`.
pub fn drop_stale<T: Stamped>(buf: &mut VecDeque<T>, cutoff: i64)
    ensures
        final(buf)@ == fresh_suffix(old(buf)@, cutoff as int),
{
    loop
        invariant
            fresh_suffix(buf@, cutoff as int) == fresh_suffix(old(buf)@, cutoff as int),
        ensures
            buf@ == fresh_suffix(old(buf)@, cutoff as int),
        decreases buf@.len(),
    {
        let ghost before = buf@;
        if pop_stale(buf, cutoff).is_none() {
            assert(fresh_suffix(buf@, cutoff as int) =~= buf@);
            break;
        }
        proof {
            stale_prefix_step(before, cutoff as int);
        }
    }
}

} // verus!
