//! Capacity-bounded prediction ring.

use vstd::prelude::*;
use crate::number::Number;
use crate::types::snapshot::{optional_view, SnapshotView};
use crate::types::tick_store::ring_pushed;
use crate::types::{PredictionSnapshot, TrendDirection};
use crate::votes::Votes;
use std::collections::VecDeque;

verus! {

/// Default ring capacity.
pub const DEFAULT_PRED_CAPACITY: usize = 100_000;

/// What some snapshots say.
pub open spec fn snapshot_views<N: Number>(snaps: Seq<PredictionSnapshot<N>>) -> Seq<
    SnapshotView<N>,
> {
    snaps.map_values(|s: PredictionSnapshot<N>| s@)
}

/// The latest of the snapshots that were taken no later than `ts`; of several taken
/// at the same time, the last one.
pub open spec fn as_of<N>(snaps: Seq<SnapshotView<N>>, ts: i64) -> Option<SnapshotView<N>>
    decreases snaps.len(),
{
    if snaps.len() == 0 {
        None
    } else if snaps.last().snapshot_at > ts {
        as_of(snaps.drop_last(), ts)
    } else {
        match as_of(snaps.drop_last(), ts) {
            Some(s) => if s.snapshot_at > snaps.last().snapshot_at {
                Some(s)
            } else {
                Some(snaps.last())
            },
            None => Some(snaps.last()),
        }
    }
}

/// What `as_of` finds is one of the snapshots, was taken no later than asked, and
/// none of the others is closer; it finds nothing only where all are later.
pub proof fn as_of_is_the_closest_before<N>(snaps: Seq<SnapshotView<N>>, ts: i64)
    ensures
        match as_of(snaps, ts) {
            Some(s) => {
                &&& snaps.contains(s)
                &&& s.snapshot_at <= ts
                &&& forall|i: int|
                    0 <= i < snaps.len() && (#[trigger] snaps[i]).snapshot_at <= ts
                        ==> snaps[i].snapshot_at <= s.snapshot_at
            },
            None => forall|i: int|
                0 <= i < snaps.len() ==> (#[trigger] snaps[i]).snapshot_at > ts,
        },
    decreases snaps.len(),
{
    if snaps.len() > 0 {
        let rest = snaps.drop_last();
        as_of_is_the_closest_before(rest, ts);
        assert forall|i: int| 0 <= i < snaps.len() implies #[trigger] snaps[i] == (if i
            == snaps.len() - 1 {
            snaps.last()
        } else {
            rest[i]
        }) by {}
        match as_of(rest, ts) {
            Some(s) => {
                let k = choose|k: int| 0 <= k < rest.len() && rest[k] == s;
                assert(snaps[k] == s);
            },
            None => {},
        }
        assert(snaps[snaps.len() - 1] == snaps.last());
    }
}

/// Was a snapshot taken in a time range?
pub open spec fn snapshot_between<N>(start: i64, end: i64) -> spec_fn(SnapshotView<N>) -> bool {
    |s: SnapshotView<N>| start <= s.snapshot_at <= end
}

/// The fused directions of some snapshots, each with its confidence as weight.
pub open spec fn votes_of<N: Number>(snaps: Seq<SnapshotView<N>>) -> Votes<N>
    decreases snaps.len(),
{
    if snaps.len() == 0 {
        Votes::none()
    } else {
        votes_of(snaps.drop_last()).with(
            snaps.last().fused_direction,
            snaps.last().fused_confidence,
        )
    }
}

/// The leading direction of some snapshots and its share of the weight.
pub open spec fn trend_of<N: Number>(snaps: Seq<SnapshotView<N>>) -> Option<(TrendDirection, N)> {
    let votes = votes_of(snaps);
    if snaps.len() == 0 {
        None
    } else if votes.weight().is_same(N::of_int(0)) {
        Some((TrendDirection::Sideways, N::of_int(0)))
    } else {
        Some((votes.leader(), votes.behind(votes.leader()).quotient(votes.weight())))
    }
}

/// Capacity-bounded ring of [`PredictionSnapshot`]s, oldest first.
#[derive(Debug)]
pub struct PredictionStore<N> {
    buf: VecDeque<PredictionSnapshot<N>>,
    capacity: usize,
}

impl<N: Number> View for PredictionStore<N> {
    type V = Seq<SnapshotView<N>>;

    /// What the snapshots in the ring say, oldest first.
    closed spec fn view(&self) -> Seq<SnapshotView<N>> {
        snapshot_views(self.buf@)
    }
}

impl<N: Number> PredictionStore<N> {
    /// How many snapshots the ring holds at most.
    pub closed spec fn capacity(self) -> nat {
        self.capacity as nat
    }

    /// An empty ring of the default capacity.
    pub fn new() -> (r: Self)
        ensures
            r@ == Seq::<SnapshotView<N>>::empty(),
            r.capacity() == DEFAULT_PRED_CAPACITY,
    {
        Self::with_capacity(DEFAULT_PRED_CAPACITY)
    }

    /// An empty ring.
    pub fn with_capacity(capacity: usize) -> (r: Self)
        ensures
            r@ == Seq::<SnapshotView<N>>::empty(),
            r.capacity() == capacity,
    {
        PredictionStore { buf: VecDeque::with_capacity(capacity), capacity }
    }

    /// Adds a snapshot; a full ring loses its oldest one.
    pub fn push(&mut self, snap: PredictionSnapshot<N>)
        ensures
            final(self)@ == ring_pushed(old(self)@, old(self).capacity(), snap@),
            final(self).capacity() == old(self).capacity(),
    {
        if self.buf.len() == self.capacity {
            assert(self.buf@.len() > 0 ==> self.buf@.subrange(1, self.buf@.len() as int)
                =~= self.buf@.drop_first());
            self.buf.pop_front();
        }
        self.buf.push_back(snap);
        assert(self@ =~= ring_pushed(old(self)@, old(self).capacity(), snap@));
    }

    /// Latest snapshot.
    pub fn latest(&self) -> (r: Option<PredictionSnapshot<N>>)
        ensures
            optional_view(r) == (if self@.len() == 0 { None } else { Some(self@.last()) }),
    {
        let n: usize = self.buf.len();
        if n == 0 {
            None
        } else {
            Some(self.buf[n - 1].clone())
        }
    }

    /// Snapshot with `snapshot_at` closest to and no later than `ts_micros`.
    pub fn at_or_before(&self, ts_micros: i64) -> (r: Option<PredictionSnapshot<N>>)
        ensures
            optional_view(r) == as_of(self@, ts_micros),
    {
        let mut found: Option<usize> = None;
        let mut i: usize = 0;
        while i < self.buf.len()
            invariant
                i <= self.buf@.len(),
                self@ == snapshot_views(self.buf@),
                as_of(self@.take(i as int), ts_micros) == (match found {
                    Some(k) => Some(self@[k as int]),
                    None => None,
                }),
                found matches Some(k) ==> k < i,
            decreases self.buf@.len() - i,
        {
            assert(self@.take(i + 1).drop_last() =~= self@.take(i as int));
            assert(self@.take(i + 1).last() == self.buf@[i as int]@);
            let at: i64 = self.buf[i].snapshot_at;
            if at <= ts_micros {
                found = match found {
                    Some(k) => if self.buf[k].snapshot_at > at { Some(k) } else { Some(i) },
                    None => Some(i),
                };
            }
            i += 1;
        }
        assert(self@.take(self@.len() as int) =~= self@);
        match found {
            Some(k) => Some(self.buf[k].clone()),
            None => None,
        }
    }

    /// All snapshots in `[start, end]`, in ring order.
    pub fn range(&self, start: i64, end: i64) -> (r: Vec<PredictionSnapshot<N>>)
        ensures
            snapshot_views(r@) == self@.filter(snapshot_between(start, end)),
    {
        let mut out: Vec<PredictionSnapshot<N>> = Vec::new();
        let mut i: usize = 0;
        let ghost keep = snapshot_between::<N>(start, end);
        proof {
            reveal(Seq::filter);
            assert(self@.take(0).filter(keep) =~= Seq::empty());
            assert(snapshot_views(out@) =~= Seq::empty());
        }
        while i < self.buf.len()
            invariant
                i <= self.buf@.len(),
                self@ == snapshot_views(self.buf@),
                keep == snapshot_between::<N>(start, end),
                snapshot_views(out@) == self@.take(i as int).filter(keep),
            decreases self.buf@.len() - i,
        {
            let s = &self.buf[i];
            proof {
                reveal(Seq::filter);
                assert(self@.take(i + 1).drop_last() =~= self@.take(i as int));
            }
            if s.snapshot_at >= start && s.snapshot_at <= end {
                let ghost before = out@;
                out.push(s.clone());
                assert(snapshot_views(out@) =~= snapshot_views(before).push(s@));
            }
            i += 1;
        }
        assert(self@.take(self@.len() as int) =~= self@);
        out
    }

    /// Weighted-vote aggregate trend over a time range.
    pub fn aggregate_trend(&self, start: i64, end: i64) -> (r: Option<(TrendDirection, N)>)
        ensures
            r == trend_of(self@.filter(snapshot_between(start, end))),
    {
        let snaps = self.range(start, end);
        let ghost views = snapshot_views(snaps@);
        let n: usize = snaps.len();
        if n == 0 {
            return None;
        }
        let mut votes: Votes<N> = Votes::new();
        let mut i: usize = 0;
        while i < n
            invariant
                i <= n,
                n == snaps@.len(),
                views == snapshot_views(snaps@),
                votes == votes_of(views.take(i as int)),
            decreases n - i,
        {
            assert(views.take(i + 1).drop_last() =~= views.take(i as int));
            assert(views.take(i + 1).last() == snaps@[i as int]@);
            votes.cast(snaps[i].fused_direction, snaps[i].fused_confidence);
            i += 1;
        }
        assert(views.take(n as int) =~= views);
        let total = votes.total();
        let zero = N::from_int(0);
        if total.same(zero) {
            return Some((TrendDirection::Sideways, zero));
        }
        let (direction, weight) = votes.winner();
        Some((direction, weight.div(total)))
    }

    pub fn len(&self) -> (r: usize)
        ensures
            r == self@.len(),
    {
        self.buf.len()
    }

    pub fn is_empty(&self) -> (r: bool)
        ensures
            r == (self@.len() == 0),
    {
        self.buf.len() == 0
    }
}

impl<N: Number> Default for PredictionStore<N> {
    fn default() -> (r: Self)
        ensures
            r@ == Seq::<SnapshotView<N>>::empty(),
            r.capacity() == DEFAULT_PRED_CAPACITY,
    {
        Self::new()
    }
}

} // verus!
