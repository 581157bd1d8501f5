//! What queries find in the stores.

use vstd::prelude::*;
use crate::engine::EngineView;
use crate::laws::vote::{leader_is_the_first_of_the_heaviest, rank};
use crate::number::{Fixed, Number, UNITS};
use crate::query::{
    answers_latest, answers_slices, answers_window, projection, slices, slices_tile_the_range,
};
use crate::types::pred_store::{as_of_is_the_closest_before, snapshot_between, trend_of, votes_of};
use crate::types::snapshot::SnapshotView;
use crate::types::tick_store::{ring_after, ring_holds_the_most_recent, tick_between};
use crate::types::{EngineError, EngineResult, Tick, TrendDirection, WindowProjection};

verus! {

/// How many of some ticks lie in a time range, both ends included.
pub open spec fn ticks_in<N>(ticks: Seq<Tick<N>>, start: i64, end: i64) -> int
    decreases ticks.len(),
{
    if ticks.len() == 0 {
        0
    } else {
        ticks_in(ticks.drop_last(), start, end) + if start <= ticks.last().ts_micros <= end {
            1int
        } else {
            0
        }
    }
}

/// The ticks of a range are those that lie in it, both ends included: each of them, no
/// other, and none twice as often.
pub proof fn range_holds_the_ticks_between<N>(ticks: Seq<Tick<N>>, start: i64, end: i64)
    ensures
        ({
            let found = ticks.filter(tick_between(start, end));
            &&& found.len() == ticks_in(ticks, start, end)
            &&& forall|i: int|
                0 <= i < found.len() ==> start <= (#[trigger] found[i]).ts_micros <= end
            &&& forall|i: int|
                0 <= i < ticks.len() && start <= (#[trigger] ticks[i]).ts_micros <= end
                    ==> found.contains(ticks[i])
            &&& forall|i: int|
                0 <= i < found.len() ==> ticks.contains(#[trigger] found[i])
        }),
    decreases ticks.len(),
{
    reveal(Seq::filter);
    let keep = tick_between::<N>(start, end);
    let found = ticks.filter(keep);
    if ticks.len() > 0 {
        let rest = ticks.drop_last();
        range_holds_the_ticks_between(rest, start, end);
        let part = rest.filter(keep);
        let last = ticks[ticks.len() - 1];
        assert(found == if keep(last) { part.push(last) } else { part });
        assert forall|i: int| 0 <= i < found.len() implies start <= (#[trigger] found[i]).ts_micros
            <= end by {
            if i < part.len() {
                assert(found[i] == part[i]);
            }
        }
        assert forall|i: int|
            0 <= i < ticks.len() && start <= (#[trigger] ticks[i]).ts_micros <= end implies found.contains(
            ticks[i],
        ) by {
            if i < rest.len() {
                assert(rest[i] == ticks[i]);
                assert(part.contains(ticks[i]));
                let k = choose|k: int| 0 <= k < part.len() && part[k] == ticks[i];
                assert(found[k] == ticks[i]);
            } else {
                assert(found[part.len() as int] == last);
            }
        }
        assert forall|i: int| 0 <= i < found.len() implies ticks.contains(#[trigger] found[i]) by {
            if i < part.len() {
                assert(found[i] == part[i]);
                assert(rest.contains(part[i]));
                let k = choose|k: int| 0 <= k < rest.len() && rest[k] == part[i];
                assert(ticks[k] == found[i]);
            } else {
                assert(ticks[ticks.len() - 1] == last);
            }
        }
    }
}

/// A projection onto a window: as many ticks as lie in it, a bar exactly when there are
/// any, and the prediction that was taken last before its end.
pub proof fn projection_shows_the_window<N: Number>(engine: EngineView<N>, start: i64, end: i64)
    ensures
        ({
            let w = projection(engine, start, end);
            &&& w.window_start == start
            &&& w.window_end == end
            &&& w.tick_count == ticks_in(engine.ticks, start, end)
            &&& w.ohlcv is Some <==> exists|i: int|
                0 <= i < engine.ticks.len() && start <= (#[trigger] engine.ticks[i]).ts_micros
                    <= end
            &&& w.ohlcv matches Some(bar) ==> start <= bar.open_ts <= end && start <= bar.close_ts
                <= end
            &&& w.prediction is Some <==> exists|i: int|
                0 <= i < engine.snapshots.len() && (#[trigger] engine.snapshots[i]).snapshot_at
                    <= end
            &&& w.prediction matches Some(s) ==> engine.snapshots.contains(s) && s.snapshot_at
                <= end && forall|i: int|
                0 <= i < engine.snapshots.len() && (#[trigger] engine.snapshots[i]).snapshot_at
                    <= end ==> engine.snapshots[i].snapshot_at <= s.snapshot_at
        }),
{
    range_holds_the_ticks_between(engine.ticks, start, end);
    as_of_is_the_closest_before(engine.snapshots, end);
    let found = engine.ticks.filter(tick_between(start, end));
    let w = projection(engine, start, end);
    if found.len() > 0 {
        assert(start <= found[0].ts_micros <= end);
        assert(start <= found[found.len() - 1].ts_micros <= end);
        assert(engine.ticks.contains(found[0]));
        let k = choose|k: int| 0 <= k < engine.ticks.len() && engine.ticks[k] == found[0];
        assert(start <= engine.ticks[k].ts_micros <= end);
    } else if exists|i: int|
        0 <= i < engine.ticks.len() && start <= (#[trigger] engine.ticks[i]).ts_micros <= end {
        let i = choose|i: int|
            0 <= i < engine.ticks.len() && start <= (#[trigger] engine.ticks[i]).ts_micros <= end;
        assert(found.contains(engine.ticks[i]));
    }
    if let Some(s) = w.prediction {
        let k = choose|k: int| 0 <= k < engine.snapshots.len() && engine.snapshots[k] == s;
        assert(engine.snapshots[k].snapshot_at <= end);
    }
}

/// After a run of publications, what is stored are the last ones, as many as the store
/// holds, and the latest is the last of them; the ticks that were stored are untouched.
pub proof fn publications_are_kept<N: Number>(engine: EngineView<N>, snaps: Seq<SnapshotView<N>>)
    requires
        engine.pred_capacity > 0,
        engine.snapshots.len() == 0,
        engine.latest is None,
    ensures
        ({
            let after = published_all(engine, snaps);
            &&& after.snapshots == snaps.skip(
                if snaps.len() > engine.pred_capacity {
                    snaps.len() - engine.pred_capacity
                } else {
                    0
                },
            )
            &&& snaps.len() > 0 ==> after.latest == Some(snaps.last())
            &&& snaps.len() == 0 ==> after.latest is None
            &&& after.ticks == engine.ticks
            &&& after.health == engine.health
        }),
{
    assert(engine.snapshots =~= Seq::empty());
    ring_holds_the_most_recent(engine.pred_capacity, snaps);
    publications_go_to_the_ring(engine, snaps);
}

/// An engine after some publications.
pub open spec fn published_all<N: Number>(
    engine: EngineView<N>,
    snaps: Seq<SnapshotView<N>>,
) -> EngineView<N>
    decreases snaps.len(),
{
    if snaps.len() == 0 {
        engine
    } else {
        published_all(engine, snaps.drop_last()).published(snaps.last())
    }
}

proof fn publications_go_to_the_ring<N: Number>(
    engine: EngineView<N>,
    snaps: Seq<SnapshotView<N>>,
)
    ensures
        ({
            let after = published_all(engine, snaps);
            &&& after.snapshots == ring_after(engine.snapshots, engine.pred_capacity, snaps)
            &&& after.pred_capacity == engine.pred_capacity
            &&& snaps.len() > 0 ==> after.latest == Some(snaps.last())
            &&& snaps.len() == 0 ==> after.latest == engine.latest
            &&& after.ticks == engine.ticks
            &&& after.health == engine.health
        }),
    decreases snaps.len(),
{
    if snaps.len() > 0 {
        publications_go_to_the_ring(engine, snaps.drop_last());
    }
}

/// The confidence that some snapshots put behind a direction, in units.
pub open spec fn backing(snaps: Seq<SnapshotView<Fixed>>, direction: TrendDirection) -> int
    decreases snaps.len(),
{
    if snaps.len() == 0 {
        0
    } else {
        backing(snaps.drop_last(), direction) + if snaps.last().fused_direction == direction {
            snaps.last().fused_confidence.units as int
        } else {
            0
        }
    }
}

/// No confidence is negative.
pub open spec fn are_backed(snaps: Seq<SnapshotView<Fixed>>) -> bool {
    forall|i: int| 0 <= i < snaps.len() ==> (#[trigger] snaps[i]).fused_confidence.units >= 0
}

/// All that some snapshots back.
pub open spec fn whole_backing(snaps: Seq<SnapshotView<Fixed>>) -> int {
    backing(snaps, TrendDirection::Bullish) + backing(snaps, TrendDirection::Bearish) + backing(
        snaps,
        TrendDirection::Sideways,
    )
}

proof fn votes_are_backing(snaps: Seq<SnapshotView<Fixed>>)
    requires
        are_backed(snaps),
        whole_backing(snaps) <= i64::MAX,
    ensures
        forall|d: TrendDirection| #[trigger]
            votes_of(snaps).behind(d).units == backing(snaps, d) && backing(snaps, d) >= 0,
        whole_backing(snaps) >= 0,
    decreases snaps.len(),
{
    if snaps.len() > 0 {
        let rest = snaps.drop_last();
        assert forall|i: int| 0 <= i < rest.len() implies (#[trigger] rest[i]).fused_confidence.units
            >= 0 by {
            assert(rest[i] == snaps[i]);
        }
        assert(snaps[snaps.len() - 1] == snaps.last());
        votes_are_backing_at(rest, snaps.last());
        votes_are_backing(rest);
        let before = votes_of(rest);
        let s = snaps.last();
        assert forall|d: TrendDirection| #[trigger]
            votes_of(snaps).behind(d).units == backing(snaps, d) && backing(snaps, d) >= 0 by {
            assert(before.behind(d).units == backing(rest, d));
            assert(before.behind(TrendDirection::Bullish).units == backing(
                rest,
                TrendDirection::Bullish,
            ));
            assert(before.behind(TrendDirection::Bearish).units == backing(
                rest,
                TrendDirection::Bearish,
            ));
            assert(before.behind(TrendDirection::Sideways).units == backing(
                rest,
                TrendDirection::Sideways,
            ));
        }
        assert(votes_of(snaps).behind(TrendDirection::Bullish).units >= 0);
        assert(votes_of(snaps).behind(TrendDirection::Bearish).units >= 0);
        assert(votes_of(snaps).behind(TrendDirection::Sideways).units >= 0);
    } else {
        assert forall|d: TrendDirection| #[trigger]
            votes_of(snaps).behind(d).units == backing(snaps, d) && backing(snaps, d) >= 0 by {}
    }
}

proof fn votes_are_backing_at(rest: Seq<SnapshotView<Fixed>>, s: SnapshotView<Fixed>)
    requires
        s.fused_confidence.units >= 0,
    ensures
        whole_backing(rest) <= whole_backing(rest.push(s)),
{
    assert(rest.push(s).drop_last() =~= rest);
}

/// The trend over some snapshots is the first direction with the most confidence behind it, and
/// its share of all confidence; Sideways with 0 where there is none, and nothing of no
/// snapshots.
pub proof fn trend_is_backed_the_most(snaps: Seq<SnapshotView<Fixed>>)
    requires
        are_backed(snaps),
        whole_backing(snaps) <= i64::MAX,
    ensures
        trend_of(snaps) is None <==> snaps.len() == 0,
        trend_of(snaps) matches Some(t) ==> {
            &&& whole_backing(snaps) == 0 ==> t.0 is Sideways && t.1.units == 0
            &&& whole_backing(snaps) > 0 ==> {
                &&& forall|d: TrendDirection|
                    {
                        &&& #[trigger] backing(snaps, d) <= backing(snaps, t.0)
                        &&& rank(d) < rank(t.0) ==> backing(snaps, d) < backing(snaps, t.0)
                    }
                &&& t.1.units * whole_backing(snaps) <= backing(snaps, t.0) * UNITS
                &&& backing(snaps, t.0) * UNITS < t.1.units * whole_backing(snaps)
                    + whole_backing(snaps)
            }
        },
{
    votes_are_backing(snaps);
    let votes = votes_of(snaps);
    let u = UNITS as int;
    assert(votes.behind(TrendDirection::Bullish).units == backing(snaps, TrendDirection::Bullish));
    assert(votes.behind(TrendDirection::Bearish).units == backing(snaps, TrendDirection::Bearish));
    assert(votes.behind(TrendDirection::Sideways).units == backing(
        snaps,
        TrendDirection::Sideways,
    ));
    let w = whole_backing(snaps);
    assert(votes.weight().units == w);
    if w > 0 {
        let lead = votes.behind(votes.leader()).units as int;
        assert(lead == backing(snaps, votes.leader()));
        let x = (lead * u) / w;
        assert(0 <= x <= u && x * w <= lead * u < x * w + w) by (nonlinear_arith)
            requires
                0 <= lead <= w,
                w > 0,
                u == 100_000_000,
                x == (lead * u) / w,
        ;
        assert forall|d: TrendDirection|
            {
                &&& #[trigger] backing(snaps, d) <= backing(snaps, votes.leader())
                &&& rank(d) < rank(votes.leader()) ==> backing(snaps, d) < backing(
                    snaps,
                    votes.leader(),
                )
            } by {
            assert(votes.behind(d).units == backing(snaps, d));
            leader_is_the_first_of_the_heaviest(votes, d);
        }
    }
}

/// The snapshots of a range are those that were taken in it, both ends included.
pub proof fn range_holds_the_snapshots_between<N>(
    snaps: Seq<SnapshotView<N>>,
    start: i64,
    end: i64,
)
    ensures
        ({
            let found = snaps.filter(snapshot_between(start, end));
            &&& forall|i: int|
                0 <= i < found.len() ==> start <= (#[trigger] found[i]).snapshot_at <= end
            &&& forall|i: int|
                0 <= i < snaps.len() && start <= (#[trigger] snaps[i]).snapshot_at <= end
                    ==> found.contains(snaps[i])
        }),
    decreases snaps.len(),
{
    reveal(Seq::filter);
    let keep = snapshot_between::<N>(start, end);
    let found = snaps.filter(keep);
    if snaps.len() > 0 {
        let rest = snaps.drop_last();
        range_holds_the_snapshots_between(rest, start, end);
        let part = rest.filter(keep);
        let last = snaps[snaps.len() - 1];
        assert(found == if keep(last) { part.push(last) } else { part });
        assert forall|i: int| 0 <= i < found.len() implies start <= (
        #[trigger] found[i]).snapshot_at <= end by {
            if i < part.len() {
                assert(found[i] == part[i]);
            }
        }
        assert forall|i: int|
            0 <= i < snaps.len() && start <= (#[trigger] snaps[i]).snapshot_at <= end implies found.contains(
            snaps[i],
        ) by {
            if i < rest.len() {
                assert(rest[i] == snaps[i]);
                let k = choose|k: int| 0 <= k < part.len() && part[k] == snaps[i];
                assert(found[k] == snaps[i]);
            } else {
                assert(found[part.len() as int] == last);
            }
        }
    }
}

// ---------------------------------------------------------------------------
// Answers
// ---------------------------------------------------------------------------
/// A query for a window is refused exactly when its end lies before its start; else the
/// answer is for the window that was asked for and counts the ticks in it.
pub proof fn windows_are_those_asked_for<N: Number>(
    engine: EngineView<N>,
    start: i64,
    end: i64,
    r: EngineResult<WindowProjection<N>>,
)
    requires
        answers_window(engine, start, end, r),
    ensures
        r is Err <==> start > end,
        r matches Ok(w) ==> {
            &&& w.window_start == start
            &&& w.window_end == end
            &&& w.tick_count == ticks_in(engine.ticks, start, end)
            &&& w.ohlcv is Some <==> ticks_in(engine.ticks, start, end) > 0
        },
        r matches Err(e) ==> e == (EngineError::NoDataInRange { start, end }),
{
    if let Ok(w) = r {
        projection_shows_the_window(engine, start, end);
        range_holds_the_ticks_between(engine.ticks, start, end);
        assert(w@.window_start == w.window_start && w@.window_end == w.window_end);
        assert(w@.tick_count == w.tick_count && w@.ohlcv == w.ohlcv);
    }
}

/// A query for the last seconds ends at the latest tick, which it counts, and starts so
/// many seconds before; it is refused exactly when there is no tick.
pub proof fn latest_windows_end_at_the_latest_tick<N: Number>(
    engine: EngineView<N>,
    secs: int,
    r: EngineResult<WindowProjection<N>>,
)
    requires
        answers_latest(engine, secs, r),
        0 <= secs,
        engine.ticks.len() > 0 ==> i64::MIN <= engine.ticks.last().ts_micros - secs * 1_000_000,
    ensures
        r is Err <==> engine.ticks.len() == 0,
        r matches Err(e) ==> e is EmptyBuffer,
        r matches Ok(w) ==> {
            &&& w.window_end == engine.ticks.last().ts_micros
            &&& w.window_end - w.window_start == secs * 1_000_000
            &&& w.tick_count == ticks_in(engine.ticks, w.window_start, w.window_end)
            &&& w.ohlcv is Some
        },
{
    if engine.ticks.len() > 0 {
        let end = engine.ticks.last().ts_micros;
        let start = (end - secs * 1_000_000) as i64;
        windows_are_those_asked_for(engine, start, end, r);
        range_holds_the_ticks_between(engine.ticks, start, end);
        let n = engine.ticks.len() - 1;
        assert(start <= engine.ticks[n].ts_micros <= end);
        let found = engine.ticks.filter(tick_between(start, end));
        assert(found.contains(engine.ticks[n]));
        assert(found.len() > 0);
    }
}

proof fn slices_are_even(start: int, end: int, step: int, i: int)
    requires
        step > 0,
        0 <= i < slices(start, end, step).len(),
    ensures
        slices(start, end, step)[i].0 == start + i * step,
        slices(start, end, step)[i].0 < end,
        slices(start, end, step)[i].1 == (if start + (i + 1) * step < end {
            start + (i + 1) * step
        } else {
            end
        }),
        i < slices(start, end, step).len() - 1 ==> start + (i + 1) * step < end,
        i == slices(start, end, step).len() - 1 ==> start + (i + 1) * step >= end,
    decreases i,
{
    let all = slices(start, end, step);
    let rest = slices(start + step, end, step);
    assert(start < end);
    assert(all =~= seq![(start, if start + step < end { start + step } else { end })] + rest);
    if i > 0 {
        assert(all[i] == rest[i - 1]);
        slices_are_even(start + step, end, step, i - 1);
        assert((start + step) + (i - 1) * step == start + i * step && (start + step) + i * step
            == start + (i + 1) * step && (start + step) + ((i - 1) + 1) * step == start + (i + 1)
            * step) by (nonlinear_arith);
    } else {
        assert(0 * step == 0 && 1 * step == step);
        if rest.len() > 0 {
            assert(start + step < end);
        } else if start + step < end {
            assert(rest.len() > 0) by {
                assert(rest =~= seq![
                    (
                        start + step,
                        if start + step + step < end {
                            start + step + step
                        } else {
                            end
                        },
                    ),
                ] + slices(start + step + step, end, step));
            }
        }
    }
}

/// Sub-windows are refused exactly when the step is not positive. Else each is a step long,
/// but for the last one, which is cut off at the end; the first one starts at the start,
/// each one where the one before ends, and each counts the ticks between its own bounds.
pub proof fn sub_windows_cover_the_range<N: Number>(
    engine: EngineView<N>,
    start: i64,
    end: i64,
    step_secs: int,
    r: EngineResult<Vec<WindowProjection<N>>>,
    i: int,
)
    requires
        answers_slices(engine, start as int, end as int, step_secs, r),
        start < end,
        end + step_secs * 1_000_000 <= i64::MAX,
    ensures
        r is Ok <==> step_secs > 0,
        r matches Ok(ws) ==> ws@.len() > 0 && (0 <= i < ws@.len() ==> {
            let step = step_secs * 1_000_000;
            let w = ws@[i];
            &&& w.window_start == start + i * step
            &&& w.window_end == (if i < ws@.len() - 1 {
                start + (i + 1) * step
            } else {
                end as int
            })
            &&& w.tick_count == ticks_in(engine.ticks, w.window_start, w.window_end)
        }),
{
    if let Ok(ws) = r {
        let step = step_secs * 1_000_000;
        let bounds = slices(start as int, end as int, step);
        slices_tile_the_range(start as int, end as int, step);
        if 0 <= i < ws@.len() {
            slices_are_even(start as int, end as int, step, i);
            let w = ws@[i];
            let (a, b) = bounds[i];
            assert(w@ == projection(engine, a as i64, b as i64));
            assert(i * step >= 0) by (nonlinear_arith)
                requires
                    i >= 0,
                    step > 0,
            ;
            assert(start <= a && a < end && b <= end);
            assert(a <= b) by {
                assert((i + 1) * step == i * step + step) by (nonlinear_arith);
            }
            projection_shows_the_window(engine, a as i64, b as i64);
            assert(w@.window_start == w.window_start && w@.window_end == w.window_end);
            assert(w@.tick_count == w.tick_count);
        }
    }
}

} // verus!
