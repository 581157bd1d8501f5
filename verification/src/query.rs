//! Subsystem query API.
//!
//! [`QueryEngine`] reads a [`PredictionEngine`]. No inference runs at query time:
//! everything is assembled from what the stores hold.

use vstd::prelude::*;
use crate::clock::{utc_now_micros, CALENDAR_END_MICROS};
use crate::confidence::is_definite;
use crate::engine::{EngineView, PredictionEngine};
use crate::models::is_confidence;
use crate::number::Number;
use crate::pipeline::{confidences_are_numbers, confidences_in_range};
use crate::types::pred_store::{as_of, snapshot_between, trend_of};
use crate::types::snapshot::{
    optional_view, ForecastView, ProjectionView, SnapshotView,
};
use crate::types::tick_store::{bar_of, ohlcv_from_ticks, tick_between};
use crate::types::{
    EngineError, EngineResult, PredictionSnapshot, ShortTermForecast, TimeScale, TrendDirection,
    TrendSignal, WindowProjection,
};

verus! {

/// The fused direction and confidence of the latest snapshot.
pub open spec fn fused_of<N: Number>(engine: EngineView<N>) -> Option<(TrendDirection, N)> {
    match engine.latest {
        Some(s) => Some((s.fused_direction, s.fused_confidence)),
        None => None,
    }
}

/// Once something has been published, the fused direction can be read, with a confidence
/// between 0 and 1; with one that is a number, where all that can be read are.
pub proof fn fused_direction_is_confident<N: Number>(engine: EngineView<N>)
    requires
        confidences_in_range(engine),
    ensures
        fused_of(engine) is Some <==> engine.latest is Some,
        fused_of(engine) matches Some(pair) ==> is_confidence(pair.1),
        confidences_are_numbers(engine) ==> (fused_of(engine) matches Some(pair) ==> is_definite(
            pair.1,
        )),
{
}

/// The engine's state projected onto `[start, end]`: the bar of the ticks in it, and
/// the prediction as of its end.
pub open spec fn projection<N: Number>(
    engine: EngineView<N>,
    start: i64,
    end: i64,
) -> ProjectionView<N> {
    let ticks = engine.ticks.filter(tick_between(start, end));
    ProjectionView {
        window_start: start,
        window_end: end,
        ohlcv: bar_of(ticks),
        prediction: as_of(engine.snapshots, end),
        tick_count: ticks.len(),
    }
}

/// `r` answers a query for `[start, end]`: the projection, or an error if the range is
/// reversed.
pub open spec fn answers_window<N: Number>(
    engine: EngineView<N>,
    start: i64,
    end: i64,
    r: EngineResult<WindowProjection<N>>,
) -> bool {
    match r {
        Ok(w) => start <= end && w@ == projection(engine, start, end),
        Err(e) => start > end && e == (EngineError::NoDataInRange { start, end }),
    }
}

/// `r` answers a query for the window of so many seconds that ends at the latest tick.
pub open spec fn answers_latest<N: Number>(
    engine: EngineView<N>,
    secs: int,
    r: EngineResult<WindowProjection<N>>,
) -> bool {
    if engine.ticks.len() == 0 {
        r matches Err(e) && e is EmptyBuffer
    } else {
        let end = engine.ticks.last().ts_micros;
        answers_window(engine, (end - secs * 1_000_000) as i64, end, r)
    }
}

/// The latest tick leaves room for a window of so many seconds before it.
pub open spec fn room_before_latest<N: Number>(engine: EngineView<N>, secs: int) -> bool {
    engine.ticks.len() > 0 ==> i64::MIN <= engine.ticks.last().ts_micros - secs * 1_000_000
        <= i64::MAX
}

/// The bounds of consecutive windows of one length that cover `[start, end)`; the last
/// one is cut off at the end.
pub open spec fn slices(start: int, end: int, step: int) -> Seq<(int, int)>
    decreases if start < end { end - start } else { 0 },
{
    if step > 0 && start < end {
        seq![(start, if start + step < end { start + step } else { end })] + slices(
            start + step,
            end,
            step,
        )
    } else {
        Seq::empty()
    }
}

/// Sub-windows tile their range: the first starts at its start, each next one starts
/// where the last ended, the last ends at its end, and none is longer than a step.
pub proof fn slices_tile_the_range(start: int, end: int, step: int)
    requires
        step > 0,
        start < end,
    ensures
        slices(start, end, step).len() > 0,
        slices(start, end, step)[0].0 == start,
        slices(start, end, step).last().1 == end,
        forall|i: int|
            0 <= i < slices(start, end, step).len() ==> 0 < (#[trigger] slices(start, end, step)[i]).1
                - slices(start, end, step)[i].0 <= step,
        forall|i: int, j: int|
            0 <= i < slices(start, end, step).len() - 1 && j == i + 1 ==> (#[trigger] slices(
                start,
                end,
                step,
            )[i]).1 == (#[trigger] slices(start, end, step)[j]).0,
    decreases end - start,
{
    let all = slices(start, end, step);
    let rest = slices(start + step, end, step);
    if start + step < end {
        slices_tile_the_range(start + step, end, step);
        assert(all.last() == rest.last());
        assert forall|i: int| 0 <= i < all.len() implies 0 < (#[trigger] all[i]).1 - all[i].0
            <= step by {
            if i > 0 {
                assert(all[i] == rest[i - 1]);
            }
        }
        assert forall|i: int, j: int| 0 <= i < all.len() - 1 && j == i + 1 implies (
        #[trigger] all[i]).1 == (#[trigger] all[j]).0 by {
            assert(all[j] == rest[j - 1]);
            if i > 0 {
                assert(all[i] == rest[i - 1]);
            }
        }
    } else {
        assert(rest.len() == 0);
    }
}

/// A range that is a whole number of steps long has that many sub-windows.
pub proof fn slices_are_as_many_as_steps(start: int, count: nat, step: int)
    requires
        step > 0,
    ensures
        slices(start, start + count * step, step).len() == count,
    decreases count,
{
    assert(count > 0 ==> count * step == step + (count - 1) * step && (count - 1) * step >= 0)
        by (nonlinear_arith)
        requires
            step > 0,
            count >= 0,
    ;
    if count > 0 {
        slices_are_as_many_as_steps(start + step, (count - 1) as nat, step);
        assert(start + count * step == start + step + (count - 1) * step);
    } else {
        assert(count * step == 0) by (nonlinear_arith)
            requires
                count == 0,
        ;
    }
}

/// `ws` are the projections onto some bounds, in order.
pub open spec fn projects_slices<N: Number>(
    engine: EngineView<N>,
    bounds: Seq<(int, int)>,
    ws: Seq<WindowProjection<N>>,
) -> bool {
    &&& ws.len() == bounds.len()
    &&& forall|i: int|
        0 <= i < ws.len() ==> (#[trigger] ws[i])@ == projection(
            engine,
            bounds[i].0 as i64,
            bounds[i].1 as i64,
        )
}

/// `r` answers a query for sub-windows: an error if the step is not positive.
pub open spec fn answers_slices<N: Number>(
    engine: EngineView<N>,
    start: int,
    end: int,
    step_secs: int,
    r: EngineResult<Vec<WindowProjection<N>>>,
) -> bool {
    match r {
        Ok(ws) => step_secs > 0 && projects_slices(
            engine,
            slices(start, end, step_secs * 1_000_000),
            ws@,
        ),
        Err(e) => step_secs <= 0 && (e matches EngineError::Feature(detail) && detail@
            == "step_secs must be > 0"@),
    }
}

/// The signal of one scale.
pub open spec fn signal_at<N>(s: SnapshotView<N>, scale: TimeScale) -> TrendSignal<N> {
    match scale {
        TimeScale::Micro => s.micro,
        TimeScale::Short => s.short,
        TimeScale::Medium => s.medium,
        TimeScale::Broad => s.broad,
    }
}

/// The latest snapshot's signal of one scale.
pub open spec fn latest_signal<N>(latest: Option<SnapshotView<N>>, scale: TimeScale) -> Option<
    TrendSignal<N>,
> {
    match latest {
        Some(s) => Some(signal_at(s, scale)),
        None => None,
    }
}

/// The latest snapshot's forecast of one step size.
pub open spec fn latest_forecast<N>(latest: Option<SnapshotView<N>>, step_secs: u32) -> Option<
    ForecastView<N>,
> {
    match latest {
        Some(s) => if s.forecasts.contains_key(step_secs) {
            Some(s.forecasts[step_secs])
        } else {
            None
        },
        None => None,
    }
}

/// What an optional forecast says.
pub open spec fn forecast_view<N: Number>(f: Option<ShortTermForecast<N>>) -> Option<ForecastView<N>> {
    match f {
        Some(f) => Some(f@),
        None => None,
    }
}

/// Subsystem-facing query interface.
pub struct QueryEngine<'a, N> {
    engine: &'a PredictionEngine<N>,
}

impl<'a, N: Number> QueryEngine<'a, N> {
    /// What the queries read.
    pub closed spec fn state(self) -> EngineView<N> {
        self.engine@
    }

    pub fn new(engine: &'a PredictionEngine<N>) -> (r: Self)
        ensures
            r.state() == engine@,
    {
        QueryEngine { engine }
    }

    // Latest state

    /// Latest snapshot.
    pub fn latest(&self) -> (r: Option<PredictionSnapshot<N>>)
        ensures
            optional_view(r) == self.state().latest,
    {
        self.engine.latest_snapshot()
    }

    /// Latest BTC/USD price.
    pub fn latest_price(&self) -> (r: Option<N>)
        ensures
            r == (if self.state().ticks.len() == 0 {
                None
            } else {
                Some(self.state().ticks.last().price)
            }),
    {
        self.engine.latest_price()
    }

    /// Fused direction + confidence.
    pub fn fused(&self) -> (r: Option<(TrendDirection, N)>)
        ensures
            r == fused_of(self.state()),
    {
        match self.latest() {
            Some(s) => Some((s.fused_direction, s.fused_confidence)),
            None => None,
        }
    }

    // Trend queries

    pub fn trend(&self, scale: TimeScale) -> (r: Option<TrendSignal<N>>)
        ensures
            r == latest_signal(self.state().latest, scale),
    {
        match self.latest() {
            Some(s) => Some(
                match scale {
                    TimeScale::Micro => s.micro,
                    TimeScale::Short => s.short,
                    TimeScale::Medium => s.medium,
                    TimeScale::Broad => s.broad,
                },
            ),
            None => None,
        }
    }

    pub fn micro_trend(&self) -> (r: Option<TrendSignal<N>>)
        ensures
            r == latest_signal(self.state().latest, TimeScale::Micro),
    {
        self.trend(TimeScale::Micro)
    }

    pub fn short_trend(&self) -> (r: Option<TrendSignal<N>>)
        ensures
            r == latest_signal(self.state().latest, TimeScale::Short),
    {
        self.trend(TimeScale::Short)
    }

    pub fn medium_trend(&self) -> (r: Option<TrendSignal<N>>)
        ensures
            r == latest_signal(self.state().latest, TimeScale::Medium),
    {
        self.trend(TimeScale::Medium)
    }

    pub fn broad_trend(&self) -> (r: Option<TrendSignal<N>>)
        ensures
            r == latest_signal(self.state().latest, TimeScale::Broad),
    {
        self.trend(TimeScale::Broad)
    }

    // Forecast queries

    /// Short-term forecast for `step_secs`. Returns `None` if this step size is not
    /// one of the configured ones.
    pub fn forecast(&self, step_secs: u32) -> (r: Option<ShortTermForecast<N>>)
        ensures
            forecast_view(r) == latest_forecast(self.state().latest, step_secs),
    {
        broadcast use vstd::std_specs::hash::group_hash_axioms;

        match self.latest() {
            Some(s) => match s.forecasts.get(&step_secs) {
                Some(f) => Some(f.clone()),
                None => None,
            },
            None => None,
        }
    }

    /// 5-second forecast (6 steps = 30 s horizon).
    pub fn forecast_5s(&self) -> (r: Option<ShortTermForecast<N>>)
        ensures
            forecast_view(r) == latest_forecast(self.state().latest, 5),
    {
        self.forecast(5)
    }

    /// 30-second forecast (10 steps = 5 min horizon).
    pub fn forecast_30s(&self) -> (r: Option<ShortTermForecast<N>>)
        ensures
            forecast_view(r) == latest_forecast(self.state().latest, 30),
    {
        self.forecast(30)
    }

    // Point-in-time snapshot

    /// Snapshot closest to and no later than `ts_micros`.
    pub fn at(&self, ts_micros: i64) -> (r: Option<PredictionSnapshot<N>>)
        ensures
            optional_view(r) == as_of(self.state().snapshots, ts_micros),
    {
        self.engine.pred_store().at_or_before(ts_micros)
    }

    // Window projection queries

    /// Project the engine state onto `[start_micros, end_micros]`.
    ///
    /// Assembles an OHLCV bar from the tick ring and attaches the prediction snapshot
    /// as of `end_micros`. No inference is run.
    pub fn window(&self, start_micros: i64, end_micros: i64) -> (r: EngineResult<
        WindowProjection<N>,
    >)
        ensures
            answers_window(self.state(), start_micros, end_micros, r),
    {
        if start_micros > end_micros {
            return Err(EngineError::NoDataInRange { start: start_micros, end: end_micros });
        }
        Ok(self.project(start_micros, end_micros))
    }

    fn project(&self, start: i64, end: i64) -> (r: WindowProjection<N>)
        ensures
            r@ == projection(self.state(), start, end),
    {
        let ticks = self.engine.tick_store().range(start, end);
        let tick_count: usize = ticks.len();
        let ohlcv = ohlcv_from_ticks(ticks.as_slice());
        let prediction = self.engine.pred_store().at_or_before(end);
        WindowProjection { window_start: start, window_end: end, ohlcv, prediction, tick_count }
    }

    /// The `duration_secs` seconds that end at `end_micros`.
    pub fn window_ending_at(&self, end_micros: i64, duration_secs: i64) -> (r: EngineResult<
        WindowProjection<N>,
    >)
        requires
            i64::MIN <= duration_secs * 1_000_000 <= i64::MAX,
            i64::MIN <= end_micros - duration_secs * 1_000_000 <= i64::MAX,
        ensures
            answers_window(
                self.state(),
                (end_micros - duration_secs * 1_000_000) as i64,
                end_micros,
                r,
            ),
    {
        self.window(end_micros - duration_secs * 1_000_000, end_micros)
    }

    /// Last `duration_secs` seconds ending at **wall clock now**.
    pub fn window_ending_now(&self, duration_secs: i64) -> (r: EngineResult<WindowProjection<N>>)
        requires
            CALENDAR_END_MICROS - i64::MAX <= duration_secs * 1_000_000 <= i64::MAX,
        ensures
            exists|now: i64|
                0 <= now <= CALENDAR_END_MICROS && #[trigger] answers_window(
                    self.state(),
                    (now - duration_secs * 1_000_000) as i64,
                    now,
                    r,
                ),
    {
        let end: i64 = utc_now_micros();
        self.window_ending_at(end, duration_secs)
    }

    /// Last `duration_secs` seconds ending at the **latest tick timestamp**.
    ///
    /// Preferred over `window_ending_now` for replayed or delayed streams.
    pub fn window_ending_latest(&self, duration_secs: i64) -> (r: EngineResult<
        WindowProjection<N>,
    >)
        requires
            i64::MIN <= duration_secs * 1_000_000 <= i64::MAX,
            room_before_latest(self.state(), duration_secs as int),
        ensures
            answers_latest(self.state(), duration_secs as int, r),
    {
        match self.engine.tick_store().latest() {
            Some(t) => self.window_ending_at(t.ts_micros, duration_secs),
            None => Err(EngineError::EmptyBuffer),
        }
    }

    // Named windows

    pub fn window_30s(&self) -> (r: EngineResult<WindowProjection<N>>)
        requires
            room_before_latest(self.state(), 30),
        ensures
            answers_latest(self.state(), 30, r),
    {
        self.window_ending_latest(30)
    }

    pub fn window_5m(&self) -> (r: EngineResult<WindowProjection<N>>)
        requires
            room_before_latest(self.state(), 300),
        ensures
            answers_latest(self.state(), 300, r),
    {
        self.window_ending_latest(300)
    }

    pub fn window_1h(&self) -> (r: EngineResult<WindowProjection<N>>)
        requires
            room_before_latest(self.state(), 3_600),
        ensures
            answers_latest(self.state(), 3_600, r),
    {
        self.window_ending_latest(3_600)
    }

    pub fn window_24h(&self) -> (r: EngineResult<WindowProjection<N>>)
        requires
            room_before_latest(self.state(), 86_400),
        ensures
            answers_latest(self.state(), 86_400, r),
    {
        self.window_ending_latest(86_400)
    }

    // Sub-window decomposition

    /// Decompose `[start_micros, end_micros]` into equal sub-windows of `step_secs`
    /// each.
    ///
    /// Returns one [`WindowProjection`] per sub-window, chronological order.
    /// Sub-windows with no ticks have `ohlcv: None`.
    pub fn sub_windows(&self, start_micros: i64, end_micros: i64, step_secs: i64) -> (r:
        EngineResult<Vec<WindowProjection<N>>>)
        requires
            step_secs * 1_000_000 <= i64::MAX,
            end_micros + step_secs * 1_000_000 <= i64::MAX,
        ensures
            answers_slices(
                self.state(),
                start_micros as int,
                end_micros as int,
                step_secs as int,
                r,
            ),
    {
        if step_secs <= 0 {
            return Err(EngineError::Feature("step_secs must be > 0".to_owned()));
        }
        let step: i64 = step_secs * 1_000_000;
        let mut ws: Vec<WindowProjection<N>> = Vec::new();
        let mut t: i64 = start_micros;
        let ghost all = slices(start_micros as int, end_micros as int, step as int);
        assert(all =~= all.take(0) + all);
        while t < end_micros
            invariant
                step > 0,
                end_micros + step <= i64::MAX,
                t < end_micros + step || t == start_micros,
                projects_slices(self.state(), all.take(ws@.len() as int), ws@),
                ws@.len() <= all.len(),
                all == all.take(ws@.len() as int) + slices(t as int, end_micros as int, step as int),
            decreases if t < end_micros { end_micros - t } else { 0 },
        {
            let stop: i64 = if t + step < end_micros {
                t + step
            } else {
                end_micros
            };
            let w = self.project(t, stop);
            let ghost done = ws@.len() as int;
            let ghost before = ws@;
            ws.push(w);
            proof {
                let rest = slices(t as int, end_micros as int, step as int);
                let later = slices(t + step, end_micros as int, step as int);
                assert(rest =~= seq![(t as int, stop as int)] + later);
                assert(all[done] == rest[0]);
                assert(all.take(done + 1) =~= all.take(done).push((t as int, stop as int)));
                assert(all =~= all.take(done + 1) + later);
            }
            t += step;
        }
        assert(slices(t as int, end_micros as int, step as int).len() == 0);
        assert(all.take(ws@.len() as int) =~= all);
        Ok(ws)
    }

    fn sub_windows_before_latest(&self, step_secs: i64) -> (r: EngineResult<
        Vec<WindowProjection<N>>,
    >)
        requires
            0 < step_secs <= 300,
            room_before_latest(self.state(), 300),
            room_after_latest(self.state(), step_secs as int),
        ensures
            answers_latest_slices(self.state(), step_secs as int, r),
    {
        match self.engine.tick_store().latest() {
            Some(t) => {
                let end: i64 = t.ts_micros;
                self.sub_windows(end - 300 * 1_000_000, end, step_secs)
            },
            None => Err(EngineError::EmptyBuffer),
        }
    }

    /// 5-min window decomposed into 5-second sub-windows (60 slices).
    pub fn sub_windows_5s_in_5m(&self) -> (r: EngineResult<Vec<WindowProjection<N>>>)
        requires
            room_before_latest(self.state(), 300),
            room_after_latest(self.state(), 5),
        ensures
            answers_latest_slices(self.state(), 5, r),
            r matches Ok(ws) ==> ws@.len() == 60,
    {
        let r = self.sub_windows_before_latest(5);
        proof {
            if self.state().ticks.len() > 0 {
                let end = self.state().ticks.last().ts_micros;
                slices_are_as_many_as_steps(end - 300_000_000, 60, 5_000_000);
            }
        }
        r
    }

    /// 5-min window decomposed into 30-second sub-windows (10 slices).
    pub fn sub_windows_30s_in_5m(&self) -> (r: EngineResult<Vec<WindowProjection<N>>>)
        requires
            room_before_latest(self.state(), 300),
            room_after_latest(self.state(), 30),
        ensures
            answers_latest_slices(self.state(), 30, r),
            r matches Ok(ws) ==> ws@.len() == 10,
    {
        let r = self.sub_windows_before_latest(30);
        proof {
            if self.state().ticks.len() > 0 {
                let end = self.state().ticks.last().ts_micros;
                slices_are_as_many_as_steps(end - 300_000_000, 10, 30_000_000);
            }
        }
        r
    }

    // Aggregate trend

    /// Weighted-vote aggregate trend over a time range.
    pub fn aggregate_trend(&self, start: i64, end: i64) -> (r: Option<(TrendDirection, N)>)
        ensures
            r == trend_of(self.state().snapshots.filter(snapshot_between(start, end))),
    {
        self.engine.pred_store().aggregate_trend(start, end)
    }

    /// Aggregate trend for the last `secs` seconds before the latest tick.
    pub fn aggregate_trend_last(&self, secs: i64) -> (r: Option<(TrendDirection, N)>)
        requires
            i64::MIN <= secs * 1_000_000 <= i64::MAX,
            room_before_latest(self.state(), secs as int),
        ensures
            r == (if self.state().ticks.len() == 0 {
                None
            } else {
                let end = self.state().ticks.last().ts_micros;
                trend_of(
                    self.state().snapshots.filter(
                        snapshot_between((end - secs * 1_000_000) as i64, end),
                    ),
                )
            }),
    {
        match self.engine.tick_store().latest() {
            Some(t) => {
                let end: i64 = t.ts_micros;
                self.aggregate_trend(end - secs * 1_000_000, end)
            },
            None => None,
        }
    }

    // Diagnostics

    pub fn tick_count(&self) -> (r: usize)
        ensures
            r == self.state().ticks.len(),
    {
        self.engine.tick_count()
    }

    pub fn prediction_count(&self) -> (r: usize)
        ensures
            r == self.state().snapshots.len(),
    {
        self.engine.prediction_count()
    }

    pub fn connected_feeds(&self) -> (r: u32)
        ensures
            r == self.state().health.healthy_count(),
    {
        self.engine.connected_feeds()
    }
}

/// The latest tick leaves room for a window of so many seconds after it.
pub open spec fn room_after_latest<N: Number>(engine: EngineView<N>, secs: int) -> bool {
    engine.ticks.len() > 0 ==> engine.ticks.last().ts_micros + secs * 1_000_000 <= i64::MAX
}

/// `r` answers a query for the sub-windows of the five minutes before the latest tick.
pub open spec fn answers_latest_slices<N: Number>(
    engine: EngineView<N>,
    step_secs: int,
    r: EngineResult<Vec<WindowProjection<N>>>,
) -> bool {
    if engine.ticks.len() == 0 {
        r matches Err(e) && e is EmptyBuffer
    } else {
        let end = engine.ticks.last().ts_micros;
        answers_slices(engine, end - 300_000_000, end as int, step_secs, r)
    }
}

} // verus!
