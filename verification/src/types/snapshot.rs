//! What the engine publishes: forecasts, metrics, predictions and projections.

use vstd::prelude::*;
use crate::number::Number;
use crate::types::{Exchange, Ohlcv, TrendDirection, TrendSignal};
use std::collections::HashMap;

verus! {

// ---------------------------------------------------------------------------
// Short-term forecast
// ---------------------------------------------------------------------------
#[derive(Debug)]
pub struct ShortTermForecast<N> {
    /// Step size in seconds (e.g. 5 or 30).
    pub step_secs: u32,
    /// Price change for each future step (USD). `deltas[0]` = next step.
    pub deltas: Vec<N>,
    /// Per-step confidence, same length as `deltas`.
    pub confidence: Vec<N>,
    pub generated_at: i64,
}

/// What a [`ShortTermForecast`] says.
#[verifier::ext_equal]
pub struct ForecastView<N> {
    pub step_secs: u32,
    pub deltas: Seq<N>,
    pub confidence: Seq<N>,
    pub generated_at: i64,
}

impl<N: Number> View for ShortTermForecast<N> {
    type V = ForecastView<N>;

    open spec fn view(&self) -> ForecastView<N> {
        ForecastView {
            step_secs: self.step_secs,
            deltas: self.deltas@,
            confidence: self.confidence@,
            generated_at: self.generated_at,
        }
    }
}

fn copied<N: Number>(numbers: &Vec<N>) -> (r: Vec<N>)
    ensures
        r@ == numbers@,
{
    let mut out: Vec<N> = Vec::new();
    let mut i: usize = 0;
    while i < numbers.len()
        invariant
            i <= numbers.len(),
            out@ == numbers@.take(i as int),
        decreases numbers.len() - i,
    {
        out.push(numbers[i]);
        i += 1;
        assert(out@ =~= numbers@.take(i as int));
    }
    assert(numbers@.take(numbers@.len() as int) =~= numbers@);
    out
}

impl<N: Number> Clone for ShortTermForecast<N> {
    fn clone(&self) -> (r: Self)
        ensures
            r@ == self@,
    {
        ShortTermForecast {
            step_secs: self.step_secs,
            deltas: copied(&self.deltas),
            confidence: copied(&self.confidence),
            generated_at: self.generated_at,
        }
    }
}

// ---------------------------------------------------------------------------
// Metrics
// ---------------------------------------------------------------------------
/// Additional computed metrics included in each snapshot.
#[derive(Debug, Clone, Copy)]
pub struct EngineMetrics<N> {
    /// Ticks received per second (10-second rolling average).
    pub tick_rate: N,
    /// Ticks deduplicated in the last second.
    pub dedup_rate: N,
    /// Ticks rejected by the outlier filter in the last second.
    pub outlier_rate: N,
    /// Number of feeds currently connected.
    pub connected_feeds: u32,
    /// Cross-exchange price spread (max - min of last tick per exchange) in USD.
    pub cross_exchange_spread: N,
}

// ---------------------------------------------------------------------------
// Prediction snapshot
// ---------------------------------------------------------------------------
/// The built-in signals, present whether or not a trained model is loaded.
#[derive(Debug, Clone, Copy)]
pub struct HeuristicSnapshot<N> {
    pub micro: TrendSignal<N>,
    pub short: TrendSignal<N>,
    pub medium: TrendSignal<N>,
    pub broad: TrendSignal<N>,
    pub fused_direction: TrendDirection,
    pub fused_confidence: N,
}

/// Complete prediction state at a single tick.
#[derive(Debug)]
pub struct PredictionSnapshot<N> {
    pub snapshot_at: i64,
    /// Latest BTC/USD price at snapshot time.
    pub price: N,
    /// Primary signals: from the trained model when one is loaded, built-in otherwise.
    pub micro: TrendSignal<N>,
    pub short: TrendSignal<N>,
    pub medium: TrendSignal<N>,
    pub broad: TrendSignal<N>,
    /// Short-term forecasts keyed by step_secs.
    pub forecasts: HashMap<u32, ShortTermForecast<N>>,
    pub fused_direction: TrendDirection,
    pub fused_confidence: N,
    pub metrics: EngineMetrics<N>,
    /// Built-in baseline, always populated.
    pub heuristic: HeuristicSnapshot<N>,
    /// Do the primary signals come from a trained model?
    pub model_active: bool,
}

/// What a [`PredictionSnapshot`] says.
#[verifier::ext_equal]
pub struct SnapshotView<N> {
    pub snapshot_at: i64,
    pub price: N,
    pub micro: TrendSignal<N>,
    pub short: TrendSignal<N>,
    pub medium: TrendSignal<N>,
    pub broad: TrendSignal<N>,
    pub forecasts: Map<u32, ForecastView<N>>,
    pub fused_direction: TrendDirection,
    pub fused_confidence: N,
    pub metrics: EngineMetrics<N>,
    pub heuristic: HeuristicSnapshot<N>,
    pub model_active: bool,
}

/// What a table of forecasts says.
pub open spec fn forecast_views<N: Number>(forecasts: Map<u32, ShortTermForecast<N>>) -> Map<
    u32,
    ForecastView<N>,
> {
    forecasts.map_values(|f: ShortTermForecast<N>| f@)
}

impl<N: Number> View for PredictionSnapshot<N> {
    type V = SnapshotView<N>;

    open spec fn view(&self) -> SnapshotView<N> {
        SnapshotView {
            snapshot_at: self.snapshot_at,
            price: self.price,
            micro: self.micro,
            short: self.short,
            medium: self.medium,
            broad: self.broad,
            forecasts: forecast_views(self.forecasts@),
            fused_direction: self.fused_direction,
            fused_confidence: self.fused_confidence,
            metrics: self.metrics,
            heuristic: self.heuristic,
            model_active: self.model_active,
        }
    }
}

impl<N: Number> Clone for PredictionSnapshot<N> {
    fn clone(&self) -> (r: Self)
        ensures
            r@ == self@,
    {
        PredictionSnapshot {
            snapshot_at: self.snapshot_at,
            price: self.price,
            micro: self.micro,
            short: self.short,
            medium: self.medium,
            broad: self.broad,
            forecasts: self.forecasts.clone(),
            fused_direction: self.fused_direction,
            fused_confidence: self.fused_confidence,
            metrics: self.metrics,
            heuristic: self.heuristic,
            model_active: self.model_active,
        }
    }
}

// ---------------------------------------------------------------------------
// Window projection
// ---------------------------------------------------------------------------
/// On-demand projection of global state onto a caller-specified time range.
#[derive(Debug)]
pub struct WindowProjection<N> {
    pub window_start: i64,
    pub window_end: i64,
    pub ohlcv: Option<Ohlcv<N>>,
    pub prediction: Option<PredictionSnapshot<N>>,
    pub tick_count: usize,
}

/// What a [`WindowProjection`] says.
#[verifier::ext_equal]
pub struct ProjectionView<N> {
    pub window_start: i64,
    pub window_end: i64,
    pub ohlcv: Option<Ohlcv<N>>,
    pub prediction: Option<SnapshotView<N>>,
    pub tick_count: nat,
}

/// What an optional snapshot says.
pub open spec fn optional_view<N: Number>(snapshot: Option<PredictionSnapshot<N>>) -> Option<
    SnapshotView<N>,
> {
    match snapshot {
        Some(s) => Some(s@),
        None => None,
    }
}

impl<N: Number> View for WindowProjection<N> {
    type V = ProjectionView<N>;

    open spec fn view(&self) -> ProjectionView<N> {
        ProjectionView {
            window_start: self.window_start,
            window_end: self.window_end,
            ohlcv: self.ohlcv,
            prediction: optional_view(self.prediction),
            tick_count: self.tick_count as nat,
        }
    }
}

// ---------------------------------------------------------------------------
// Feed health
// ---------------------------------------------------------------------------
/// Health state of a single exchange feed.
#[derive(Debug, Clone, Copy, PartialEq, Eq, Structural)]
pub enum FeedHealth {
    /// Connected and receiving ticks.
    Healthy,
    /// Connected but no ticks received in the last 10 s.
    Stale,
    /// Reconnecting after a disconnect.
    Reconnecting { attempt: u32 },
    /// Feed has exceeded max reconnect attempts.
    Dead,
}

// ---------------------------------------------------------------------------
// Errors
// ---------------------------------------------------------------------------
/// What can go wrong. Errors of other libraries are carried as their text.
#[derive(Debug)]
pub enum EngineError {
    WebSocket { exchange: Exchange, source: String },
    Parse { exchange: Exchange, source: String },
    Auth { exchange: Exchange, detail: String },
    /// No ticks received yet.
    EmptyBuffer,
    NoDataInRange { start: i64, end: i64 },
    Feature(String),
    Model(String),
    Snapshot(String),
    Other(String),
}

pub type EngineResult<T> = Result<T, EngineError>;

} // verus!
