//! The stages of the hot path.
//!
//! ```text
//! feeds
//!   -> [Stage 1  ] dedup + outlier filter   drops duplicates and spikes
//!   -> [Stage 1.5] price fuser              NTP drift correction + 100 ms VWAP fusion
//!   -> [Stage 2  ] feature engineering      updates the feature state
//!   -> [Stage 3  ] model inference          runs all models
//!   -> [Stage 4  ] fanout                   stores and publishes the snapshot
//! ```
//!
//! Each stage is a value with a step function, so that it can run as a task of its
//! own; [`Pipeline`] runs them one after the other for replays. The volatility per tick
//! that the second stage reads goes back to the first one's outlier filter. The clocks are
//! arguments: a wall clock in microseconds and a monotonic clock in nanoseconds.

use vstd::prelude::*;
use crate::bounds::{has_bounds, is_analytic};
use crate::confidence::{
    averages_count, blended_confidence_is_a_number, fused_confidence_is_a_number,
    heuristic_confidence_is_a_number, is_definite, is_measured, signals_are_definite,
    trend_confidences_are_numbers,
};
use crate::dedup::{repeats, same_trade, FilterConfig, FilterView, TickFilter, Verdict};
use crate::engine::{EngineView, PredictionEngine};
use crate::features::activity::{event_rate, rate_in};
use crate::features::state::{advanced, book_taken, describes, is_unseeded, FeatureView};
use crate::features::{FeatureState, FeatureVector};
use crate::models::{
    blend, blended, extrapolates, fused_confidence_in_range, fused_signal, heuristic_signal,
    is_confidence, or_default, trends_advanced,
    ForecastModelExt, HeuristicDirectionClassifier, MomentumExtrapolator, MultiScaleTrendModel,
    MultiScaleView, SignalFuser, TrendModelExt,
};
use crate::number::{is_between, is_ordered, settles, Analytic, Number};
use crate::price_fusion::{
    bucket_centre, bucket_of, distant_times_have_different_buckets, emits, fuses, has_sampled,
    offset_sample, open_ticks, representable, routed, steady_offset_stays, timed_out, BucketView,
    FusedTick, FusionConfig, PriceFuser,
};
use crate::types::snapshot::SnapshotView;
use crate::types::{
    BookSnapshot, EngineMetrics, Exchange, FeedHealth, HeuristicSnapshot, PerExchange, PredictionSnapshot,
    ShortTermForecast, Tick, TimeScale, TrendSignal,
};
use crate::window::{drop_stale, eviction_drops_the_stale_front, fresh_suffix, stale_prefix};
use std::collections::{HashMap, VecDeque};

verus! {

// ---------------------------------------------------------------------------
// Channel capacities
// ---------------------------------------------------------------------------
/// Raw ticks from all feeds to the dedup stage.
pub const RAW_CHANNEL_CAP: usize = 65_536;

/// Clean ticks (post-dedup) to the price fusion stage.
pub const CLEAN_CHANNEL_CAP: usize = 32_768;

/// Fused ticks (post-fusion) to the feature stage.
pub const FUSED_CHANNEL_CAP: usize = 16_384;

/// Feature vectors to the model stage.
pub const FEAT_CHANNEL_CAP: usize = 8_192;

/// Snapshots to the fanout stage.
pub const SNAP_CHANNEL_CAP: usize = 4_096;

// ---------------------------------------------------------------------------
// Pipeline configuration
// ---------------------------------------------------------------------------
#[derive(Debug)]
pub struct PipelineConfig<N> {
    pub filter: FilterConfig<N>,
    /// Price fusion configuration (NTP correction + 100 ms bucket VWAP).
    pub fusion: FusionConfig<N>,
    /// Step size in seconds and number of steps of each forecast.
    pub forecast_steps: Vec<(u32, usize)>,
    /// How many snapshots a slow subscriber may fall behind.
    pub broadcast_cap: usize,
}

impl<N: Number> PipelineConfig<N> {
    /// The default configuration: default stages, a 30 s forecast in steps of 5 s and
    /// a 5 min one in steps of 30 s.
    pub open spec fn is_default(self) -> bool {
        &&& self.filter == FilterConfig::<N>::standard()
        &&& self.fusion == FusionConfig::<N>::standard()
        &&& self.forecast_steps@ == seq![(5u32, 6usize), (30u32, 10usize)]
        &&& self.broadcast_cap == 4_096
    }
}

impl<N: Number> Default for PipelineConfig<N> {
    fn default() -> (r: Self)
        ensures
            r.is_default(),
    {
        let forecast_steps: Vec<(u32, usize)> = vec![(5, 6), (30, 10)];
        assert(forecast_steps@ =~= seq![(5u32, 6usize), (30u32, 10usize)]);
        PipelineConfig {
            filter: FilterConfig::default(),
            fusion: FusionConfig::default(),
            forecast_steps,
            broadcast_cap: 4_096,
        }
    }
}

// ---------------------------------------------------------------------------
// Per-feed health tracker
// ---------------------------------------------------------------------------
/// How long a feed may be silent, in nanoseconds.
pub const STALE_AFTER_NANOS: i64 = 10_000_000_000;

/// The health of one feed, and when it last delivered a tick.
#[derive(Debug, Clone, Copy)]
pub struct FeedState {
    pub health: FeedHealth,
    pub last_tick_at: i64,
}

/// The health of every feed that has been heard of.
#[derive(Debug, Clone, Copy)]
pub struct FeedHealthTracker {
    feeds: PerExchange<FeedState>,
}

/// A feed's state after a sweep: healthy feeds that have been silent too long are
/// stale.
pub open spec fn swept_state(state: Option<FeedState>, now: i64) -> Option<FeedState> {
    match state {
        Some(s) => if s.health is Healthy && now - s.last_tick_at > STALE_AFTER_NANOS {
            Some(FeedState { health: FeedHealth::Stale, ..s })
        } else {
            Some(s)
        },
        None => None,
    }
}

/// 1 for a healthy feed, 0 otherwise.
pub open spec fn one_if_healthy(state: Option<FeedState>) -> int {
    match state {
        Some(s) => if s.health is Healthy { 1 } else { 0 },
        None => 0,
    }
}

impl FeedHealthTracker {
    /// The state of a feed.
    pub closed spec fn state(self, exchange: Exchange) -> Option<FeedState> {
        self.feeds.entry(exchange)
    }

    /// No feed has been heard of.
    pub open spec fn is_new(self) -> bool {
        forall|e: Exchange| #[trigger] self.state(e) is None
    }

    /// `after` has seen a tick of one exchange.
    pub open spec fn recorded(self, exchange: Exchange, now: i64, after: Self) -> bool {
        &&& after.state(exchange) == Some(
            FeedState { health: FeedHealth::Healthy, last_tick_at: now },
        )
        &&& forall|e: Exchange| e != exchange ==> #[trigger] after.state(e) == self.state(e)
    }

    /// `after` is what a sweep leaves.
    pub open spec fn swept(self, now: i64, after: Self) -> bool {
        forall|e: Exchange| #[trigger] after.state(e) == swept_state(self.state(e), now)
    }

    /// How many feeds are healthy.
    pub open spec fn healthy_count(self) -> int {
        one_if_healthy(self.state(Exchange::Binance)) + one_if_healthy(
            self.state(Exchange::Coinbase),
        ) + one_if_healthy(self.state(Exchange::Kraken)) + one_if_healthy(
            self.state(Exchange::Bitstamp),
        )
    }

    pub fn new() -> (r: Self)
        ensures
            r.is_new(),
    {
        FeedHealthTracker { feeds: PerExchange::new() }
    }

    /// Notes a tick: its feed is healthy.
    pub fn record_tick(&mut self, exchange: Exchange, now: i64)
        ensures
            old(self).recorded(exchange, now, *final(self)),
    {
        self.feeds.insert(exchange, FeedState { health: FeedHealth::Healthy, last_tick_at: now });
    }

    fn is_healthy(&self, exchange: Exchange) -> (r: u32)
        ensures
            r == one_if_healthy(self.state(exchange)),
            r <= 1,
    {
        match self.feeds.get(exchange) {
            Some(s) => match s.health {
                FeedHealth::Healthy => 1,
                _ => 0,
            },
            None => 0,
        }
    }

    /// How many feeds are healthy.
    pub fn connected_count(&self) -> (r: u32)
        ensures
            r == self.healthy_count(),
    {
        self.is_healthy(Exchange::Binance) + self.is_healthy(Exchange::Coinbase) + self.is_healthy(
            Exchange::Kraken,
        ) + self.is_healthy(Exchange::Bitstamp)
    }

    fn sweep(&mut self, exchange: Exchange, now: i64)
        ensures
            final(self).state(exchange) == swept_state(old(self).state(exchange), now),
            forall|e: Exchange| e != exchange ==> #[trigger] final(self).state(e) == old(self).state(e),
    {
        if let Some(s) = self.feeds.get(exchange) {
            let silent: i128 = now as i128 - s.last_tick_at as i128;
            if let FeedHealth::Healthy = s.health {
                if silent > STALE_AFTER_NANOS as i128 {
                    self.feeds.insert(
                        exchange,
                        FeedState { health: FeedHealth::Stale, last_tick_at: s.last_tick_at },
                    );
                }
            }
        }
    }

    /// Sweep stale feeds: called periodically by the fanout stage.
    pub fn sweep_stale(&mut self, now: i64)
        ensures
            old(self).swept(now, *final(self)),
    {
        self.sweep(Exchange::Binance, now);
        self.sweep(Exchange::Coinbase, now);
        self.sweep(Exchange::Kraken, now);
        self.sweep(Exchange::Bitstamp, now);
    }
}

/// A sweep never adds to the healthy feeds, and a feed that has just delivered a tick
/// survives it.
pub proof fn sweep_only_lowers_the_count(
    before: FeedHealthTracker,
    now: i64,
    after: FeedHealthTracker,
    exchange: Exchange,
)
    requires
        before.swept(now, after),
    ensures
        after.healthy_count() <= before.healthy_count(),
        before.state(exchange) == Some(
            FeedState { health: FeedHealth::Healthy, last_tick_at: now },
        ) ==> after.state(exchange) == before.state(exchange),
{
    assert(after.state(Exchange::Binance) == swept_state(before.state(Exchange::Binance), now));
    assert(after.state(Exchange::Coinbase) == swept_state(before.state(Exchange::Coinbase), now));
    assert(after.state(Exchange::Kraken) == swept_state(before.state(Exchange::Kraken), now));
    assert(after.state(Exchange::Bitstamp) == swept_state(before.state(Exchange::Bitstamp), now));
}

// ---------------------------------------------------------------------------
// Metrics accumulator
// ---------------------------------------------------------------------------
/// Nanoseconds in the tick-rate window.
pub const RATE_WINDOW_NANOS: i64 = 10_000_000_000;

/// Nanoseconds between two resets of the counters.
pub const RESET_NANOS: i64 = 1_000_000_000;

/// What a [`MetricsAcc`] has counted.
#[verifier::ext_equal]
pub struct MetricsView {
    /// When the ticks of the last ten seconds came in.
    pub stamps: Seq<i64>,
    pub dedup_last_sec: u64,
    pub outlier_last_sec: u64,
    pub dedup_acc: u64,
    pub outlier_acc: u64,
    pub last_reset: i64,
}

impl MetricsView {
    /// Nothing counted yet.
    pub open spec fn start(now: i64) -> Self {
        MetricsView {
            stamps: Seq::empty(),
            dedup_last_sec: 0,
            outlier_last_sec: 0,
            dedup_acc: 0,
            outlier_acc: 0,
            last_reset: now,
        }
    }

    /// After a tick.
    pub open spec fn ticked(self, now: i64) -> Self {
        MetricsView { stamps: fresh_suffix(self.stamps.push(now), now - RATE_WINDOW_NANOS), ..self }
    }

    /// Once a second has passed, the counts become those of the last second.
    pub open spec fn flushed(self, now: i64) -> Self {
        if now - self.last_reset >= RESET_NANOS {
            MetricsView {
                dedup_last_sec: self.dedup_acc,
                outlier_last_sec: self.outlier_acc,
                dedup_acc: 0,
                outlier_acc: 0,
                last_reset: now,
                ..self
            }
        } else {
            self
        }
    }

    /// After the filter's verdict on a tick.
    pub open spec fn counted(self, verdict: Verdict, now: i64) -> Self {
        match verdict {
            Verdict::Accepted => self.ticked(now),
            Verdict::Duplicate => MetricsView { dedup_acc: (self.dedup_acc + 1) as u64, ..self },
            Verdict::Outlier => MetricsView { outlier_acc: (self.outlier_acc + 1) as u64, ..self },
        }
    }
}

/// Counts what the filter lets through and what it drops.
#[derive(Debug)]
pub struct MetricsAcc {
    tick_timestamps: VecDeque<i64>,
    dedup_last_sec: u64,
    outlier_last_sec: u64,
    dedup_acc: u64,
    outlier_acc: u64,
    last_reset: i64,
}

/// Tick, dedup and outlier rates.
#[derive(Debug, Clone, Copy)]
pub struct Rates<N> {
    pub tick_rate: N,
    pub dedup_rate: N,
    pub outlier_rate: N,
}

/// The rates that some counts give.
pub open spec fn rates_of<N: Number>(m: MetricsView) -> Rates<N> {
    Rates {
        tick_rate: event_rate(m.stamps, 1_000_000_000),
        dedup_rate: N::of_int(m.dedup_last_sec as int),
        outlier_rate: N::of_int(m.outlier_last_sec as int),
    }
}

impl View for MetricsAcc {
    type V = MetricsView;

    closed spec fn view(&self) -> MetricsView {
        MetricsView {
            stamps: self.tick_timestamps@,
            dedup_last_sec: self.dedup_last_sec,
            outlier_last_sec: self.outlier_last_sec,
            dedup_acc: self.dedup_acc,
            outlier_acc: self.outlier_acc,
            last_reset: self.last_reset,
        }
    }
}

impl MetricsAcc {
    pub fn new(now: i64) -> (r: Self)
        ensures
            r@ == MetricsView::start(now),
    {
        MetricsAcc {
            tick_timestamps: VecDeque::new(),
            dedup_last_sec: 0,
            outlier_last_sec: 0,
            dedup_acc: 0,
            outlier_acc: 0,
            last_reset: now,
        }
    }

    pub fn record_tick(&mut self, now: i64)
        requires
            now >= i64::MIN + RATE_WINDOW_NANOS,
        ensures
            final(self)@ == old(self)@.ticked(now),
    {
        self.tick_timestamps.push_back(now);
        drop_stale(&mut self.tick_timestamps, now - RATE_WINDOW_NANOS);
    }

    pub fn record_dedup(&mut self)
        requires
            old(self)@.dedup_acc < u64::MAX,
        ensures
            final(self)@ == (MetricsView {
                dedup_acc: (old(self)@.dedup_acc + 1) as u64,
                ..old(self)@
            }),
    {
        self.dedup_acc += 1;
    }

    pub fn record_outlier(&mut self)
        requires
            old(self)@.outlier_acc < u64::MAX,
        ensures
            final(self)@ == (MetricsView {
                outlier_acc: (old(self)@.outlier_acc + 1) as u64,
                ..old(self)@
            }),
    {
        self.outlier_acc += 1;
    }

    pub fn flush_if_needed(&mut self, now: i64)
        ensures
            final(self)@ == old(self)@.flushed(now),
    {
        if now as i128 - self.last_reset as i128 >= RESET_NANOS as i128 {
            self.dedup_last_sec = self.dedup_acc;
            self.outlier_last_sec = self.outlier_acc;
            self.dedup_acc = 0;
            self.outlier_acc = 0;
            self.last_reset = now;
        }
    }

    /// Ticks per second over the last ten seconds.
    pub fn tick_rate<N: Number>(&self) -> (r: N)
        ensures
            r == event_rate::<N>(self@.stamps, 1_000_000_000),
    {
        rate_in(&self.tick_timestamps, 1_000_000_000)
    }

    /// The rates that a snapshot carries.
    pub fn rates<N: Number>(&self) -> (r: Rates<N>)
        ensures
            r == rates_of::<N>(self@),
    {
        Rates {
            tick_rate: self.tick_rate(),
            dedup_rate: N::from_int(self.dedup_last_sec as i128),
            outlier_rate: N::from_int(self.outlier_last_sec as i128),
        }
    }
}

// ---------------------------------------------------------------------------
// Stage 1: dedup + outlier filter
// ---------------------------------------------------------------------------
/// The first stage: the filter and the counts of its verdicts.
#[derive(Debug)]
pub struct DedupStage<N> {
    pub filter: TickFilter<N>,
    pub metrics: MetricsAcc,
}

impl<N: Number> DedupStage<N> {
    /// The stage can take a tick: nothing it computes leaves the range of its type.
    pub open spec fn ready_for(self, tick: Tick<N>, now: i64) -> bool {
        &&& i64::MIN <= tick.ts_micros - self.filter@.config.dedup_window_micros <= i64::MAX
        &&& now >= i64::MIN + RATE_WINDOW_NANOS
        &&& self.filter@.dedup_count < u64::MAX
        &&& self.filter@.outlier_count < u64::MAX
        &&& self.metrics@.dedup_acc < u64::MAX
        &&& self.metrics@.outlier_acc < u64::MAX
    }

    pub fn new(config: FilterConfig<N>, now: i64) -> (r: Self)
        ensures
            r.filter@ == FilterView::start(config),
            r.metrics@ == MetricsView::start(now),
    {
        DedupStage { filter: TickFilter::new(config), metrics: MetricsAcc::new(now) }
    }

    /// Judges a tick and counts the verdict.
    pub fn step(&mut self, tick: &Tick<N>, now: i64) -> (r: Verdict)
        requires
            old(self).ready_for(*tick, now),
        ensures
            r == old(self).filter@.verdict(*tick),
            final(self).filter@ == old(self).filter@.after(*tick),
            final(self).metrics@ == old(self).metrics@.flushed(now).counted(r, now),
    {
        self.metrics.flush_if_needed(now);
        let verdict = self.filter.judge(tick);
        match verdict {
            Verdict::Accepted => self.metrics.record_tick(now),
            Verdict::Duplicate => self.metrics.record_dedup(),
            Verdict::Outlier => self.metrics.record_outlier(),
        }
        verdict
    }
}

// ---------------------------------------------------------------------------
// Stage 3: model inference
// ---------------------------------------------------------------------------
/// `r` is the forecast for one step size: the plugged-in model's where there is one,
/// the built-in extrapolation otherwise.
pub open spec fn is_forecast<N: Analytic, F: ForecastModelExt<N>>(
    model: Option<F>,
    f: FeatureVector<N>,
    step: (u32, usize),
    r: ShortTermForecast<N>,
) -> bool {
    match model {
        Some(m) => call_ensures(F::forecast, (&m, &f, step.0, step.1), r),
        None => exists|root: N| #[trigger] extrapolates(f, step.0, step.1, root, r),
    }
}

/// `table` holds a forecast for each step size that is asked for, and no other; where
/// a step size is asked for twice, the last one counts.
pub open spec fn are_forecasts<N: Analytic, F: ForecastModelExt<N>>(
    model: Option<F>,
    f: FeatureVector<N>,
    steps: Seq<(u32, usize)>,
    table: Map<u32, ShortTermForecast<N>>,
) -> bool {
    &&& forall|k: u32| #[trigger]
        table.contains_key(k) <==> exists|i: int| 0 <= i < steps.len() && (#[trigger] steps[i]).0 == k
    &&& forall|i: int|
        0 <= i < steps.len() && (forall|j: int|
            i < j < steps.len() ==> (#[trigger] steps[j]).0 != steps[i].0) ==> is_forecast(
            model,
            f,
            #[trigger] steps[i],
            table[steps[i].0],
        )
}

/// The built-in signals, given those of the moving averages: the short scale is
/// blended with the direction classifier, 60 to 40.
pub open spec fn baseline_signals<N: Number>(
    averages: Seq<TrendSignal<N>>,
    f: FeatureVector<N>,
) -> Seq<TrendSignal<N>> {
    seq![
        averages[0],
        blended(averages[1], heuristic_signal(f, TimeScale::Short), N::of_ratio(6, 10)),
        averages[2],
        averages[3],
    ]
}

/// `primary` are the signals of the plugged-in model where there is one, the built-in
/// ones otherwise.
pub open spec fn are_primary<N: Number, T: TrendModelExt<N>>(
    model: Option<T>,
    f: FeatureVector<N>,
    baseline: Seq<TrendSignal<N>>,
    primary: Seq<TrendSignal<N>>,
) -> bool {
    match model {
        Some(m) => {
            &&& primary.len() == 4
            &&& call_ensures(T::predict, (&m, &f, TimeScale::Micro), primary[0])
            &&& call_ensures(T::predict, (&m, &f, TimeScale::Short), primary[1])
            &&& call_ensures(T::predict, (&m, &f, TimeScale::Medium), primary[2])
            &&& call_ensures(T::predict, (&m, &f, TimeScale::Broad), primary[3])
        },
        None => primary == baseline,
    }
}

/// The primary signals of a snapshot.
pub open spec fn primary_of<N>(s: PredictionSnapshot<N>) -> Seq<TrendSignal<N>> {
    seq![s.micro, s.short, s.medium, s.broad]
}

/// The built-in signals of a snapshot.
pub open spec fn baseline_of<N>(s: PredictionSnapshot<N>) -> Seq<TrendSignal<N>> {
    seq![s.heuristic.micro, s.heuristic.short, s.heuristic.medium, s.heuristic.broad]
}

/// `s` is the snapshot of a feature vector, `averages` being the signals of the moving
/// averages.
pub open spec fn predicts<N: Analytic, T: TrendModelExt<N>, F: ForecastModelExt<N>>(
    f: FeatureVector<N>,
    averages: Seq<TrendSignal<N>>,
    steps: Seq<(u32, usize)>,
    trend: Option<T>,
    forecast: Option<F>,
    connected: u32,
    s: PredictionSnapshot<N>,
) -> bool {
    let zero = N::of_int(0);
    &&& s.snapshot_at == f.ts_micros
    &&& s.price == f.price
    &&& baseline_of(s) == baseline_signals(averages, f)
    &&& (s.heuristic.fused_direction, s.heuristic.fused_confidence) == fused_signal(baseline_of(s))
    &&& are_primary(trend, f, baseline_of(s), primary_of(s))
    &&& (s.fused_direction, s.fused_confidence) == fused_signal(primary_of(s))
    &&& s.model_active == (trend is Some)
    &&& are_forecasts(forecast, f, steps, s.forecasts@)
    &&& s.metrics == (EngineMetrics {
        tick_rate: zero,
        dedup_rate: zero,
        outlier_rate: zero,
        connected_feeds: connected,
        cross_exchange_spread: f.inter_exchange_spread,
    })
}

/// Without a trained model, the primary signals and the built-in baseline are
/// identical.
pub proof fn baseline_is_primary_without_a_model<
    N: Analytic,
    T: TrendModelExt<N>,
    F: ForecastModelExt<N>,
>(
    f: FeatureVector<N>,
    averages: Seq<TrendSignal<N>>,
    steps: Seq<(u32, usize)>,
    trend: Option<T>,
    forecast: Option<F>,
    connected: u32,
    s: PredictionSnapshot<N>,
)
    requires
        predicts(f, averages, steps, trend, forecast, connected, s),
        !s.model_active,
    ensures
        s.micro == s.heuristic.micro,
        s.short == s.heuristic.short,
        s.medium == s.heuristic.medium,
        s.broad == s.heuristic.broad,
        s.fused_direction == s.heuristic.fused_direction,
        s.fused_confidence == s.heuristic.fused_confidence,
{
    let (p, b) = (primary_of(s), baseline_of(s));
    assert(p[0] == b[0] && p[1] == b[1] && p[2] == b[2] && p[3] == b[3]);
}

/// The third stage: the moving averages and the forecasts to make.
#[derive(Debug)]
pub struct ModelStage<N> {
    trend: MultiScaleTrendModel<N>,
    forecast_steps: Vec<(u32, usize)>,
}

impl<N: Analytic> ModelStage<N> {
    /// The moving averages.
    pub closed spec fn averages(self) -> MultiScaleView<N> {
        self.trend@
    }

    /// Step size in seconds and number of steps of each forecast.
    pub closed spec fn steps(self) -> Seq<(u32, usize)> {
        self.forecast_steps@
    }

    /// The moving averages run over their periods.
    pub closed spec fn wf(self) -> bool {
        self.trend.wf()
    }

    pub fn new(forecast_steps: Vec<(u32, usize)>) -> (r: Self)
        ensures
            r.wf(),
            r.steps() == forecast_steps@,
            r.averages() == MultiScaleView::<N>::start(),
    {
        ModelStage { trend: MultiScaleTrendModel::new(), forecast_steps }
    }

    fn forecasts<F: ForecastModelExt<N>>(&self, f: &FeatureVector<N>, model: &Option<F>) -> (r:
        HashMap<u32, ShortTermForecast<N>>)
        ensures
            are_forecasts(*model, *f, self.steps(), r@),
    {
        broadcast use vstd::std_specs::hash::group_hash_axioms;

        let mut table: HashMap<u32, ShortTermForecast<N>> = HashMap::new();
        let mut i: usize = 0;
        let ghost steps = self.forecast_steps@;
        while i < self.forecast_steps.len()
            invariant
                i <= self.forecast_steps@.len(),
                steps == self.forecast_steps@,
                are_forecasts(*model, *f, steps.take(i as int), table@),
            decreases self.forecast_steps@.len() - i,
        {
            let (step_secs, n_steps) = self.forecast_steps[i];
            let forecast = match model {
                Some(m) => m.forecast(f, step_secs, n_steps),
                None => MomentumExtrapolator::forecast(f, step_secs, n_steps),
            };
            let ghost before = table@;
            let ghost done = steps.take(i as int);
            let ghost next = steps.take(i + 1);
            assert(is_forecast(*model, *f, steps[i as int], forecast));
            table.insert(step_secs, forecast);
            proof {
                assert(next[i as int] == steps[i as int]);
                assert forall|k: u32| #[trigger]
                    table@.contains_key(k) <==> exists|j: int|
                        0 <= j < next.len() && (#[trigger] next[j]).0 == k by {
                    if before.contains_key(k) {
                        let j = choose|j: int| 0 <= j < done.len() && (#[trigger] done[j]).0 == k;
                        assert(next[j].0 == k);
                    }
                    if exists|j: int| 0 <= j < next.len() && (#[trigger] next[j]).0 == k {
                        let j = choose|j: int| 0 <= j < next.len() && (#[trigger] next[j]).0 == k;
                        if j < done.len() {
                            assert(done[j].0 == k);
                            assert(before.contains_key(k));
                        }
                    }
                }
                assert forall|j: int|
                    0 <= j < next.len() && (forall|l: int|
                        j < l < next.len() ==> (#[trigger] next[l]).0 != next[j].0) implies is_forecast(
                    *model,
                    *f,
                    #[trigger] next[j],
                    table@[next[j].0],
                ) by {
                    if j < i {
                        assert(done[j] == next[j]);
                        assert(next[i as int].0 != next[j].0);
                        assert forall|l: int| j < l < done.len() implies (#[trigger] done[l]).0
                            != done[j].0 by {
                            assert(next[l].0 != next[j].0);
                        }
                        assert(is_forecast(*model, *f, done[j], before[done[j].0]));
                    }
                }
            }
            i += 1;
        }
        assert(steps.take(steps.len() as int) =~= steps);
        table
    }

    /// Runs all models on a feature vector.
    pub fn infer<T: TrendModelExt<N>, F: ForecastModelExt<N>>(
        &mut self,
        f: &FeatureVector<N>,
        trend: &Option<T>,
        forecast: &Option<F>,
        connected: u32,
    ) -> (s: PredictionSnapshot<N>)
        requires
            old(self).wf(),
        ensures
            final(self).wf(),
            final(self).steps() == old(self).steps(),
            exists|averages: Seq<TrendSignal<N>>|
                {
                    &&& #[trigger] trends_advanced(
                        old(self).averages(),
                        *f,
                        final(self).averages(),
                        averages,
                    )
                    &&& predicts(
                        *f,
                        averages,
                        old(self).steps(),
                        *trend,
                        *forecast,
                        connected,
                        s,
                    )
                },
    {
        let averages = self.trend.update(f);
        let classified = HeuristicDirectionClassifier::predict(f, TimeScale::Short);
        let short = blend(&averages[1], &classified, N::ratio(6, 10));
        let baseline = [averages[0], short, averages[2], averages[3]];
        assert(baseline@ =~= baseline_signals(averages@, *f));
        let (base_direction, base_confidence) = SignalFuser::fuse(&baseline);
        let primary = match trend {
            Some(m) => [
                m.predict(f, TimeScale::Micro),
                m.predict(f, TimeScale::Short),
                m.predict(f, TimeScale::Medium),
                m.predict(f, TimeScale::Broad),
            ],
            None => baseline,
        };
        let (fused_direction, fused_confidence) = SignalFuser::fuse(&primary);
        let zero = N::from_int(0);
        let forecasts = self.forecasts(f, forecast);
        let s = PredictionSnapshot {
            snapshot_at: f.ts_micros,
            price: f.price,
            micro: primary[0],
            short: primary[1],
            medium: primary[2],
            broad: primary[3],
            forecasts,
            fused_direction,
            fused_confidence,
            metrics: EngineMetrics {
                tick_rate: zero,
                dedup_rate: zero,
                outlier_rate: zero,
                connected_feeds: connected,
                cross_exchange_spread: f.inter_exchange_spread,
            },
            heuristic: HeuristicSnapshot {
                micro: baseline[0],
                short: baseline[1],
                medium: baseline[2],
                broad: baseline[3],
                fused_direction: base_direction,
                fused_confidence: base_confidence,
            },
            model_active: trend.is_some(),
        };
        assert(primary_of(s) =~= primary@);
        assert(baseline_of(s) =~= baseline@);
        assert(predicts(*f, averages@, self.steps(), *trend, *forecast, connected, s));
        assert(trends_advanced(old(self).averages(), *f, self.averages(), averages@));
        s
    }
}

// ---------------------------------------------------------------------------
// Stage 4: fanout
// ---------------------------------------------------------------------------
/// A snapshot with the rates of the first stage entered.
pub open spec fn rated<N: Number>(snap: PredictionSnapshot<N>, rates: Rates<N>) -> PredictionSnapshot<
    N,
> {
    PredictionSnapshot {
        metrics: EngineMetrics {
            tick_rate: rates.tick_rate,
            dedup_rate: rates.dedup_rate,
            outlier_rate: rates.outlier_rate,
            ..snap.metrics
        },
        ..snap
    }
}

/// Enters the rates of the first stage into a snapshot.
pub fn with_rates<N: Number>(snap: PredictionSnapshot<N>, rates: Rates<N>) -> (r:
    PredictionSnapshot<N>)
    ensures
        r == rated(snap, rates),
{
    let mut out = snap;
    out.metrics.tick_rate = rates.tick_rate;
    out.metrics.dedup_rate = rates.dedup_rate;
    out.metrics.outlier_rate = rates.outlier_rate;
    out
}

// ---------------------------------------------------------------------------
// All stages in a row
// ---------------------------------------------------------------------------
/// The earliest time whose feature windows all start at a representable time.
pub const EARLIEST_MICROS: i64 = -9_223_372_035_054_775_808;

/// The estimate that the outlier filter gets of a feature vector: the volatility per
/// tick, 0 before there is one.
pub open spec fn fed_back<N: Number>(v: FeatureVector<N>) -> N {
    or_default(v.ewma_vol_tick, N::of_int(0))
}

/// The estimate that the outlier filter gets of a feature vector.
pub fn feedback<N: Number>(v: &FeatureVector<N>) -> (r: N)
    ensures
        r == fed_back(*v),
{
    v.ewma_vol_tick.unwrap_or(N::from_int(0))
}

/// What stages 2 to 4 have: the volatility estimate that they hand back to the first
/// one, the accumulated features, the moving averages, and what has been published.
pub struct DownstreamView<N> {
    pub estimate: N,
    pub features: FeatureView<N>,
    pub averages: MultiScaleView<N>,
    pub engine: EngineView<N>,
}

/// Stages 2 to 4 on one fused tick, with what passes between them: its features `v`
/// are taken, their volatility goes back to the first stage, the models are run on them,
/// and their snapshot is published with the rates of the first stage.
pub open spec fn digested_as<N: Analytic, T: TrendModelExt<N>, F: ForecastModelExt<N>>(
    before: DownstreamView<N>,
    fused: FusedTick<N>,
    steps: Seq<(u32, usize)>,
    trend: Option<T>,
    forecast: Option<F>,
    rates: Rates<N>,
    v: FeatureVector<N>,
    averages: Seq<TrendSignal<N>>,
    snap: PredictionSnapshot<N>,
    after: DownstreamView<N>,
) -> bool {
    &&& advanced(before.features, fused, after.features)
    &&& describes(after.features, fused, v)
    &&& after.estimate == fed_back(v)
    &&& trends_advanced(before.averages, v, after.averages, averages)
    &&& predicts(
        v,
        averages,
        steps,
        trend,
        forecast,
        before.engine.health.healthy_count() as u32,
        snap,
    )
    &&& after.engine == before.engine.published(rated(snap, rates)@)
}

/// Stages 2 to 4 on one fused tick.
pub open spec fn digested<N: Analytic, T: TrendModelExt<N>, F: ForecastModelExt<N>>(
    before: DownstreamView<N>,
    fused: FusedTick<N>,
    steps: Seq<(u32, usize)>,
    trend: Option<T>,
    forecast: Option<F>,
    rates: Rates<N>,
    after: DownstreamView<N>,
) -> bool {
    exists|v: FeatureVector<N>, averages: Seq<TrendSignal<N>>, snap: PredictionSnapshot<N>|
        #[trigger]
        digested_as(before, fused, steps, trend, forecast, rates, v, averages, snap, after)
}

/// Stages 2 to 4 where a bucket may close. A bucket too early for the feature windows
/// is passed over.
pub open spec fn flows_down<N: Analytic, T: TrendModelExt<N>, F: ForecastModelExt<N>>(
    before: DownstreamView<N>,
    closed: Option<BucketView<N>>,
    width: int,
    steps: Seq<(u32, usize)>,
    trend: Option<T>,
    forecast: Option<F>,
    rates: Rates<N>,
    after: DownstreamView<N>,
) -> bool {
    match closed {
        Some(b) => if bucket_centre(b.id as int, width) < EARLIEST_MICROS {
            after == before
        } else {
            exists|fused: FusedTick<N>|
                {
                    &&& #[trigger] fuses(b.ticks, bucket_centre(b.id as int, width), fused)
                    &&& digested(before, fused, steps, trend, forecast, rates, after)
                }
        },
        None => after == before,
    }
}

/// The confidences that a snapshot publishes lie between 0 and 1.
pub open spec fn is_confident<N: Number>(s: SnapshotView<N>) -> bool {
    is_confidence(s.fused_confidence) && is_confidence(s.heuristic.fused_confidence)
}

/// Whatever can be read of an engine has its confidences between 0 and 1.
pub open spec fn confidences_in_range<N: Number>(engine: EngineView<N>) -> bool {
    &&& engine.latest matches Some(s) ==> is_confident(s)
    &&& forall|i: int| 0 <= i < engine.snapshots.len() ==> is_confident(#[trigger] engine.snapshots[i])
}

/// The same snapshots can be read of two engines.
pub open spec fn same_publications<N: Number>(a: EngineView<N>, b: EngineView<N>) -> bool {
    a.latest == b.latest && a.snapshots == b.snapshots
}

/// A snapshot that the models give has its confidences between 0 and 1, whatever a
/// plugged-in model returns.
pub proof fn predicted_confidences_in_range<
    N: Analytic,
    T: TrendModelExt<N>,
    F: ForecastModelExt<N>,
>(
    f: FeatureVector<N>,
    averages: Seq<TrendSignal<N>>,
    steps: Seq<(u32, usize)>,
    trend: Option<T>,
    forecast: Option<F>,
    connected: u32,
    s: PredictionSnapshot<N>,
)
    requires
        is_ordered::<N>(),
        predicts(f, averages, steps, trend, forecast, connected, s),
    ensures
        is_confident(s@),
{
    fused_confidence_in_range(primary_of(s));
    fused_confidence_in_range(baseline_of(s));
}

/// Every snapshot that the stages publish has its confidences between 0 and 1; where a
/// bucket closes, one is published.
pub proof fn published_confidences_in_range<
    N: Analytic,
    T: TrendModelExt<N>,
    F: ForecastModelExt<N>,
>(
    before: DownstreamView<N>,
    closed: Option<BucketView<N>>,
    width: int,
    steps: Seq<(u32, usize)>,
    trend: Option<T>,
    forecast: Option<F>,
    rates: Rates<N>,
    after: DownstreamView<N>,
)
    requires
        is_ordered::<N>(),
        confidences_in_range(before.engine),
        flows_down(before, closed, width, steps, trend, forecast, rates, after),
    ensures
        confidences_in_range(after.engine),
        closed matches Some(b) ==> bucket_centre(b.id as int, width) >= EARLIEST_MICROS
            ==> after.engine.latest is Some,
{
    if let Some(b) = closed {
        if bucket_centre(b.id as int, width) >= EARLIEST_MICROS {
            let fused = choose|fused: FusedTick<N>|
                {
                    &&& #[trigger] fuses(b.ticks, bucket_centre(b.id as int, width), fused)
                    &&& digested(before, fused, steps, trend, forecast, rates, after)
                };
            let (v, averages, snap) = choose|
                v: FeatureVector<N>,
                averages: Seq<TrendSignal<N>>,
                snap: PredictionSnapshot<N>,
            | #[trigger]
                digested_as(before, fused, steps, trend, forecast, rates, v, averages, snap, after);
            predicted_confidences_in_range(
                v,
                averages,
                steps,
                trend,
                forecast,
                before.engine.health.healthy_count() as u32,
                snap,
            );
            let view = rated(snap, rates)@;
            let (old_ring, ring) = (before.engine.snapshots, after.engine.snapshots);
            assert forall|i: int| 0 <= i < ring.len() implies is_confident(#[trigger] ring[i]) by {
                if i < ring.len() - 1 {
                    let j = if ring.len() > old_ring.len() { i } else { i + 1 };
                    assert(ring[i] == old_ring[j]);
                }
            }
        }
    }
}

/// What happens between two looks at the stages: ticks are stored, feeds are heard of and
/// books come in, none of which publishes anything, and then a bucket may close.
pub open spec fn moves_on<N: Analytic, T: TrendModelExt<N>, F: ForecastModelExt<N>>(
    before: DownstreamView<N>,
    width: int,
    steps: Seq<(u32, usize)>,
    trend: Option<T>,
    forecast: Option<F>,
    after: DownstreamView<N>,
) -> bool {
    exists|mid: DownstreamView<N>, closed: Option<BucketView<N>>, rates: Rates<N>|
        {
            &&& same_publications(before.engine, mid.engine)
            &&& #[trigger] flows_down(mid, closed, width, steps, trend, forecast, rates, after)
        }
}

/// From an engine that has published nothing on, every snapshot that can ever be read has
/// its confidences between 0 and 1.
pub proof fn every_confidence_is_in_range<
    N: Analytic,
    T: TrendModelExt<N>,
    F: ForecastModelExt<N>,
>(
    states: Seq<DownstreamView<N>>,
    width: int,
    steps: Seq<(u32, usize)>,
    trend: Option<T>,
    forecast: Option<F>,
    n: int,
)
    requires
        is_ordered::<N>(),
        0 <= n < states.len(),
        states[0].engine.latest is None,
        states[0].engine.snapshots.len() == 0,
        forall|i: int|
            0 < i < states.len() ==> moves_on(
                states[i - 1],
                width,
                steps,
                trend,
                forecast,
                #[trigger] states[i],
            ),
    ensures
        confidences_in_range(states[n].engine),
    decreases n,
{
    if n > 0 {
        every_confidence_is_in_range(states, width, steps, trend, forecast, n - 1);
        let (before, after) = (states[n - 1], states[n]);
        assert(moves_on(before, width, steps, trend, forecast, after));
        let (mid, closed, rates) = choose|
            mid: DownstreamView<N>,
            closed: Option<BucketView<N>>,
            rates: Rates<N>,
        |
            {
                &&& same_publications(before.engine, mid.engine)
                &&& #[trigger] flows_down(mid, closed, width, steps, trend, forecast, rates, after)
            };
        published_confidences_in_range(
            mid,
            closed,
            width,
            steps,
            trend,
            forecast,
            rates,
            after,
        );
    }
}

/// The confidences that a snapshot publishes are numbers between 0 and 1.
pub open spec fn is_definite_snapshot<N: Number>(s: SnapshotView<N>) -> bool {
    is_definite(s.fused_confidence) && is_definite(s.heuristic.fused_confidence)
}

/// A snapshot of features that are numbers has confidences that are numbers between 0
/// and 1, where a plugged-in model, if there is one, gives such confidences too. The
/// moving averages stay numbers.
pub proof fn predicted_confidences_are_numbers<
    N: Analytic,
    T: TrendModelExt<N>,
    F: ForecastModelExt<N>,
>(
    before: MultiScaleView<N>,
    f: FeatureVector<N>,
    after: MultiScaleView<N>,
    averages: Seq<TrendSignal<N>>,
    steps: Seq<(u32, usize)>,
    trend: Option<T>,
    forecast: Option<F>,
    connected: u32,
    s: PredictionSnapshot<N>,
)
    requires
        has_bounds::<N>(),
        is_analytic::<N>(),
        is_measured(f),
        averages_count(before),
        trends_advanced(before, f, after, averages),
        predicts(f, averages, steps, trend, forecast, connected, s),
        trend is Some ==> signals_are_definite(primary_of(s)),
    ensures
        averages_count(after),
        is_definite_snapshot(s@),
{
    trend_confidences_are_numbers(before, f, after, averages);
    let classified = heuristic_signal(f, TimeScale::Short);
    heuristic_confidence_is_a_number(f, TimeScale::Short);
    assert(is_definite(averages[0].confidence) && is_definite(averages[1].confidence)
        && is_definite(averages[2].confidence) && is_definite(averages[3].confidence));
    blended_confidence_is_a_number(averages[1], classified, 6, 10);
    let baseline = baseline_of(s);
    assert forall|i: int| 0 <= i < baseline.len() implies is_definite(
        (#[trigger] baseline[i]).confidence,
    ) by {
        let all = baseline_signals(averages, f);
        assert(baseline[i] == all[i]);
        assert(i == 0 || i == 1 || i == 2 || i == 3);
    }
    fused_confidence_is_a_number(baseline);
    fused_confidence_is_a_number(primary_of(s));
}

/// One step of a run on features that are numbers: between two buckets nothing is
/// published and the moving averages stay, and then a bucket closes.
pub open spec fn publishes_measured<N: Analytic, T: TrendModelExt<N>, F: ForecastModelExt<N>>(
    before: DownstreamView<N>,
    steps: Seq<(u32, usize)>,
    forecast: Option<F>,
    no_model: Option<T>,
    after: DownstreamView<N>,
) -> bool {
    exists|
        mid: DownstreamView<N>,
        fused: FusedTick<N>,
        rates: Rates<N>,
        v: FeatureVector<N>,
        averages: Seq<TrendSignal<N>>,
        snap: PredictionSnapshot<N>,
    |
        {
            &&& same_publications(before.engine, mid.engine)
            &&& mid.averages == before.averages
            &&& is_measured(v)
            &&& #[trigger] digested_as(
                mid,
                fused,
                steps,
                no_model,
                forecast,
                rates,
                v,
                averages,
                snap,
                after,
            )
        }
}

/// Every snapshot that can be read has confidences that are numbers between 0 and 1.
pub open spec fn confidences_are_numbers<N: Number>(engine: EngineView<N>) -> bool {
    &&& engine.latest matches Some(s) ==> is_definite_snapshot(s)
    &&& forall|i: int|
        0 <= i < engine.snapshots.len() ==> is_definite_snapshot(#[trigger] engine.snapshots[i])
}

/// From an engine that has published nothing on, without a plugged-in model and as long
/// as the features are numbers, every snapshot that can ever be read has confidences that
/// are numbers between 0 and 1.
pub proof fn every_confidence_is_a_number<
    N: Analytic,
    T: TrendModelExt<N>,
    F: ForecastModelExt<N>,
>(
    states: Seq<DownstreamView<N>>,
    steps: Seq<(u32, usize)>,
    forecast: Option<F>,
    no_model: Option<T>,
    n: int,
)
    requires
        has_bounds::<N>(),
        is_analytic::<N>(),
        no_model is None,
        0 <= n < states.len(),
        states[0].engine.latest is None,
        states[0].engine.snapshots.len() == 0,
        states[0].averages == MultiScaleView::<N>::start(),
        forall|i: int|
            0 < i < states.len() ==> publishes_measured(
                states[i - 1],
                steps,
                forecast,
                no_model,
                #[trigger] states[i],
            ),
    ensures
        averages_count(states[n].averages),
        confidences_are_numbers(states[n].engine),
        n > 0 ==> states[n].engine.latest is Some,
    decreases n,
{
    if n > 0 {
        every_confidence_is_a_number(states, steps, forecast, no_model, n - 1);
        let (before, after) = (states[n - 1], states[n]);
        assert(publishes_measured(before, steps, forecast, no_model, after));
        let (mid, fused, rates, v, averages, snap) = choose|
            mid: DownstreamView<N>,
            fused: FusedTick<N>,
            rates: Rates<N>,
            v: FeatureVector<N>,
            averages: Seq<TrendSignal<N>>,
            snap: PredictionSnapshot<N>,
        |
            {
                &&& same_publications(before.engine, mid.engine)
                &&& mid.averages == before.averages
                &&& is_measured(v)
                &&& #[trigger] digested_as(
                    mid,
                    fused,
                    steps,
                    no_model,
                    forecast,
                    rates,
                    v,
                    averages,
                    snap,
                    after,
                )
            };
        predicted_confidences_are_numbers(
            mid.averages,
            v,
            after.averages,
            averages,
            steps,
            no_model,
            forecast,
            mid.engine.health.healthy_count() as u32,
            snap,
        );
        let (old_ring, ring) = (mid.engine.snapshots, after.engine.snapshots);
        assert forall|i: int| 0 <= i < ring.len() implies is_definite_snapshot(
            #[trigger] ring[i],
        ) by {
            if i < ring.len() - 1 {
                let j = if ring.len() > old_ring.len() { i } else { i + 1 };
                assert(ring[i] == old_ring[j]);
            }
        }
    }
}

/// Two first stages that differ in their volatility estimates at most.
pub open spec fn same_but_estimate<N: Number>(a: DedupStage<N>, b: DedupStage<N>) -> bool {
    &&& b.metrics == a.metrics
    &&& b.filter@ == (FilterView { estimate: b.filter@.estimate, ..a.filter@ })
}

/// All stages, run one after the other on each tick: the engine for replays.
pub struct Pipeline<N> {
    dedup: DedupStage<N>,
    fuser: PriceFuser<N>,
    features: FeatureState<N>,
    models: ModelStage<N>,
}

impl<N: Analytic> Pipeline<N> {
    pub closed spec fn dedup(self) -> DedupStage<N> {
        self.dedup
    }

    pub closed spec fn fuser(self) -> PriceFuser<N> {
        self.fuser
    }

    pub closed spec fn features(self) -> FeatureView<N> {
        self.features@
    }

    pub closed spec fn averages(self) -> MultiScaleView<N> {
        self.models.averages()
    }

    pub closed spec fn steps(self) -> Seq<(u32, usize)> {
        self.models.steps()
    }

    /// Every stage keeps its invariant.
    pub closed spec fn wf(self) -> bool {
        self.fuser.wf() && self.features.wf() && self.models.wf()
    }

    /// What stages 2 to 4 have.
    pub open spec fn downstream(self, engine: EngineView<N>) -> DownstreamView<N> {
        DownstreamView {
            estimate: self.dedup().filter@.estimate,
            features: self.features(),
            averages: self.averages(),
            engine,
        }
    }

    pub fn new(config: PipelineConfig<N>, now: i64) -> (r: Self)
        requires
            config.fusion.valid(),
        ensures
            r.wf(),
            r.dedup().filter@ == FilterView::start(config.filter),
            r.dedup().metrics@ == MetricsView::start(now),
            r.fuser().is_new(config.fusion),
            is_unseeded(r.features()),
            r.averages() == MultiScaleView::<N>::start(),
            r.steps() == config.forecast_steps@,
    {
        Pipeline {
            dedup: DedupStage::new(config.filter, now),
            fuser: PriceFuser::new(config.fusion),
            features: FeatureState::new(),
            models: ModelStage::new(config.forecast_steps),
        }
    }

    fn digest<T: TrendModelExt<N>, F: ForecastModelExt<N>>(
        &mut self,
        engine: &mut PredictionEngine<N>,
        fused: &FusedTick<N>,
        trend: &Option<T>,
        forecast: &Option<F>,
    )
        requires
            old(self).wf(),
            fused.ts_micros >= EARLIEST_MICROS,
        ensures
            final(self).wf(),
            same_but_estimate(old(self).dedup(), final(self).dedup()),
            final(self).fuser() == old(self).fuser(),
            final(self).steps() == old(self).steps(),
            digested(
                old(self).downstream(old(engine)@),
                *fused,
                old(self).steps(),
                *trend,
                *forecast,
                rates_of::<N>(old(self).dedup().metrics@),
                final(self).downstream(final(engine)@),
            ),
    {
        let ghost before = self.downstream(engine@);
        let v = self.features.update_from_fused(fused);
        self.dedup.filter.set_ewma_variance(feedback(&v));
        let connected: u32 = engine.connected_feeds();
        let snap = self.models.infer(&v, trend, forecast, connected);
        let ghost averages = choose|averages: Seq<TrendSignal<N>>|
            {
                &&& #[trigger] trends_advanced(
                    before.averages,
                    v,
                    self.models.averages(),
                    averages,
                )
                &&& predicts(v, averages, self.models.steps(), *trend, *forecast, connected, snap)
            };
        let rates = self.dedup.metrics.rates();
        let ghost plain = snap;
        let snap = with_rates(snap, rates);
        assert(snap@ == rated(plain, rates)@);
        engine.publish(snap);
        proof {
            let after = self.downstream(engine@);
            assert(digested_as(
                before,
                *fused,
                self.steps(),
                *trend,
                *forecast,
                rates,
                v,
                averages,
                plain,
                after,
            ));
        }
    }

    fn pass_on<T: TrendModelExt<N>, F: ForecastModelExt<N>>(
        &mut self,
        engine: &mut PredictionEngine<N>,
        fused: Option<FusedTick<N>>,
        trend: &Option<T>,
        forecast: &Option<F>,
        Ghost(closed): Ghost<Option<BucketView<N>>>,
    )
        requires
            old(self).wf(),
            emits(closed, old(self).fuser().config().bucket_width_micros as int, fused),
        ensures
            final(self).wf(),
            same_but_estimate(old(self).dedup(), final(self).dedup()),
            final(self).fuser() == old(self).fuser(),
            final(self).steps() == old(self).steps(),
            flows_down(
                old(self).downstream(old(engine)@),
                closed,
                old(self).fuser().config().bucket_width_micros as int,
                old(self).steps(),
                *trend,
                *forecast,
                rates_of::<N>(old(self).dedup().metrics@),
                final(self).downstream(final(engine)@),
            ),
    {
        if let Some(fused) = fused {
            assert(fuses(
                closed->0.ticks,
                bucket_centre(
                    closed->0.id as int,
                    self.fuser().config().bucket_width_micros as int,
                ),
                fused,
            ));
            if fused.ts_micros >= EARLIEST_MICROS {
                self.digest(engine, &fused, trend, forecast);
            }
        }
    }

    /// Runs a tick through all stages (for testing or historical replay); `false` if
    /// the filter drops it.
    pub fn inject_tick<T: TrendModelExt<N>, F: ForecastModelExt<N>>(
        &mut self,
        engine: &mut PredictionEngine<N>,
        tick: &Tick<N>,
        trend: &Option<T>,
        forecast: &Option<F>,
        local_wall: i64,
        now: i64,
    ) -> (r: bool)
        requires
            old(self).wf(),
            old(self).dedup().ready_for(*tick, now),
            open_ticks(old(self).fuser().open()).len() < u32::MAX,
        ensures
            final(self).wf(),
            injected(
                *old(self),
                old(engine)@,
                *tick,
                *trend,
                *forecast,
                local_wall,
                now,
                *final(self),
                final(engine)@,
                r,
            ),
    {
        if self.dedup.step(tick, now) != Verdict::Accepted {
            return false;
        }
        engine.store_tick(tick.clone());
        let ghost routing = routed(
            self.fuser.open(),
            self.fuser.place_of(*tick, local_wall),
            *tick,
            now,
        );
        let fused = self.fuser.on_tick(tick, local_wall, now);
        self.pass_on(engine, fused, trend, forecast, Ghost(routing.1));
        true
    }

    /// Lets the flush timer fire.
    pub fn on_timer<T: TrendModelExt<N>, F: ForecastModelExt<N>>(
        &mut self,
        engine: &mut PredictionEngine<N>,
        trend: &Option<T>,
        forecast: &Option<F>,
        now: i64,
    )
        requires
            old(self).wf(),
        ensures
            final(self).wf(),
            timer_fired(
                *old(self),
                old(engine)@,
                *trend,
                *forecast,
                now,
                *final(self),
                final(engine)@,
            ),
    {
        let ghost timing = timed_out(
            self.fuser.open(),
            now,
            self.fuser.config().max_bucket_age.total(),
        );
        let fused = self.fuser.on_timer(now);
        self.pass_on(engine, fused, trend, forecast, Ghost(timing.1));
    }

    /// Takes in an order book.
    pub fn on_book(&mut self, snap: &BookSnapshot<N>)
        requires
            old(self).wf(),
        ensures
            final(self).wf(),
            final(self).dedup() == old(self).dedup(),
            final(self).fuser() == old(self).fuser(),
            final(self).averages() == old(self).averages(),
            final(self).steps() == old(self).steps(),
            book_taken(old(self).features(), *snap, final(self).features()),
    {
        self.features.update_book(snap);
    }
}

/// A tick has run through all stages: `r` tells whether the filter let it pass.
pub open spec fn injected<N: Analytic, T: TrendModelExt<N>, F: ForecastModelExt<N>>(
    before: Pipeline<N>,
    engine: EngineView<N>,
    tick: Tick<N>,
    trend: Option<T>,
    forecast: Option<F>,
    local_wall: i64,
    now: i64,
    after: Pipeline<N>,
    engine_after: EngineView<N>,
    r: bool,
) -> bool {
    let verdict = before.dedup().filter@.verdict(tick);
    let metrics = before.dedup().metrics@.flushed(now).counted(verdict, now);
    let fuser = before.fuser();
    let (open, closed) = routed(fuser.open(), fuser.place_of(tick, local_wall), tick, now);
    &&& r == (verdict is Accepted)
    &&& after.steps() == before.steps()
    &&& after.dedup().filter@ == (FilterView {
        estimate: after.dedup().filter@.estimate,
        ..before.dedup().filter@.after(tick)
    })
    &&& after.dedup().metrics@ == metrics
    &&& !r ==> {
        &&& after.dedup().filter@.estimate == before.dedup().filter@.estimate
        &&& engine_after == engine
        &&& after.fuser() == fuser
        &&& after.features() == before.features()
        &&& after.averages() == before.averages()
    }
    &&& r ==> {
        &&& after.fuser().open() == open
        &&& after.fuser().config() == fuser.config()
        &&& has_sampled(fuser.corrector(), tick, local_wall, after.fuser().corrector())
        &&& flows_down(
            DownstreamView { engine: engine.stored(tick), ..before.downstream(engine) },
            closed,
            fuser.config().bucket_width_micros as int,
            before.steps(),
            trend,
            forecast,
            rates_of::<N>(metrics),
            after.downstream(engine_after),
        )
    }
}

/// The flush timer has fired.
pub open spec fn timer_fired<N: Analytic, T: TrendModelExt<N>, F: ForecastModelExt<N>>(
    before: Pipeline<N>,
    engine: EngineView<N>,
    trend: Option<T>,
    forecast: Option<F>,
    now: i64,
    after: Pipeline<N>,
    engine_after: EngineView<N>,
) -> bool {
    let fuser = before.fuser();
    let (open, closed) = timed_out(fuser.open(), now, fuser.config().max_bucket_age.total());
    &&& after.steps() == before.steps()
    &&& same_but_estimate(before.dedup(), after.dedup())
    &&& after.fuser().open() == open
    &&& after.fuser().config() == fuser.config()
    &&& after.fuser().corrector() == fuser.corrector()
    &&& flows_down(
        before.downstream(engine),
        closed,
        fuser.config().bucket_width_micros as int,
        before.steps(),
        trend,
        forecast,
        rates_of::<N>(before.dedup().metrics@),
        after.downstream(engine_after),
    )
}

/// A replay: ticks are injected one after the other.
pub open spec fn is_replay<N: Analytic, T: TrendModelExt<N>, F: ForecastModelExt<N>>(
    pipelines: Seq<Pipeline<N>>,
    engines: Seq<EngineView<N>>,
    ticks: Seq<Tick<N>>,
    trend: Option<T>,
    forecast: Option<F>,
    walls: Seq<i64>,
    nows: Seq<i64>,
    results: Seq<bool>,
) -> bool {
    &&& pipelines.len() == ticks.len() + 1
    &&& engines.len() == ticks.len() + 1
    &&& walls.len() == ticks.len()
    &&& nows.len() == ticks.len()
    &&& results.len() == ticks.len()
    &&& forall|i: int|
        0 <= i < ticks.len() ==> injected(
            pipelines[i],
            engines[i],
            #[trigger] ticks[i],
            trend,
            forecast,
            walls[i],
            nows[i],
            pipelines[i + 1],
            engines[i + 1],
            results[i],
        )
}

/// The bucket that a tick falls into when its clock is `offset` behind, where that is a
/// bucket that the features can take.
pub open spec fn has_bucket<N>(tick: Tick<N>, offset: int, width: int) -> bool {
    &&& representable(tick.ts_micros + offset) is Some
    &&& bucket_of(tick.ts_micros + offset, width) is Some
    &&& bucket_centre((tick.ts_micros + offset) / width, width) >= EARLIEST_MICROS
}

/// A replay gives a snapshot to read: from the second tick on there is a latest snapshot
/// and a latest price. The first two ticks are of one exchange and at least a bucket's
/// width apart, the second one is no repetition of the first, and their clock samples
/// agree, as they do where the wall clock is far from the ticks' own times.
pub proof fn replay_gives_a_snapshot<N: Analytic, T: TrendModelExt<N>, F: ForecastModelExt<N>>(
    pipelines: Seq<Pipeline<N>>,
    engines: Seq<EngineView<N>>,
    ticks: Seq<Tick<N>>,
    trend: Option<T>,
    forecast: Option<F>,
    walls: Seq<i64>,
    nows: Seq<i64>,
    results: Seq<bool>,
    filter: FilterConfig<N>,
    fusion: FusionConfig<N>,
    range: int,
    n: int,
)
    requires
        is_ordered::<N>(),
        settles::<N>(range),
        is_replay(pipelines, engines, ticks, trend, forecast, walls, nows, results),
        pipelines[0].dedup().filter@ == FilterView::start(filter),
        pipelines[0].fuser().is_new(fusion),
        0 <= fusion.max_offset_micros <= range,
        fusion.bucket_width_micros > 0,
        fusion.ntp_alpha.is_number(),
        is_between(N::of_int(0), fusion.ntp_alpha, N::of_int(1)),
        2 <= n <= ticks.len(),
        ticks[0].exchange == ticks[1].exchange,
        ticks[1].ts_micros - ticks[0].ts_micros >= fusion.bucket_width_micros,
        !same_trade(ticks[0], ticks[1]) || ticks[1].ts_micros - ticks[0].ts_micros
            > filter.dedup_window_micros,
        ({
            let m = fusion.max_offset_micros as int;
            let offset = offset_sample(walls[0] as int, ticks[0].ts_micros as int, m);
            &&& offset_sample(walls[1] as int, ticks[1].ts_micros as int, m) == offset
            &&& has_bucket(ticks[0], offset, fusion.bucket_width_micros as int)
            &&& has_bucket(ticks[1], offset, fusion.bucket_width_micros as int)
        }),
    ensures
        results[0],
        results[1],
        engines[n].latest is Some,
        engines[n].ticks.len() > 0,
    decreases n,
{
    if n > 2 {
        replay_gives_a_snapshot(
            pipelines,
            engines,
            ticks,
            trend,
            forecast,
            walls,
            nows,
            results,
            filter,
            fusion,
            range,
            n - 1,
        );
        let i = n - 1;
        assert(injected(
            pipelines[i],
            engines[i],
            ticks[i],
            trend,
            forecast,
            walls[i],
            nows[i],
            pipelines[i + 1],
            engines[i + 1],
            results[i],
        ));
        injecting_keeps_what_can_be_read(
            pipelines[i],
            engines[i],
            ticks[i],
            trend,
            forecast,
            walls[i],
            nows[i],
            pipelines[n],
            engines[n],
            results[i],
        );
    } else {
        let m = fusion.max_offset_micros as int;
        let width = fusion.bucket_width_micros as int;
        let (t0, t1) = (ticks[0], ticks[1]);
        let offset = offset_sample(walls[0] as int, t0.ts_micros as int, m);
        let (p0, p1) = (pipelines[0], pipelines[1]);
        assert(injected(
            p0,
            engines[0],
            ticks[0],
            trend,
            forecast,
            walls[0],
            nows[0],
            p1,
            engines[1],
            results[0],
        ));
        assert(injected(
            p1,
            engines[1],
            ticks[1],
            trend,
            forecast,
            walls[1],
            nows[1],
            pipelines[2],
            engines[2],
            results[1],
        ));
        // The first tick passes and opens a bucket.
        let f0 = p0.dedup().filter@;
        assert(f0.remembered(t0) =~= Seq::empty());
        assert(f0.verdict(t0) is Accepted);
        steady_offset_stays(None::<N>, fusion.ntp_alpha, offset, range);
        let o0 = p0.fuser().corrector().offset_after(t0, walls[0]);
        assert(o0.rounded() == offset);
        assert(p0.fuser().place_of(t0, walls[0]) == bucket_of(t0.ts_micros + offset, width));
        assert(p1.fuser().open() matches Some(b) && b.id == (t0.ts_micros + offset) / width);
        // No bucket closes, so there is no volatility estimate yet.
        assert(p1.dedup().filter@.estimate == N::of_int(0));
        // The second tick passes and closes the bucket.
        let f1 = p1.dedup().filter@;
        assert(f1.seen =~= seq![t0]);
        eviction_drops_the_stale_front(f1.seen, t1.ts_micros - filter.dedup_window_micros);
        reveal_with_fuel(stale_prefix, 2);
        assert(!repeats(filter, f1.remembered(t1), t1));
        assert(f1.verdict(t1) is Accepted);
        steady_offset_stays(Some(o0), fusion.ntp_alpha, offset, range);
        assert(p1.fuser().place_of(t1, walls[1]) == bucket_of(t1.ts_micros + offset, width));
        distant_times_have_different_buckets(
            t0.ts_micros + offset,
            t1.ts_micros + offset,
            width,
        );
        injecting_keeps_what_can_be_read(
            p1,
            engines[1],
            t1,
            trend,
            forecast,
            walls[1],
            nows[1],
            pipelines[2],
            engines[2],
            results[1],
        );
    }
}

/// Injecting a tick leaves something to read where there was something, and gives a
/// snapshot where the tick closes a bucket.
pub proof fn injecting_keeps_what_can_be_read<
    N: Analytic,
    T: TrendModelExt<N>,
    F: ForecastModelExt<N>,
>(
    before: Pipeline<N>,
    engine: EngineView<N>,
    tick: Tick<N>,
    trend: Option<T>,
    forecast: Option<F>,
    local_wall: i64,
    now: i64,
    after: Pipeline<N>,
    engine_after: EngineView<N>,
    r: bool,
)
    requires
        injected(
            before,
            engine,
            tick,
            trend,
            forecast,
            local_wall,
            now,
            after,
            engine_after,
            r,
        ),
    ensures
        engine.latest is Some ==> engine_after.latest is Some,
        engine.ticks.len() > 0 || r ==> engine_after.ticks.len() > 0,
        r ==> ({
            let fuser = before.fuser();
            let closed = routed(fuser.open(), fuser.place_of(tick, local_wall), tick, now).1;
            closed matches Some(b) ==> bucket_centre(
                b.id as int,
                fuser.config().bucket_width_micros as int,
            ) >= EARLIEST_MICROS ==> engine_after.latest is Some
        }),
{
    if r {
        let fuser = before.fuser();
        let closed = routed(fuser.open(), fuser.place_of(tick, local_wall), tick, now).1;
        let width = fuser.config().bucket_width_micros as int;
        let mid = DownstreamView { engine: engine.stored(tick), ..before.downstream(engine) };
        let rates = rates_of::<N>(
            before.dedup().metrics@.flushed(now).counted(Verdict::Accepted, now),
        );
        if let Some(b) = closed {
            if bucket_centre(b.id as int, width) >= EARLIEST_MICROS {
                let end = after.downstream(engine_after);
                let fused = choose|fused: FusedTick<N>|
                    {
                        &&& #[trigger] fuses(b.ticks, bucket_centre(b.id as int, width), fused)
                        &&& digested(mid, fused, before.steps(), trend, forecast, rates, end)
                    };
                let (v, averages, snap) = choose|
                    v: FeatureVector<N>,
                    averages: Seq<TrendSignal<N>>,
                    snap: PredictionSnapshot<N>,
                | #[trigger]
                    digested_as(
                        mid,
                        fused,
                        before.steps(),
                        trend,
                        forecast,
                        rates,
                        v,
                        averages,
                        snap,
                        end,
                    );
                assert(end.engine == mid.engine.published(rated(snap, rates)@));
            }
        }
    }
}

} // verus!
