use btc_prediction_engine::dedup::{FilterConfig, TickFilter, Verdict};
use btc_prediction_engine::engine::{EngineConfig, PredictionEngine};
use btc_prediction_engine::features::FeatureVector;
use btc_prediction_engine::models::{ForecastModelExt, TrendModelExt};
use btc_prediction_engine::number::{Analytic, Fixed, Number};
use btc_prediction_engine::pipeline::{
    with_rates, DedupStage, FeedHealthTracker, MetricsAcc, ModelStage, Pipeline, PipelineConfig,
    Rates,
};
use btc_prediction_engine::price_fusion::{Bucket, FusionConfig, NtpCorrector, PriceFuser};
use btc_prediction_engine::query::QueryEngine;
use btc_prediction_engine::span::Span;
use btc_prediction_engine::types::{
    BookSnapshot, EngineError, Exchange, Level, ShortTermForecast, Symbol, Tick, TimeScale,
    TradeSide, TrendDirection, TrendSignal,
};

/// Binary floats as the engine's numbers.
#[derive(Clone, Copy, Debug, PartialEq, PartialOrd)]
struct F(f64);

impl Number for F {
    fn from_int(n: i128) -> Self { F(n as f64) }
    fn ratio(num: i64, den: i64) -> Self { F(num as f64 / den as f64) }
    fn add(self, o: Self) -> Self { F(self.0 + o.0) }
    fn sub(self, o: Self) -> Self { F(self.0 - o.0) }
    fn mul(self, o: Self) -> Self { F(self.0 * o.0) }
    fn div(self, o: Self) -> Self { F(self.0 / o.0) }
    fn abs(self) -> Self { F(self.0.abs()) }
    fn signum(self) -> Self { F(self.0.signum()) }
    fn max(self, o: Self) -> Self { F(self.0.max(o.0)) }
    fn min(self, o: Self) -> Self { F(self.0.min(o.0)) }
    fn lowest() -> Self { F(f64::NEG_INFINITY) }
    fn highest() -> Self { F(f64::INFINITY) }
    fn below(self, o: Self) -> bool { self.0 < o.0 }
    fn at_most(self, o: Self) -> bool { self.0 <= o.0 }
    fn same(self, o: Self) -> bool { self.0 == o.0 }
    fn round(self) -> i64 { self.0.round() as i64 }
    fn trunc(self) -> i64 { self.0 as i64 }
}

impl Analytic for F {
    fn ln(self) -> Self { F(self.0.ln()) }
    fn exp(self) -> Self { F(self.0.exp()) }
    fn tanh(self) -> Self { F(self.0.tanh()) }
    fn sqrt(self) -> Self { F(self.0.sqrt()) }
}

/// A trend model that always says the same.
struct Steady;

impl TrendModelExt<F> for Steady {
    fn predict(&self, features: &FeatureVector<F>, scale: TimeScale) -> TrendSignal<F> {
        TrendSignal {
            direction: TrendDirection::Bearish,
            confidence: F(0.5),
            scale,
            computed_at: features.ts_micros,
        }
    }
}

/// A forecast model that always says the same.
struct Flat;

impl ForecastModelExt<F> for Flat {
    fn forecast(&self, features: &FeatureVector<F>, step_secs: u32, n_steps: usize)
        -> ShortTermForecast<F> {
        ShortTermForecast {
            step_secs,
            deltas: vec![F(0.0); n_steps],
            confidence: vec![F(1.0); n_steps],
            generated_at: features.ts_micros,
        }
    }
}

const NO_TREND: Option<Steady> = None;
const NO_FORECAST: Option<Flat> = None;

fn tick(ts: i64, price: f64, id: &str, ex: Exchange) -> Tick<F> {
    Tick {
        ts_micros: ts,
        price: F(price),
        quantity: F(0.01),
        side: Some(TradeSide::Buy),
        exchange: ex,
        symbol: Symbol::BtcUsd,
        trade_id: id.to_string(),
    }
}

fn trade(
    exchange: Exchange,
    ts_micros: i64,
    price: f64,
    qty: f64,
    side: Option<TradeSide>,
) -> Tick<F> {
    Tick {
        ts_micros,
        price: F(price),
        quantity: F(qty),
        side,
        exchange,
        symbol: Symbol::BtcUsd,
        trade_id: ts_micros.to_string(),
    }
}

/// An engine and its pipeline after `n` ticks, one a second.
fn seeded(n: usize) -> (PredictionEngine<F>, Pipeline<F>) {
    let config: EngineConfig<F> = EngineConfig::default();
    let mut engine = PredictionEngine::start(&config);
    let mut pipeline = Pipeline::new(config.pipeline, 0);
    let base = 1_700_000_000_000_000i64;
    for i in 0..n {
        let tick = Tick {
            ts_micros: base + i as i64 * 1_000_000,
            price: F(50_000.0 + i as f64 * 5.0),
            quantity: F(0.01),
            side: Some(TradeSide::Buy),
            exchange: Exchange::Binance,
            symbol: Symbol::BtcUsd,
            trade_id: i.to_string(),
        };
        let wall = tick.ts_micros + 20_000;
        let now = i as i64 * 1_000_000_000;
        pipeline.inject_tick(&mut engine, &tick, &NO_TREND, &NO_FORECAST, wall, now);
    }
    pipeline.on_timer(&mut engine, &NO_TREND, &NO_FORECAST, n as i64 * 1_000_000_000);
    (engine, pipeline)
}

// Dedup and outlier filter

#[test]
fn dedup_same_id() {
    let mut f = TickFilter::new(FilterConfig::default());
    let t1 = tick(1_000_000, 50_000.0, "abc", Exchange::Binance);
    assert!(f.accept(&t1));
    let t2 = tick(1_050_000, 50_001.0, "abc", Exchange::Binance);
    assert!(!f.accept(&t2));
    assert_eq!(f.dedup_count, 1);
}

#[test]
fn different_exchanges_same_id_allowed() {
    let mut f = TickFilter::new(FilterConfig::default());
    assert!(f.accept(&tick(1_000_000, 50_000.0, "123", Exchange::Binance)));
    assert!(f.accept(&tick(1_010_000, 50_001.0, "123", Exchange::Kraken)));
}

#[test]
fn outlier_rejected() {
    let mut f = TickFilter::new(FilterConfig::default());
    for i in 0..20u64 {
        f.accept(&tick(i as i64 * 1_000_000, 50_000.0, &i.to_string(), Exchange::Binance));
    }
    f.set_ewma_variance(F(0.0001));
    let spike = tick(21_000_000, 50_200.0, "spike", Exchange::Binance);
    assert!(!f.accept(&spike));
    assert_eq!(f.outlier_count, 1);
}

#[test]
fn duplicates_expire_with_the_window() {
    let mut f = TickFilter::new(FilterConfig::default());
    assert!(f.accept(&tick(1_000_000, 50_000.0, "abc", Exchange::Binance)));
    assert!(!f.accept(&tick(1_200_000, 50_000.0, "abc", Exchange::Binance)));
    assert!(f.accept(&tick(1_200_001, 50_000.0, "abc", Exchange::Binance)));
    assert_eq!(f.dedup_count, 1);
}

#[test]
fn near_duplicates_collapse_across_exchanges() {
    let mut f = TickFilter::new(FilterConfig::default());
    assert!(f.accept(&tick(1_000_000, 50_000.0, "1", Exchange::Binance)));
    assert!(!f.accept(&tick(1_100_000, 50_000.03, "2", Exchange::Kraken)));
    assert_eq!(f.dedup_count, 1);
    // The same exchange reports two alike trades under two IDs.
    assert!(f.accept(&tick(1_100_000, 50_000.03, "3", Exchange::Binance)));
    // Too far in price, in quantity, in time.
    assert!(f.accept(&tick(1_100_000, 50_000.5, "4", Exchange::Kraken)));
    let mut larger = tick(1_100_000, 50_000.0, "5", Exchange::Bitstamp);
    larger.quantity = F(0.05);
    assert!(f.accept(&larger));
    assert!(f.accept(&tick(1_400_000, 50_000.0, "6", Exchange::Kraken)));
}

#[test]
fn outliers_are_measured_from_the_median() {
    let mut f = TickFilter::new(FilterConfig::default());
    for (i, p) in [100.0, 200.0, 300.0, 1_000.0].iter().enumerate() {
        assert!(f.accept(&tick(i as i64 * 1_000_000, *p, &i.to_string(), Exchange::Binance)));
    }
    // The median is 250, and the threshold a tenth of the price.
    f.set_ewma_variance(F(0.01));
    assert_eq!(f.judge(&tick(9_000_000, 300.0, "a", Exchange::Binance)), Verdict::Outlier);
    assert_eq!(f.judge(&tick(9_500_000, 260.0, "b", Exchange::Binance)), Verdict::Accepted);
    // Now five prices: the median is 260.
    assert_eq!(f.judge(&tick(10_000_000, 285.0, "c", Exchange::Binance)), Verdict::Accepted);
    assert_eq!(f.outlier_count, 1);
}

#[test]
fn dedup_stage_counts_its_verdicts() {
    let mut stage = DedupStage::new(FilterConfig::default(), 0);
    assert_eq!(stage.step(&tick(0, 100.0, "a", Exchange::Binance), 0), Verdict::Accepted);
    assert_eq!(stage.step(&tick(1, 100.0, "a", Exchange::Binance), 1), Verdict::Duplicate);
    stage.filter.set_ewma_variance(F(0.001));
    assert_eq!(stage.step(&tick(2, 200.0, "b", Exchange::Binance), 2), Verdict::Outlier);
    let before: Rates<F> = stage.metrics.rates();
    assert_eq!((before.dedup_rate, before.outlier_rate), (F(0.0), F(0.0)));
    // A second later the counts are those of the last second.
    stage.step(&tick(3_000_000, 100.0, "c", Exchange::Binance), 1_000_000_000);
    let rates: Rates<F> = stage.metrics.rates();
    assert_eq!((rates.dedup_rate, rates.outlier_rate), (F(1.0), F(1.0)));
    assert_eq!(rates.tick_rate, F(1.0));
}

// Price fusion

#[test]
fn single_exchange_bucket() {
    let mut fuser = PriceFuser::new(FusionConfig::default());
    let base = 1_700_000_000_000_000i64;
    let wall = base + 3_600_000_000;
    let t = |ts, price, qty, side| trade(Exchange::Binance, ts, price, qty, side);
    let first = t(base, 50_000.0, 1.0, Some(TradeSide::Buy));
    let second = t(base + 50_000, 50_100.0, 2.0, Some(TradeSide::Sell));
    let third = t(base + 100_000, 50_050.0, 1.0, None);
    assert!(fuser.on_tick(&first, wall, 0).is_none());
    assert!(fuser.on_tick(&second, wall, 1).is_none());
    assert_eq!(fuser.open_len(), 2);
    let fused = fuser.on_tick(&third, wall, 2).unwrap();
    assert!((fused.price.0 - 50_066.67).abs() < 1.0, "price={}", fused.price.0);
    assert!((fused.volume.0 - 3.0).abs() < 1e-9);
    assert_eq!(fused.tick_count, 2);
    assert_eq!(fused.exchange_count, 1);
    assert_eq!(fused.cross_exchange_spread, F(0.0));
    // Half a second of offset, then the middle of the bucket.
    assert_eq!(fused.ts_micros, base + 550_000);
}

#[test]
fn multi_exchange_fusion() {
    let mut fuser = PriceFuser::new(FusionConfig::default());
    let base = 1_700_000_100_000_000i64;
    let wall = base + 3_600_000_000;
    let ticks = [
        trade(Exchange::Binance, base, 50_000.0, 2.0, Some(TradeSide::Buy)),
        trade(Exchange::Kraken, base + 10_000, 50_100.0, 1.0, Some(TradeSide::Sell)),
        trade(Exchange::Bitstamp, base + 20_000, 50_050.0, 1.0, None),
    ];
    for t in ticks.iter() {
        assert!(fuser.on_tick(t, wall, 0).is_none());
    }
    let next = trade(Exchange::Binance, base + 100_000, 50_000.0, 0.1, None);
    let fused = fuser.on_tick(&next, wall, 0).unwrap();
    assert!((fused.price.0 - 50_037.5).abs() < 1.0, "price={}", fused.price.0);
    assert_eq!(fused.exchange_count, 3);
    assert!(fused.cross_exchange_spread.0 > 0.0);
    assert!((fused.buy_ratio.unwrap().0 - 0.5).abs() < 1e-9);
    assert_eq!(fused.cross_exchange_spread, F(100.0));
    assert_eq!(fused.exchange_prices.get(Exchange::Kraken), Some(F(50_100.0)));
    assert_eq!(fused.spread_pct(), F(100.0 / fused.price.0));
}

#[test]
fn ntp_corrector_converges() {
    let mut c = NtpCorrector::new(F(0.05), 500_000);
    let base_ts = 1_700_000_000_000_000i64;
    let drift = 30_000i64;
    let make = |ts: i64| trade(Exchange::Kraken, ts, 50_000.0, 0.1, None);
    for i in 0..60i64 {
        let t = make(base_ts + i * 1_000_000 + drift);
        let _ = c.correct(&t, base_ts + i * 1_000_000);
    }
    let offset = c.offset_micros(Exchange::Kraken);
    assert!(offset.abs() <= 500_000, "offset out of range: {offset}");
    assert_eq!(offset, -drift);
    assert_eq!(c.offset_micros(Exchange::Binance), 0);
    assert_eq!(c.estimate(Exchange::Binance), None);
}

#[test]
fn ntp_corrector_smooths_and_clamps() {
    let mut c = NtpCorrector::new(F(0.5), 500_000);
    let t = trade(Exchange::Binance, 1_000_000, 1.0, 1.0, None);
    // The first sample starts the offset.
    assert_eq!(c.correct(&t, 1_100_000), Some(1_100_000));
    // Half of the way to the next sample.
    assert_eq!(c.correct(&t, 1_200_000), Some(1_150_000));
    // A wild sample counts as half a second.
    assert_eq!(c.correct(&t, 900_000_000), Some(1_000_000 + 325_000));
    let far = trade(Exchange::Coinbase, i64::MAX, 1.0, 1.0, None);
    assert_eq!(c.correct(&far, i64::MIN), Some(i64::MAX - 500_000));
    let early = trade(Exchange::Kraken, i64::MIN, 1.0, 1.0, None);
    assert_eq!(c.correct(&early, i64::MIN + 7), Some(i64::MIN + 7));
    let late = trade(Exchange::Bitstamp, i64::MAX, 1.0, 1.0, None);
    assert_eq!(c.correct(&late, i64::MAX), Some(i64::MAX));
}

#[test]
fn bucket_vwap() {
    let mut b = Bucket::new(0, 0);
    assert!(b.is_empty());
    b.add(&trade(Exchange::Binance, 0, 100.0, 1.0, Some(TradeSide::Buy)));
    b.add(&trade(Exchange::Binance, 1, 200.0, 3.0, Some(TradeSide::Sell)));
    let ft = b.flush(100_000);
    assert!((ft.price.0 - 175.0).abs() < 1e-9);
    assert!((ft.buy_ratio.unwrap().0 - 0.25).abs() < 1e-9);
    assert_eq!(ft.ts_micros, 50_000);
    assert_eq!(ft.notional, F(700.0));
}

#[test]
fn lone_tick_bucket_has_its_price() {
    let mut b: Bucket<Fixed> = Bucket::new(7, 0);
    b.add(&Tick {
        ts_micros: 0,
        price: Fixed::ratio(5_012_345, 100),
        quantity: Fixed::from_int(3),
        side: None,
        exchange: Exchange::Bitstamp,
        symbol: Symbol::BtcUsd,
        trade_id: "1".to_string(),
    });
    let ft = b.flush(100_000);
    assert_eq!(ft.price, Fixed::ratio(5_012_345, 100));
    assert_eq!(ft.exchange_count, 1);
    assert_eq!(ft.ts_micros, 750_000);
}

#[test]
fn bucket_without_volume_has_no_price() {
    let mut b = Bucket::new(-1, 10);
    b.add(&trade(Exchange::Binance, 0, 100.0, 0.0, Some(TradeSide::Buy)));
    let ft = b.flush(100_000);
    assert_eq!(ft.price, F(0.0));
    assert!(ft.buy_ratio.is_none());
    assert_eq!(ft.spread_pct(), F(0.0));
    assert_eq!(ft.ts_micros, -50_000);
    assert_eq!(b.age(15), 5);
    assert_eq!(b.age(5), 0);
}

#[test]
fn fuser_flushes_by_age_and_on_close() {
    let config = FusionConfig { max_bucket_age: Span::from_millis(150), ..FusionConfig::default() };
    let mut fuser = PriceFuser::new(config);
    assert!(fuser.on_timer(1_000_000_000).is_none());
    let t = trade(Exchange::Binance, 1_000_000, 100.0, 1.0, None);
    fuser.on_tick(&t, 1_000_000, 0);
    assert!(fuser.on_timer(149_999_999).is_none());
    assert_eq!(fuser.on_timer(150_000_000).unwrap().tick_count, 1);
    assert!(fuser.on_close().is_none());
    fuser.on_tick(&t, 1_000_000, 0);
    assert_eq!(fuser.on_close().unwrap().price, F(100.0));
    assert_eq!(fuser.open_len(), 0);
    let offsets = fuser.ntp_offsets();
    assert_eq!(offsets.binance, Some(0));
    assert_eq!(offsets.kraken, None);
}

#[test]
fn fuser_passes_over_times_without_a_bucket() {
    let mut fuser = PriceFuser::new(FusionConfig::default());
    let t = trade(Exchange::Binance, i64::MIN, 100.0, 1.0, None);
    assert!(fuser.on_tick(&t, i64::MIN, 0).is_none());
    assert_eq!(fuser.open_len(), 0);
}

#[test]
fn every_tick_ends_up_in_one_bucket() {
    let mut fuser = PriceFuser::new(FusionConfig::default());
    let mut counted = 0;
    for i in 0..100i64 {
        let ts = 1_000_000_000 + i * 37_000;
        if let Some(f) = fuser.on_tick(&trade(Exchange::Kraken, ts, 1.0, 1.0, None), ts, i) {
            counted += f.tick_count;
        }
    }
    counted += fuser.on_close().unwrap().tick_count;
    assert_eq!(counted, 100);
}

// Health, metrics, models

#[test]
fn feeds_go_stale_when_silent() {
    let mut health = FeedHealthTracker::new();
    assert_eq!(health.connected_count(), 0);
    health.record_tick(Exchange::Binance, 0);
    health.record_tick(Exchange::Kraken, 5_000_000_000);
    assert_eq!(health.connected_count(), 2);
    health.sweep_stale(10_000_000_000);
    assert_eq!(health.connected_count(), 2);
    health.sweep_stale(10_000_000_001);
    assert_eq!(health.connected_count(), 1);
    health.record_tick(Exchange::Binance, 11_000_000_000);
    assert_eq!(health.connected_count(), 2);
}

#[test]
fn tick_rate_over_ten_seconds() {
    let mut m = MetricsAcc::new(0);
    assert_eq!(m.tick_rate::<F>(), F(0.0));
    for i in 0..=20i64 {
        m.record_tick(i * 1_000_000_000);
    }
    assert_eq!(m.tick_rate::<F>(), F(1.0));
    m.record_dedup();
    m.record_outlier();
    m.flush_if_needed(999_999_999);
    assert_eq!(m.rates::<F>().dedup_rate, F(0.0));
    m.flush_if_needed(1_000_000_000);
    assert_eq!(m.rates::<F>().outlier_rate, F(1.0));
}

#[test]
fn trained_models_take_over_and_the_baseline_stays() {
    let config: EngineConfig<F> = EngineConfig::default();
    let mut engine = PredictionEngine::start(&config);
    let mut pipeline = Pipeline::new(config.pipeline, 0);
    let (trend, forecast) = (Some(Steady), Some(Flat));
    for i in 0..5i64 {
        let t = trade(Exchange::Binance, i * 1_000_000, 100.0 + i as f64, 1.0, None);
        pipeline.inject_tick(&mut engine, &t, &trend, &forecast, i * 1_000_000, i);
    }
    let snap = engine.latest_snapshot().unwrap();
    assert!(snap.model_active);
    assert_eq!(snap.micro.direction, TrendDirection::Bearish);
    assert_eq!(snap.fused_direction, TrendDirection::Bearish);
    assert_eq!(snap.fused_confidence, F(1.0));
    assert_eq!(snap.heuristic.micro.direction, TrendDirection::Bullish);
    assert_eq!(snap.forecasts.get(&5).unwrap().confidence, vec![F(1.0); 6]);
}

#[test]
fn without_a_model_the_baseline_is_primary() {
    let (engine, _) = seeded(20);
    let snap = engine.latest_snapshot().unwrap();
    assert!(!snap.model_active);
    assert_eq!(snap.short.confidence, snap.heuristic.short.confidence);
    assert_eq!(snap.fused_direction, snap.heuristic.fused_direction);
    assert_eq!(snap.fused_confidence, snap.heuristic.fused_confidence);
    let mut steps: Vec<u32> = snap.forecasts.keys().copied().collect();
    steps.sort();
    assert_eq!(steps, vec![5, 30]);
    assert_eq!(snap.forecasts.get(&30).unwrap().deltas.len(), 10);
    assert_eq!(snap.metrics.tick_rate, F(1.0));
}

#[test]
fn later_forecast_of_a_step_size_counts() {
    let mut stage: ModelStage<F> = ModelStage::new(vec![(5, 1), (5, 3)]);
    let (engine, mut pipeline) = seeded(1);
    assert_eq!(engine.prediction_count(), 1);
    let mut other = PredictionEngine::start(&EngineConfig::default());
    let t = trade(Exchange::Binance, 1_700_000_009_000_000, 50_000.0, 1.0, None);
    pipeline.inject_tick(&mut other, &t, &NO_TREND, &NO_FORECAST, t.ts_micros, 0);
    pipeline.on_timer(&mut other, &NO_TREND, &NO_FORECAST, 1_000_000_000);
    let mut features = btc_prediction_engine::features::FeatureState::new();
    let mut fuser = PriceFuser::new(FusionConfig::default());
    fuser.on_tick(&t, t.ts_micros, 0);
    let v = features.update_from_fused(&fuser.on_close().unwrap());
    let snap = stage.infer(&v, &NO_TREND, &NO_FORECAST, 2);
    assert_eq!(snap.forecasts.len(), 1);
    assert_eq!(snap.forecasts.get(&5).unwrap().deltas.len(), 3);
    assert_eq!(snap.metrics.connected_feeds, 2);
    let rated = with_rates(
        snap,
        Rates { tick_rate: F(1.0), dedup_rate: F(2.0), outlier_rate: F(3.0) },
    );
    assert_eq!(rated.metrics.outlier_rate, F(3.0));
    assert_eq!(rated.metrics.connected_feeds, 2);
}

#[test]
fn books_reach_the_snapshots() {
    let (mut engine, mut pipeline) = seeded(3);
    let at = 1_700_000_003_000_000i64;
    pipeline.on_book(&BookSnapshot {
        ts_micros: at,
        exchange: Exchange::Kraken,
        symbol: Symbol::BtcUsd,
        bids: vec![Level { price: F(100.0), qty: F(1.0) }],
        asks: vec![Level { price: F(101.0), qty: F(1.0) }],
    });
    let before = engine.prediction_count();
    let t = trade(Exchange::Binance, at, 50_000.0, 1.0, None);
    assert!(pipeline.inject_tick(&mut engine, &t, &NO_TREND, &NO_FORECAST, at, 4_000_000_000));
    pipeline.on_timer(&mut engine, &NO_TREND, &NO_FORECAST, 5_000_000_000);
    assert_eq!(engine.prediction_count(), before + 1);
}

#[test]
fn default_configuration() {
    let config: EngineConfig<F> = EngineConfig::default();
    assert_eq!(config.tick_capacity, 1_500_000);
    assert_eq!(config.pred_capacity, 100_000);
    let p: PipelineConfig<F> = config.pipeline;
    assert_eq!(p.forecast_steps, vec![(5, 6), (30, 10)]);
    assert_eq!(p.broadcast_cap, 4_096);
    assert_eq!(p.filter.dedup_window_micros, 200_000);
    assert_eq!(p.filter.price_tolerance_usd, F(0.05));
    assert_eq!(p.filter.qty_tolerance_btc, F(0.001));
    assert_eq!(p.filter.spike_k, F(10.0));
    assert_eq!(p.filter.median_window, 20);
    assert_eq!(p.fusion.bucket_width_micros, 100_000);
    assert_eq!(p.fusion.max_bucket_age, Span::from_millis(150));
    assert_eq!(p.fusion.ntp_alpha, F(0.05));
    assert_eq!(p.fusion.max_offset_micros, 500_000);
}

#[test]
fn spikes_are_rejected_once_volatility_is_known() {
    let (mut engine, mut pipeline) = seeded(1);
    let base = 1_700_000_000_000_000i64;
    let mut inject = |i: i64, price: f64, id: &str| {
        let t = tick(base + i * 1_000_000, price, id, Exchange::Binance);
        let wall = t.ts_micros + 20_000;
        pipeline.inject_tick(&mut engine, &t, &NO_TREND, &NO_FORECAST, wall, i * 1_000_000_000)
    };
    // One fused tick has no return, and nothing is a spike yet.
    assert!(inject(1, 50_005.0, "a"));
    assert!(inject(2, 50_010.0, "b"));
    // Now the volatility is near 0.001: ten times that is one percent.
    assert!(!inject(3, 51_000.0, "c"));
    assert!(inject(4, 50_400.0, "d"));
    assert!(!inject(5, 49_000.0, "e"));
    assert_eq!(engine.tick_count(), 4);
    assert!(engine.latest_snapshot().is_some());
}

#[test]
fn published_confidences_lie_between_zero_and_one() {
    let (engine, _) = seeded(60);
    let snaps = engine.pred_store().range(0, i64::MAX);
    assert!(snaps.len() > 50);
    for s in snaps.iter() {
        for c in [s.fused_confidence, s.heuristic.fused_confidence] {
            assert!(c.0 >= 0.0 && c.0 <= 1.0);
        }
    }
}

#[test]
fn corrections_stay_within_the_limit() {
    let mut c = NtpCorrector::new(F(0.3), 1_000);
    for i in 0..200i64 {
        let t = trade(Exchange::Kraken, i * 1_000_000, 1.0, 1.0, None);
        let wall = t.ts_micros + (i * 7_919 % 5_003) - 2_500;
        let moved = c.correct(&t, wall).unwrap() - t.ts_micros;
        assert!(moved.abs() <= 1_000);
        if i == 0 {
            assert_eq!(moved, -1_000);
        }
        assert!(c.offset_micros(Exchange::Kraken).abs() <= 1_000);
    }
}

#[test]
fn second_bucket_of_a_replay_gives_a_snapshot() {
    let config: EngineConfig<F> = EngineConfig::default();
    let mut engine = PredictionEngine::start(&config);
    let mut pipeline = Pipeline::new(config.pipeline, 0);
    let base = 1_700_000_000_000_000i64;
    // The wall clock is years away from the ticks: all of them move by the limit.
    let wall = base + 90_000_000_000_000;
    for i in 0..50i64 {
        let t = tick(base + i * 1_000_000, 50_000.0 + i as f64 * 5.0, &i.to_string(), Exchange::Binance);
        assert!(pipeline.inject_tick(&mut engine, &t, &NO_TREND, &NO_FORECAST, wall + i, i));
        assert_eq!(engine.latest_snapshot().is_some(), i > 0);
        assert!(engine.latest_price().unwrap().0 > 0.0);
    }
    // Each tick but the last has closed its bucket, in the middle of which its time lies.
    assert_eq!(engine.prediction_count(), 49);
    let last = engine.latest_snapshot().unwrap();
    assert_eq!(last.snapshot_at, base + 48 * 1_000_000 + 550_000);
    // Every confidence is a number between 0 and 1.
    let signals = [last.micro, last.short, last.medium, last.broad];
    let forecast = last.forecasts.values().flat_map(|f| f.confidence.iter().copied());
    for c in signals.iter().map(|s| s.confidence).chain(forecast).chain([last.fused_confidence]) {
        assert!(0.0 <= c.0 && c.0 <= 1.0);
    }
}

#[test]
fn offsets_are_smoothed_across_injected_ticks() {
    let mut config: EngineConfig<F> = EngineConfig::default();
    config.pipeline.fusion.ntp_alpha = F(0.5);
    let mut engine = PredictionEngine::start(&config);
    let mut pipeline = Pipeline::new(config.pipeline, 0);
    let t = |i: i64| tick(i * 1_000_000, 100.0, &i.to_string(), Exchange::Kraken);
    // Samples of 0 and 400 ms: the second tick is moved by half of that.
    pipeline.inject_tick(&mut engine, &t(1), &NO_TREND, &NO_FORECAST, 1_000_000, 0);
    pipeline.inject_tick(&mut engine, &t(2), &NO_TREND, &NO_FORECAST, 2_400_000, 0);
    assert_eq!(engine.latest_snapshot().unwrap().snapshot_at, 1_050_000);
    // The timer closes the bucket and leaves the offset: 200 ms, then 300 ms.
    pipeline.on_timer(&mut engine, &NO_TREND, &NO_FORECAST, 1_000_000_000);
    assert_eq!(engine.latest_snapshot().unwrap().snapshot_at, 2_250_000);
    pipeline.inject_tick(&mut engine, &t(3), &NO_TREND, &NO_FORECAST, 3_400_000, 0);
    pipeline.on_timer(&mut engine, &NO_TREND, &NO_FORECAST, 1_000_000_000);
    assert_eq!(engine.latest_snapshot().unwrap().snapshot_at, 3_350_000);
}

#[test]
fn corrections_stay_within_a_wide_limit() {
    let limit = 1_i64 << 45;
    let mut c = NtpCorrector::new(F(0.05), limit);
    for i in 0..100i64 {
        let t = trade(Exchange::Kraken, i, 1.0, 1.0, None);
        let wall = if i % 3 == 0 { i64::MIN / 2 } else { i64::MAX / 2 };
        let moved = c.correct(&t, wall).unwrap() - t.ts_micros;
        assert!(moved.abs() <= limit);
        if i == 0 {
            assert_eq!(moved, -limit);
        }
    }
}

#[test]
fn bucket_prices_lie_between_those_of_their_ticks() {
    let tick = |price: i64, qty: i64| Tick {
        ts_micros: 0,
        price: Fixed { units: price },
        quantity: Fixed { units: qty },
        side: None,
        exchange: Exchange::Binance,
        symbol: Symbol::BtcUsd,
        trade_id: String::new(),
    };
    let fuse = |ticks: Vec<Tick<Fixed>>| {
        let mut bucket: Bucket<Fixed> = Bucket::new(0, 0);
        for t in ticks.iter() {
            bucket.add(t);
        }
        bucket.flush(100_000).price.units
    };
    let one = 100_000_000;
    // Whole lots: (3 x 100 + 1 x 101) / 4.
    assert_eq!(fuse(vec![tick(100 * one, 3 * one), tick(101 * one, one)]), 10_025_000_000);
    // Small lots of an odd price lose a little.
    let odd = 4_999_999_999_999;
    let price = fuse(vec![tick(odd, 333), tick(odd, 777)]);
    assert!(price <= odd && (odd - price - 1) * 1_110 <= 2 * one);
}

#[test]
fn dropped_ticks_leave_the_engine_alone() {
    let (mut engine, mut pipeline) = seeded(3);
    let (ticks, snaps) = (engine.tick_count(), engine.prediction_count());
    let again = Tick { trade_id: "2".to_string(), ..tick(1_700_000_002_000_000, 1.0, "", Exchange::Binance) };
    assert!(!pipeline.inject_tick(&mut engine, &again, &NO_TREND, &NO_FORECAST, 0, 3_000_000_000));
    assert_eq!((engine.tick_count(), engine.prediction_count()), (ticks, snaps));
}

// Queries

#[test]
fn latest_after_inject() {
    let (engine, _) = seeded(50);
    let q = QueryEngine::new(&engine);
    assert!(q.latest().is_some());
    assert!(q.latest_price().unwrap().0 > 0.0);
}

#[test]
fn window_5m_covers_injected() {
    let (engine, _) = seeded(100);
    let q = QueryEngine::new(&engine);
    let w = q.window_5m().unwrap();
    assert!(w.tick_count > 0);
    assert!(w.ohlcv.is_some());
    assert_eq!(w.tick_count, 100);
}

#[test]
fn sub_windows_count() {
    let (engine, _) = seeded(120);
    let q = QueryEngine::new(&engine);
    let base = 1_700_000_000_000_000i64;
    let subs = q.sub_windows(base, base + 120 * 1_000_000, 10).unwrap();
    assert_eq!(subs.len(), 12);
    for (i, w) in subs.iter().enumerate() {
        assert_eq!(w.window_start, base + i as i64 * 10_000_000);
        assert_eq!(w.window_end, w.window_start + 10_000_000);
    }
}

#[test]
fn fused_returns_direction() {
    let (engine, _) = seeded(50);
    let q = QueryEngine::new(&engine);
    let (dir, conf) = q.fused().unwrap();
    assert!(conf.0 >= 0.0 && conf.0 <= 1.0);
    assert_eq!(dir, TrendDirection::Bullish);
}

#[test]
fn queries_on_an_empty_engine() {
    let engine: PredictionEngine<F> = PredictionEngine::start(&EngineConfig::default());
    let q = QueryEngine::new(&engine);
    assert!(q.latest().is_none() && q.latest_price().is_none() && q.fused().is_none());
    assert!(q.trend(TimeScale::Micro).is_none() && q.forecast_5s().is_none());
    assert!(q.at(0).is_none());
    assert!(matches!(q.window_30s(), Err(EngineError::EmptyBuffer)));
    assert!(matches!(q.window_1h(), Err(EngineError::EmptyBuffer)));
    assert!(matches!(q.window_24h(), Err(EngineError::EmptyBuffer)));
    assert!(matches!(q.sub_windows_5s_in_5m(), Err(EngineError::EmptyBuffer)));
    assert!(q.aggregate_trend_last(60).is_none());
    let w = q.window(0, 10).unwrap();
    assert!(w.ohlcv.is_none() && w.prediction.is_none());
    assert_eq!(w.tick_count, 0);
    assert_eq!((q.tick_count(), q.prediction_count(), q.connected_feeds()), (0, 0, 0));
}

#[test]
fn reversed_windows_and_steps_are_refused() {
    let (engine, _) = seeded(3);
    let q = QueryEngine::new(&engine);
    assert!(matches!(q.window(5, 4), Err(EngineError::NoDataInRange { start: 5, end: 4 })));
    match q.sub_windows(0, 10, 0) {
        Err(EngineError::Feature(detail)) => assert_eq!(detail, "step_secs must be > 0"),
        _ => panic!("a step of zero seconds was taken"),
    }
    assert!(q.sub_windows(10, 0, 1).unwrap().is_empty());
}

#[test]
fn windows_see_the_prediction_of_their_end() {
    let (engine, _) = seeded(60);
    let q = QueryEngine::new(&engine);
    let base = 1_700_000_000_000_000i64;
    let w = q.window(base, base + 9_500_000).unwrap();
    assert_eq!(w.tick_count, 10);
    let bar = w.ohlcv.unwrap();
    assert_eq!((bar.open, bar.close), (F(50_000.0), F(50_045.0)));
    let p = w.prediction.unwrap();
    assert!(p.snapshot_at <= base + 9_500_000);
    assert_eq!(p.snapshot_at, q.at(base + 9_500_000).unwrap().snapshot_at);
    let newest = engine.pred_store().latest().unwrap().snapshot_at;
    assert_eq!(engine.latest_snapshot().unwrap().snapshot_at, newest);
    let last = q.window_ending_latest(10).unwrap();
    assert_eq!(last.tick_count, 11);
    assert_eq!(q.window_ending_at(base + 9_000_000, 9).unwrap().tick_count, 10);
    assert_eq!(q.window_30s().unwrap().tick_count, 31);
}

#[test]
fn five_minutes_in_slices() {
    let (engine, _) = seeded(10);
    let q = QueryEngine::new(&engine);
    assert_eq!(q.sub_windows_5s_in_5m().unwrap().len(), 60);
    let slices = q.sub_windows_30s_in_5m().unwrap();
    assert_eq!(slices.len(), 10);
    assert!(slices[0].ohlcv.is_none());
    assert_eq!(slices[9].tick_count, 10);
}

#[test]
fn trends_and_forecasts_of_the_latest_snapshot() {
    let (engine, _) = seeded(60);
    let q = QueryEngine::new(&engine);
    let snap = q.latest().unwrap();
    assert_eq!(q.micro_trend().unwrap().confidence, snap.micro.confidence);
    assert_eq!(q.short_trend().unwrap().confidence, snap.short.confidence);
    assert_eq!(q.medium_trend().unwrap().scale, TimeScale::Medium);
    assert_eq!(q.broad_trend().unwrap().scale, TimeScale::Broad);
    assert_eq!(q.forecast_5s().unwrap().deltas.len(), 6);
    assert_eq!(q.forecast_30s().unwrap().step_secs, 30);
    assert!(q.forecast(7).is_none());
    let (direction, share) = q.aggregate_trend_last(60).unwrap();
    assert_eq!(direction, TrendDirection::Bullish);
    assert!(share.0 > 0.0 && share.0 <= 1.0);
    assert!(q.aggregate_trend(0, 1).is_none());
}

#[test]
fn windows_that_end_now_lie_in_the_present() {
    let (engine, _) = seeded(3);
    let q = QueryEngine::new(&engine);
    let w = q.window_ending_now(60).unwrap();
    // After the start of 2024.
    assert!(w.window_end > 1_704_067_200_000_000);
    assert_eq!(w.window_end - w.window_start, 60_000_000);
    assert_eq!(w.tick_count, 0);
    assert!(q.window_ending_now(-1).is_err());
}

#[test]
fn engine_health_is_swept() {
    let mut engine: PredictionEngine<F> = PredictionEngine::start(&EngineConfig::default());
    engine.record_feed_tick(Exchange::Binance, 0);
    assert_eq!(engine.connected_feeds(), 1);
    engine.sweep_stale_feeds(20_000_000_000);
    assert_eq!(engine.connected_feeds(), 0);
    assert_eq!(engine.tick_store().len(), 0);
    assert_eq!(engine.pred_store().len(), 0);
}
