use btc_prediction_engine::features::FeatureVector;
use btc_prediction_engine::models::{
    blend, Ema, HeuristicDirectionClassifier, MomentumExtrapolator, MultiScaleTrendModel,
    SignalFuser,
};
use btc_prediction_engine::number::{Analytic, Number};
use btc_prediction_engine::types::{TimeScale, TrendDirection, TrendSignal};
use btc_prediction_engine::votes::Votes;

/// Binary floats as the engine's numbers.
#[derive(Clone, Copy, Debug, PartialEq, PartialOrd)]
struct F(f64);

impl Number for F {
    fn from_int(n: i128) -> Self { F(n as f64) }
    fn ratio(num: i64, den: i64) -> Self { F(num as f64 / den as f64) }
    fn add(self, o: Self) -> Self { F(self.0 + o.0) }
    fn sub(self, o: Self) -> Self { F(self.0 - o.0) }
    fn mul(self, o: Self) -> Self { F(self.0 * o.0) }
    fn div(self, o: Self) -> Self { F(self.0 / o.0) }
    fn abs(self) -> Self { F(self.0.abs()) }
    fn signum(self) -> Self { F(self.0.signum()) }
    fn max(self, o: Self) -> Self { F(self.0.max(o.0)) }
    fn min(self, o: Self) -> Self { F(self.0.min(o.0)) }
    fn lowest() -> Self { F(f64::NEG_INFINITY) }
    fn highest() -> Self { F(f64::INFINITY) }
    fn below(self, o: Self) -> bool { self.0 < o.0 }
    fn at_most(self, o: Self) -> bool { self.0 <= o.0 }
    fn same(self, o: Self) -> bool { self.0 == o.0 }
    fn round(self) -> i64 { self.0.round() as i64 }
    fn trunc(self) -> i64 { self.0 as i64 }
}

impl Analytic for F {
    fn ln(self) -> Self { F(self.0.ln()) }
    fn exp(self) -> Self { F(self.0.exp()) }
    fn tanh(self) -> Self { F(self.0.tanh()) }
    fn sqrt(self) -> Self { F(self.0.sqrt()) }
}

fn vector(price: f64) -> FeatureVector<F> {
    FeatureVector {
        ts_micros: 7,
        price: F(price),
        return_5s: None,
        return_30s: None,
        return_300s: None,
        vol_30s: None,
        vol_300s: None,
        vol_1800s: None,
        vol_ratio: None,
        ofi_5s: F(0.0),
        ofi_30s: F(0.0),
        ofi_300s: F(0.0),
        ofi_delta_30s: F(0.0),
        buy_ratio_30s: F(0.5),
        buy_ratio_300s: F(0.5),
        vwap_dev_30s: None,
        vwap_dev_300s: None,
        volume_ratio: None,
        tick_velocity: F(0.0),
        activity_regime: F(1.0),
        spread_pct: F(0.0),
        book_imbalance_5: None,
        book_imbalance_full: None,
        book_spread_pct: None,
        book_pressure: None,
        trend_strength: None,
        vol_regime: None,
        zreturn_30s: None,
        zreturn_300s: None,
        vol_1800s_variance: F(0.0),
        rsi_14: None,
        vwap_deviation: None,
        momentum_micro: None,
        momentum_short: None,
        ewma_vol_tick: None,
        ewma_variance: F(0.0),
        autocorr_lag1: None,
        inter_exchange_spread: F(0.0),
        realised_vol_30s: None,
        book_imbalance_top5: None,
        book_weighted_mid: None,
        book_spread_usd: None,
    }
}

fn signal(direction: TrendDirection, confidence: f64, scale: TimeScale) -> TrendSignal<F> {
    TrendSignal { direction, confidence: F(confidence), scale, computed_at: 1 }
}

#[test]
fn ema_starts_at_the_first_value_and_follows() {
    let mut ema: Ema<F> = Ema::new(3);
    assert!(ema.value().is_none());
    assert_eq!(ema.update(F(10.0)), F(10.0));
    assert_eq!(ema.update(F(20.0)), F(15.0));
    assert_eq!(ema.value(), Some(F(15.0)));
}

#[test]
fn crossovers_follow_a_rise() {
    let mut model: MultiScaleTrendModel<F> = MultiScaleTrendModel::new();
    let flat = model.update(&vector(100.0));
    for s in flat.iter() {
        assert_eq!(s.direction, TrendDirection::Sideways);
        assert_eq!(s.confidence, F(0.0));
        assert_eq!(s.computed_at, 7);
    }
    let mut up = vector(110.0);
    up.momentum_micro = Some(F(0.1));
    up.momentum_short = Some(F(-0.1));
    let signals = model.update(&up);
    // Averages 100 + 10 x 2 / 6 and 100 + 10 x 2 / 21.
    let (fast, slow): (f64, f64) = (100.0 + (2.0 / 6.0) * 10.0, 100.0 + (2.0 / 21.0) * 10.0);
    let raw = (((fast - slow) / slow).abs() / 0.005).tanh();
    assert_eq!(signals[0].direction, TrendDirection::Bullish);
    assert_eq!(signals[0].confidence, F((raw * 1.2).min(1.0)));
    assert_eq!(signals[0].scale, TimeScale::Micro);
    // Momentum against the spread lowers the confidence.
    assert_eq!(signals[1].direction, TrendDirection::Bullish);
    let (fast, slow): (f64, f64) = (100.0 + (2.0 / 13.0) * 10.0, 100.0 + (2.0 / 61.0) * 10.0);
    let raw = (((fast - slow) / slow).abs() / 0.005).tanh();
    assert_eq!(signals[1].confidence, F(raw * 0.7));
    assert_eq!(signals[3].scale, TimeScale::Broad);
}

#[test]
fn heuristic_composite_of_known_scores() {
    let mut f = vector(50_000.0);
    f.rsi_14 = Some(F(75.0));
    f.momentum_micro = Some(F(0.02));
    f.ofi_30s = F(0.4);
    f.ofi_300s = F(0.8);
    f.vwap_deviation = Some(F(0.005));
    f.autocorr_lag1 = Some(F(0.5));
    let s = HeuristicDirectionClassifier::predict(&f, TimeScale::Short);
    // -0.125 + 0.3 + 0.2 + 0.05 + 0.05
    assert!((s.confidence.0 - 0.475).abs() < 1e-12);
    assert_eq!(s.direction, TrendDirection::Bullish);
    assert_eq!(s.scale, TimeScale::Short);
    f.inter_exchange_spread = F(51.0);
    let damped = HeuristicDirectionClassifier::predict(&f, TimeScale::Short);
    assert!((damped.confidence.0 - 0.38).abs() < 1e-12);
    let micro = HeuristicDirectionClassifier::predict(&f, TimeScale::Micro);
    assert!((micro.confidence.0 - 0.3).abs() < 1e-12);
}

#[test]
fn heuristic_reads_oversold_as_bullish_and_nothing_as_sideways() {
    let mut f = vector(50_000.0);
    let s = HeuristicDirectionClassifier::predict(&f, TimeScale::Broad);
    assert_eq!(s.direction, TrendDirection::Sideways);
    assert_eq!(s.confidence, F(0.0));
    f.rsi_14 = Some(F(20.0));
    let s = HeuristicDirectionClassifier::predict(&f, TimeScale::Broad);
    assert_eq!(s.direction, TrendDirection::Bullish);
    assert_eq!(s.confidence, F(0.125));
    f.rsi_14 = Some(F(40.0));
    f.ofi_300s = F(-1.0);
    let s = HeuristicDirectionClassifier::predict(&f, TimeScale::Broad);
    assert_eq!(s.direction, TrendDirection::Bearish);
    assert!((s.confidence.0 - 0.3).abs() < 1e-12);
}

#[test]
fn forecast_extrapolates_the_drift() {
    let mut f = vector(30_000.0);
    f.momentum_micro = Some(F(0.001));
    f.tick_velocity = F(4.0);
    f.ewma_vol_tick = Some(F(0.0001));
    let fc = MomentumExtrapolator::forecast(&f, 5, 6);
    assert_eq!(fc.step_secs, 5);
    assert_eq!(fc.generated_at, 7);
    assert_eq!(fc.deltas.len(), 6);
    assert_eq!(fc.confidence.len(), 6);
    // 0.001 x 30000 / 30 = 1 USD per second.
    assert!((fc.deltas[0].0 - 5.0).abs() < 1e-9);
    assert!((fc.deltas[5].0 - 30.0).abs() < 1e-9);
    let vol = 0.0001 * 20.0_f64.sqrt() * 30_000.0;
    let expected = (-5.0_f64 / 60.0).exp() * (5.0 / vol).min(1.0);
    assert!((fc.confidence[0].0 - expected).abs() < 1e-9);
    for c in fc.confidence.iter() {
        assert!(c.0 >= 0.0 && c.0 <= 1.0);
    }
}

#[test]
fn forecast_without_momentum_is_flat() {
    let fc = MomentumExtrapolator::forecast(&vector(30_000.0), 30, 2);
    assert_eq!(fc.deltas, vec![F(0.0), F(0.0)]);
    assert_eq!(fc.confidence, vec![F(0.0), F(0.0)]);
    // Without a price there is no volatility, and a middling ratio takes its place.
    let fc = MomentumExtrapolator::forecast(&vector(0.0), 60, 1);
    assert!((fc.confidence[0].0 - 0.5 * (-1.0_f64).exp()).abs() < 1e-12);
    assert!(MomentumExtrapolator::forecast(&vector(1.0), 5, 0).deltas.is_empty());
}

#[test]
fn fuser_weighs_the_scales() {
    let unanimous = [
        signal(TrendDirection::Bullish, 0.5, TimeScale::Micro),
        signal(TrendDirection::Bullish, 0.5, TimeScale::Short),
        signal(TrendDirection::Bullish, 0.5, TimeScale::Medium),
        signal(TrendDirection::Bullish, 0.5, TimeScale::Broad),
    ];
    let (d, c) = SignalFuser::fuse(&unanimous);
    assert_eq!(d, TrendDirection::Bullish);
    assert!((c.0 - 1.0).abs() < 1e-12);

    let mut conflict = unanimous;
    conflict[2].direction = TrendDirection::Bearish;
    conflict[3].direction = TrendDirection::Bearish;
    let (d, c) = SignalFuser::fuse(&conflict);
    assert_eq!(d, TrendDirection::Bullish);
    // Half of the weight, dampened by both longer scales.
    assert!((c.0 - 0.5 * 0.6).abs() < 1e-12);

    conflict[3].direction = TrendDirection::Sideways;
    let (d, c) = SignalFuser::fuse(&conflict);
    assert_eq!(d, TrendDirection::Bullish);
    assert!((c.0 - 0.5 * 0.85).abs() < 1e-12);

    let silent = [signal(TrendDirection::Bearish, 0.0, TimeScale::Micro); 4];
    assert_eq!(SignalFuser::fuse(&silent), (TrendDirection::Sideways, F(0.0)));
}

#[test]
fn blend_takes_the_heavier_side() {
    let a = signal(TrendDirection::Bullish, 0.5, TimeScale::Short);
    let b = signal(TrendDirection::Bearish, 0.5, TimeScale::Broad);
    let s = blend(&a, &b, F(0.6));
    assert_eq!(s.direction, TrendDirection::Bullish);
    assert!((s.confidence.0 - 0.6).abs() < 1e-12);
    assert_eq!(s.scale, TimeScale::Short);
    let none = blend(
        &signal(TrendDirection::Bearish, 0.0, TimeScale::Micro),
        &signal(TrendDirection::Bearish, 0.0, TimeScale::Micro),
        F(0.6),
    );
    assert_eq!(none.confidence, F(0.0));
}

#[test]
fn votes_break_ties_in_order() {
    let mut votes: Votes<F> = Votes::new();
    votes.cast(TrendDirection::Sideways, F(1.0));
    votes.cast(TrendDirection::Bearish, F(1.0));
    assert_eq!(votes.winner(), (TrendDirection::Bearish, F(1.0)));
    votes.cast(TrendDirection::Bullish, F(1.0));
    assert_eq!(votes.winner(), (TrendDirection::Bullish, F(1.0)));
    assert_eq!(votes.total(), F(3.0));
}

#[test]
fn forecasts_grow_no_more_certain() {
    let mut f = vector(50_000.0);
    f.momentum_micro = Some(F(0.004));
    f.ewma_vol_tick = Some(F(0.0002));
    let r = MomentumExtrapolator::forecast(&f, 5, 20);
    assert!(r.confidence[0].0 > 0.0);
    for w in r.confidence.windows(2) {
        assert!(w[1] <= w[0]);
    }
    assert!(r.confidence.iter().all(|c| !c.0.is_nan()));
}
