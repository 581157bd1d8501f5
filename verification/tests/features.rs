use btc_prediction_engine::features::state::FeatureVector;
use btc_prediction_engine::features::{
    ActivityRegime, BookImbalanceTracker, BookPressureTracker, FeatureState, OrderFlowImbalance,
    RealisedVol, RollingVwap, Rsi, SessionVwap, TickReturns, TickVelocity, WindowedReturn,
    BOOK_STALE_MICROS,
};
use btc_prediction_engine::features::book::BookQuote;
use btc_prediction_engine::number::{Analytic, Number};
use btc_prediction_engine::price_fusion::FusedTick;
use btc_prediction_engine::types::{
    BookSnapshot, Exchange, Level, PerExchange, Symbol, Tick, TradeSide,
};

/// Binary floats as the engine's numbers.
#[derive(Clone, Copy, Debug, PartialEq, PartialOrd)]
struct F(f64);

impl Number for F {
    fn from_int(n: i128) -> Self { F(n as f64) }
    fn ratio(num: i64, den: i64) -> Self { F(num as f64 / den as f64) }
    fn add(self, o: Self) -> Self { F(self.0 + o.0) }
    fn sub(self, o: Self) -> Self { F(self.0 - o.0) }
    fn mul(self, o: Self) -> Self { F(self.0 * o.0) }
    fn div(self, o: Self) -> Self { F(self.0 / o.0) }
    fn abs(self) -> Self { F(self.0.abs()) }
    fn signum(self) -> Self { F(self.0.signum()) }
    fn max(self, o: Self) -> Self { F(self.0.max(o.0)) }
    fn min(self, o: Self) -> Self { F(self.0.min(o.0)) }
    fn lowest() -> Self { F(f64::NEG_INFINITY) }
    fn highest() -> Self { F(f64::INFINITY) }
    fn below(self, o: Self) -> bool { self.0 < o.0 }
    fn at_most(self, o: Self) -> bool { self.0 <= o.0 }
    fn same(self, o: Self) -> bool { self.0 == o.0 }
    fn round(self) -> i64 { self.0.round() as i64 }
    fn trunc(self) -> i64 { self.0 as i64 }
}

impl Analytic for F {
    fn ln(self) -> Self { F(self.0.ln()) }
    fn exp(self) -> Self { F(self.0.exp()) }
    fn tanh(self) -> Self { F(self.0.tanh()) }
    fn sqrt(self) -> Self { F(self.0.sqrt()) }
}

fn fused(ts_micros: i64, price: f64, volume: f64, buy_ratio: Option<f64>) -> FusedTick<F> {
    let mut exchange_prices = PerExchange::new();
    exchange_prices.insert(Exchange::Binance, F(price));
    FusedTick {
        ts_micros,
        price: F(price),
        volume: F(volume),
        notional: F(price * volume),
        buy_ratio: buy_ratio.map(F),
        exchange_count: 1,
        tick_count: 1,
        exchange_prices,
        cross_exchange_spread: F(10.0),
        symbol: Symbol::BtcUsd,
    }
}

fn level(price: f64, qty: f64) -> Level<F> {
    Level { price: F(price), qty: F(qty) }
}

fn book(bids: Vec<Level<F>>, asks: Vec<Level<F>>, ts_micros: i64) -> BookSnapshot<F> {
    BookSnapshot { ts_micros, exchange: Exchange::Kraken, symbol: Symbol::BtcUsd, bids, asks }
}

#[test]
fn windowed_return_fills_then_reads() {
    let mut wr: WindowedReturn<F> = WindowedReturn::new(30);
    let base_ts = 0_i64;
    for i in 0..=35_i64 {
        wr.update(base_ts + i * 1_000_000, F(100.0 + i as f64));
    }
    let lp_now = F((135.0_f64).ln());
    assert!(wr.value(lp_now).is_some());
}

#[test]
fn windowed_return_not_ready_during_warmup() {
    let mut wr: WindowedReturn<F> = WindowedReturn::new(30);
    for i in 0..=10_i64 {
        wr.update(i * 1_000_000, F(100.0 + i as f64));
    }
    let lp_now = F((110.0_f64).ln());
    assert!(wr.value(lp_now).is_none());
}

#[test]
fn windowed_return_is_taken_from_a_horizon_ago() {
    let mut wr: WindowedReturn<F> = WindowedReturn::new(30);
    for i in 0..=35_i64 {
        wr.update(i * 1_000_000, F(100.0 + i as f64));
    }
    // The price 30 s before the 35th second is that of the 5th.
    let r = wr.value(F((135.0_f64).ln())).unwrap();
    assert_eq!(r, F((135.0_f64).ln() - (105.0_f64).ln()));
}

#[test]
fn windowed_return_skips_prices_without_logarithm() {
    let mut wr: WindowedReturn<F> = WindowedReturn::new(30);
    wr.update(0, F(0.0));
    wr.update(20_000_000, F(-1.0));
    assert!(wr.value(F(0.0)).is_none());
}

#[test]
fn realised_vol_seeding() {
    let mut rv: RealisedVol<F> = RealisedVol::new(30);
    rv.update_fused(0, F(100.0));
    rv.update_fused(1_000_000, F(101.0));
    assert!(rv.value().is_none());
    rv.update_fused(2_000_000, F(102.0));
    assert!(rv.value().is_some());
}

#[test]
fn realised_vol_is_the_sample_deviation() {
    let mut rv: RealisedVol<F> = RealisedVol::new(30);
    for (i, p) in [100.0, 101.0, 100.0].iter().enumerate() {
        rv.update_fused(i as i64 * 1_000_000, F(*p));
    }
    let (a, b) = ((101.0_f64 / 100.0).ln(), (100.0_f64 / 101.0).ln());
    let mean = (a + b) / 2.0;
    let expected = (((a - mean).powi(2) + (b - mean).powi(2)) / 1.0).sqrt();
    assert!((rv.value().unwrap().0 - expected).abs() < 1e-12);
}

#[test]
fn realised_vol_forgets_old_moves() {
    let mut rv: RealisedVol<F> = RealisedVol::new(30);
    for i in 0..3_i64 {
        rv.update_fused(i * 1_000_000, F(100.0 + i as f64));
    }
    assert!(rv.value().is_some());
    // One move inside the window is left.
    rv.update_fused(60_000_000, F(104.0));
    assert!(rv.value().is_none());
}

#[test]
fn rolling_vwap_basic() {
    let mut vwap: RollingVwap<F> = RollingVwap::new(30);
    vwap.update(0, F(100.0), F(1.0));
    vwap.update(1_000_000, F(200.0), F(1.0));
    assert!((vwap.vwap().unwrap().0 - 150.0).abs() < 1e-9);
}

#[test]
fn rolling_vwap_evicts_and_scores() {
    let mut vwap: RollingVwap<F> = RollingVwap::new(30);
    assert!(vwap.vwap().is_none());
    vwap.update(0, F(100.0), F(1.0));
    vwap.update(40_000_000, F(200.0), F(2.0));
    assert_eq!(vwap.vwap(), Some(F(200.0)));
    // (250 - 200) / (0.1 x 250)
    assert_eq!(vwap.deviation_z(F(250.0), F(0.1)), Some(F(50.0 / (0.1 * 250.0))));
    assert!(vwap.deviation_z(F(250.0), F(0.0)).is_none());
}

#[test]
fn ofi_balanced() {
    let mut ofi: OrderFlowImbalance<F> = OrderFlowImbalance::new(60);
    let mk = |side: TradeSide| Tick {
        ts_micros: 0,
        price: F(50_000.0),
        quantity: F(1.0),
        side: Some(side),
        exchange: Exchange::Binance,
        symbol: Symbol::BtcUsd,
        trade_id: "0".to_string(),
    };
    ofi.update(&mk(TradeSide::Buy));
    ofi.update(&mk(TradeSide::Sell));
    assert!((ofi.value().0).abs() < 1e-9);
    assert!((ofi.buy_ratio().0 - 0.5).abs() < 1e-9);
}

#[test]
fn ofi_of_one_side_and_of_nothing() {
    let mut ofi: OrderFlowImbalance<F> = OrderFlowImbalance::new(5);
    assert_eq!(ofi.value(), F(0.0));
    assert_eq!(ofi.buy_ratio(), F(0.5));
    ofi.update_fused(0, F(3.0), F(1.0));
    assert_eq!(ofi.value(), F(0.5));
    assert_eq!(ofi.buy_ratio(), F(0.75));
    assert_eq!(ofi.total_volume(), F(4.0));
    ofi.update_fused(6_000_000, F(0.0), F(2.0));
    assert_eq!(ofi.value(), F(-1.0));
}

#[test]
fn book_imbalance_tracker_staleness() {
    let mut tracker: BookImbalanceTracker<F> = BookImbalanceTracker::new();
    tracker.update(Exchange::Binance, F(0.4), F(0.3), 0);
    assert!(tracker.fused_top5(0).is_some());
    assert!(tracker.fused_top5(BOOK_STALE_MICROS + 1).is_none());
}

#[test]
fn book_imbalance_is_the_mean_of_fresh_books() {
    let mut tracker: BookImbalanceTracker<F> = BookImbalanceTracker::new();
    tracker.update(Exchange::Binance, F(0.5), F(0.25), 0);
    tracker.update(Exchange::Kraken, F(-0.25), F(0.75), 1_000_000);
    assert_eq!(tracker.fused_top5(2_000_000), Some(F(0.125)));
    assert_eq!(tracker.fused_full(2_000_000), Some(F(0.5)));
    assert_eq!(tracker.fused_top5(2_500_000), Some(F(-0.25)));
}

#[test]
fn book_pressure_averages_spread_and_skew() {
    let mut tracker: BookPressureTracker<F> = BookPressureTracker::new();
    assert!(tracker.pressure(0).is_none());
    tracker.update(Exchange::Binance, F(2.0), F(0.5), F(100.0), 0);
    tracker.update(Exchange::Bitstamp, F(1.0), F(0.25), F(0.0), 0);
    assert_eq!(tracker.spread_pct(0), Some(F(0.02)));
    assert_eq!(tracker.pressure(0), Some(F(0.375)));
    assert!(tracker.spread_pct(BOOK_STALE_MICROS + 1).is_none());
    assert_eq!(tracker.spread_usd(0), Some(F(1.5)));
    assert_eq!(tracker.weighted_mid(0), Some(F(75.0)));
    assert!(tracker.weighted_mid(BOOK_STALE_MICROS + 1).is_none());
}

#[test]
fn book_spread_is_averaged_by_volume() {
    let mut tracker: BookPressureTracker<F> = BookPressureTracker::new();
    let quote = |spread: f64, volume: f64| BookQuote {
        spread_usd: F(spread),
        microprice_dev: F(0.0),
        mid: F(100.0),
        microprice: F(100.0),
        volume: F(volume),
        ts_micros: 0,
    };
    tracker.record(Exchange::Binance, quote(1.0, 3.0));
    tracker.record(Exchange::Kraken, quote(5.0, 1.0));
    // (3 x 0.01 + 1 x 0.05) / 4
    assert!((tracker.spread_pct(0).unwrap().0 - 0.02).abs() < 1e-15);
    assert_eq!(tracker.spread_usd(0), Some(F(3.0)));
    let mut idle: BookPressureTracker<F> = BookPressureTracker::new();
    idle.record(Exchange::Binance, quote(1.0, 0.0));
    assert!(idle.spread_pct(0).is_none());
    assert_eq!(idle.spread_usd(0), Some(F(1.0)));
}

#[test]
fn returns_between_ticks() {
    let mut r: TickReturns<F> = TickReturns::new();
    assert!(r.ewma_vol().is_none() && r.autocorr().is_none());
    r.update(0, F(100.0));
    assert!(r.ewma_vol().is_none());
    r.update(1, F(101.0));
    let x = (1.01f64).ln();
    let variance = 1e-6 + 0.01 * (x * x - 1e-6);
    assert!((r.ewma_variance().0 - variance).abs() < 1e-18);
    assert!((r.ewma_vol().unwrap().0 - variance.sqrt()).abs() < 1e-15);
    // One return has no neighbour.
    assert!(r.autocorr().is_none());
    // The same return again: they follow each other.
    r.update(2, F(101.0 * 1.01));
    assert!((r.autocorr().unwrap().0 - 1.0).abs() < 1e-9);
    // Back and forth: each return undoes the one before.
    let mut zigzag: TickReturns<F> = TickReturns::new();
    for i in 0..10 {
        zigzag.update(i, F(if i % 2 == 0 { 100.0 } else { 101.0 }));
    }
    assert!((zigzag.autocorr().unwrap().0 + 1.0).abs() < 1e-9);
    // A price that is no price breaks the chain, and old pairs leave the window.
    zigzag.update(10, F(0.0));
    zigzag.update(11, F(100.0));
    assert!(zigzag.autocorr().is_some());
    for i in 0..4 {
        zigzag.update(400_000_000 + i, F(100.0 * (1.0 + i as f64 / 10.0)));
    }
    assert!(zigzag.autocorr().unwrap().0 > 0.7);
    // Returns of nothing have no direction, and the variance fades.
    let mut still: TickReturns<F> = TickReturns::new();
    for i in 0..3 {
        still.update(i, F(7.0));
    }
    assert!(still.autocorr().is_none());
    assert!((still.ewma_variance().0 - 0.99 * 0.99 * 1e-6).abs() < 1e-18);
}

#[test]
fn flow_ranges_over_a_history() {
    let mut state: FeatureState<F> = FeatureState::new();
    for i in 0..400_i64 {
        let ratio = if i % 7 == 0 { None } else { Some((i % 5) as f64 / 4.0) };
        let price = 50_000.0 + (i % 11) as f64;
        let v = state.update_from_fused(&fused(i * 1_000_000, price, (i % 3) as f64, ratio));
        for x in [v.ofi_5s, v.ofi_30s, v.ofi_300s] {
            assert!(x.0 >= -1.0 && x.0 <= 1.0);
        }
        for x in [v.buy_ratio_30s, v.buy_ratio_300s] {
            assert!(x.0 >= 0.0 && x.0 <= 1.0);
        }
        assert_eq!(v.ofi_delta_30s, F(v.ofi_5s.0 - v.ofi_30s.0));
        if let Some(rsi) = v.rsi_14 {
            assert!(rsi.0 >= 0.0 && rsi.0 <= 100.0);
        }
    }
}

#[test]
fn activity_regime_burst() {
    let mut ar = ActivityRegime::new();
    for i in 0..=180_i64 {
        ar.update(i * 10_000_000);
    }
    let slow_ratio = ar.ratio::<F>();
    let base = 1_800_000_000_i64;
    for i in 0..300_i64 {
        ar.update(base + i * 100_000);
    }
    let fast_ratio = ar.ratio::<F>();
    assert!(fast_ratio > slow_ratio);
}

#[test]
fn tick_velocity_counts_gaps_per_second() {
    let mut v = TickVelocity::new(30);
    assert_eq!(v.rate::<F>(), F(0.0));
    v.update(0);
    v.update(0);
    assert_eq!(v.rate::<F>(), F(0.0));
    v.update(4_000_000);
    assert_eq!(v.rate::<F>(), F(0.5));
    v.update(32_000_000);
    assert_eq!(v.rate::<F>(), F(1.0 / 28.0));
}

#[test]
fn rsi_of_rising_falling_and_mixed_prices() {
    let mut rising: Rsi<F> = Rsi::new();
    for i in 0..14 {
        rising.update(F(100.0 + i as f64));
        assert!(rising.value().is_none());
    }
    rising.update(F(114.0));
    assert_eq!(rising.value(), Some(F(100.0)));

    let mut falling: Rsi<F> = Rsi::new();
    for i in 0..15 {
        falling.update(F(100.0 - i as f64));
    }
    assert_eq!(falling.value(), Some(F(0.0)));

    // Seven gains and seven losses of the same size.
    let mut mixed: Rsi<F> = Rsi::new();
    for i in 0..15 {
        mixed.update(F(100.0 + (i % 2) as f64));
    }
    assert!((mixed.value().unwrap().0 - 50.0).abs() < 1e-9);
}

#[test]
fn session_vwap_deviation() {
    let mut session: SessionVwap<F> = SessionVwap::new();
    assert!(session.deviation(F(1.0)).is_none());
    session.update(F(100.0), F(1.0));
    session.update(F(200.0), F(1.0));
    assert_eq!(session.deviation(F(165.0)), Some(F(0.1)));
}

#[test]
fn features_of_a_single_fused_tick() {
    let mut state: FeatureState<F> = FeatureState::new();
    let v: FeatureVector<F> = state.update_from_fused(&fused(1_000_000, 50_000.0, 2.0, Some(0.75)));
    assert_eq!(v.ts_micros, 1_000_000);
    assert_eq!(v.price, F(50_000.0));
    assert!(v.return_5s.is_none() && v.vol_30s.is_none() && v.vol_ratio.is_none());
    assert_eq!(v.ofi_5s, F(0.5));
    assert_eq!(v.ofi_delta_30s, F(0.0));
    assert_eq!(v.buy_ratio_300s, F(0.75));
    assert_eq!(v.volume_ratio, Some(F(1.0)));
    assert_eq!(v.activity_regime, F(1.0));
    assert_eq!(v.spread_pct, F(10.0 / 50_000.0));
    assert_eq!(v.inter_exchange_spread, F(10.0));
    assert_eq!(v.vol_1800s_variance, F(0.0));
    assert_eq!(v.vwap_deviation, Some(F(0.0)));
    assert!(v.book_imbalance_5.is_none() && v.book_imbalance_full.is_none());
    assert!(v.book_spread_pct.is_none() && v.book_pressure.is_none());
    assert!(v.rsi_14.is_none() && v.momentum_micro.is_none() && v.autocorr_lag1.is_none());
    assert!(v.ewma_vol_tick.is_none() && v.ewma_variance == F(1e-6));
    assert!(v.book_imbalance_top5.is_none() && v.book_weighted_mid.is_none());
    assert!(v.book_spread_usd.is_none() && v.realised_vol_30s.is_none());
}

#[test]
fn features_after_a_minute_of_ticks() {
    let mut state: FeatureState<F> = FeatureState::new();
    let mut last = None;
    for i in 0..=60_i64 {
        let price = 50_000.0 + (i % 3) as f64 * 10.0 + i as f64;
        last = Some(state.update_from_fused(&fused(i * 1_000_000, price, 1.0, None)));
    }
    let v = last.unwrap();
    let reference = 50_000.0 + (30 % 3) as f64 * 10.0 + 30.0;
    let momentum = v.momentum_micro.unwrap().0;
    assert!((momentum - (v.price.0 - reference) / reference).abs() < 1e-9);
    assert_eq!(v.return_300s, None);
    let sigma = v.vol_1800s.unwrap();
    assert_eq!(v.zreturn_30s, Some(F(v.return_30s.unwrap().0 / sigma.0)));
    assert_eq!(v.vol_ratio, Some(F(v.vol_30s.unwrap().0 / sigma.0)));
    assert_eq!(v.vol_1800s_variance, F(sigma.0 * sigma.0));
    assert_eq!(v.realised_vol_30s, v.vol_30s);
    let per_tick = v.ewma_vol_tick.unwrap().0;
    assert!((per_tick * per_tick - v.ewma_variance.0).abs() < 1e-15);
    assert!(per_tick > 0.0 && per_tick < 0.001);
    let rho = v.autocorr_lag1.unwrap().0;
    assert!(rho > -1.0 && rho < 1.0);
    // No side data: the flow windows stay empty.
    assert_eq!(v.ofi_30s, F(0.0));
    assert!(v.volume_ratio.is_none());
    assert!((v.tick_velocity.0 - 1.0).abs() < 1e-12);
    let rsi = v.rsi_14.unwrap().0;
    assert!(rsi > 0.0 && rsi < 100.0);
}

#[test]
fn books_enter_the_features_until_stale() {
    let mut state: FeatureState<F> = FeatureState::new();
    state.update_book(&book(vec![level(100.0, 3.0)], vec![level(102.0, 1.0)], 0));
    let v = state.update_from_fused(&fused(1_000_000, 101.0, 1.0, None));
    assert_eq!(v.book_imbalance_5, Some(F(0.5)));
    assert_eq!(v.book_imbalance_full, Some(F(0.5)));
    assert_eq!(v.book_spread_pct, Some(F(2.0 / 101.0)));
    assert_eq!(v.book_imbalance_top5, Some(F(0.5)));
    assert_eq!(v.book_spread_usd, Some(F(2.0)));
    assert_eq!(v.book_weighted_mid, Some(F(101.5)));
    // Micro-price (100 x 1 + 102 x 3) / 4 = 101.5 against a mid price of 101.
    assert_eq!(v.book_pressure, Some(F(0.5 / 101.0)));
    // A book that lacks a side changes nothing.
    state.update_book(&book(vec![level(100.0, 9.0)], vec![], 2_000_000));
    let v = state.update_from_fused(&fused(2_000_000, 101.0, 1.0, None));
    assert_eq!(v.book_imbalance_5, Some(F(0.5)));
    let v = state.update_from_fused(&fused(2_000_001, 101.0, 1.0, None));
    assert!(v.book_imbalance_5.is_none() && v.book_pressure.is_none());
}

#[test]
fn trackers_can_be_fed_directly() {
    let mut state: FeatureState<F> = FeatureState::new();
    state.book_imbalance.update(Exchange::Binance, F(1.0), F(-1.0), 0);
    state.book_imbalance.update(Exchange::Kraken, F(0.5), F(-1.0), 0);
    state.book_pressure.update(Exchange::Binance, F(2.0), F(0.01), F(100.0), 0);
    let v = state.update_from_fused(&fused(0, 100.0, 1.0, None));
    // Means of imbalances between -1 and 1 lie there too.
    assert_eq!(v.book_imbalance_5, Some(F(0.75)));
    assert_eq!(v.book_imbalance_full, Some(F(-1.0)));
    assert_eq!(v.book_spread_usd, Some(F(2.0)));
    assert_eq!(v.book_pressure, Some(F(0.01)));
}
