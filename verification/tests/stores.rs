use btc_prediction_engine::clock::{Moment, CALENDAR_START_SECS};
use btc_prediction_engine::number::{clamp, Fixed, Number};
use btc_prediction_engine::span::Span;
use btc_prediction_engine::types::pred_store::{PredictionStore, DEFAULT_PRED_CAPACITY};
use btc_prediction_engine::types::tick_store::{ohlcv_from_ticks, TickStore, DEFAULT_CAPACITY};
use btc_prediction_engine::types::{
    BookSnapshot, EngineError, EngineMetrics, Exchange, HeuristicSnapshot, Level, Ohlcv,
    PerExchange, PredictionSnapshot, Symbol, Tick, TimeScale, TradeSide, TrendDirection,
    TrendSignal,
};
use std::collections::HashMap;

/// Binary floats as the engine's numbers.
#[derive(Clone, Copy, Debug, PartialEq, PartialOrd)]
struct F(f64);

impl Number for F {
    fn from_int(n: i128) -> Self { F(n as f64) }
    fn ratio(num: i64, den: i64) -> Self { F(num as f64 / den as f64) }
    fn add(self, o: Self) -> Self { F(self.0 + o.0) }
    fn sub(self, o: Self) -> Self { F(self.0 - o.0) }
    fn mul(self, o: Self) -> Self { F(self.0 * o.0) }
    fn div(self, o: Self) -> Self { F(self.0 / o.0) }
    fn abs(self) -> Self { F(self.0.abs()) }
    fn signum(self) -> Self { F(self.0.signum()) }
    fn max(self, o: Self) -> Self { F(self.0.max(o.0)) }
    fn min(self, o: Self) -> Self { F(self.0.min(o.0)) }
    fn lowest() -> Self { F(f64::NEG_INFINITY) }
    fn highest() -> Self { F(f64::INFINITY) }
    fn below(self, o: Self) -> bool { self.0 < o.0 }
    fn at_most(self, o: Self) -> bool { self.0 <= o.0 }
    fn same(self, o: Self) -> bool { self.0 == o.0 }
    fn round(self) -> i64 { self.0.round() as i64 }
    fn trunc(self) -> i64 { self.0 as i64 }
}

fn t(ts_micros: i64, price: f64) -> Tick<F> {
    Tick {
        ts_micros,
        price: F(price),
        quantity: F(0.1),
        side: Some(TradeSide::Buy),
        exchange: Exchange::Binance,
        symbol: Symbol::BtcUsd,
        trade_id: ts_micros.to_string(),
    }
}

fn snap(at: i64, direction: TrendDirection, confidence: f64) -> PredictionSnapshot<F> {
    let s = TrendSignal {
        direction,
        confidence: F(confidence),
        scale: TimeScale::Micro,
        computed_at: at,
    };
    PredictionSnapshot {
        snapshot_at: at,
        price: F(1.0),
        micro: s,
        short: s,
        medium: s,
        broad: s,
        forecasts: HashMap::new(),
        fused_direction: direction,
        fused_confidence: F(confidence),
        metrics: EngineMetrics {
            tick_rate: F(0.0),
            dedup_rate: F(0.0),
            outlier_rate: F(0.0),
            connected_feeds: 0,
            cross_exchange_spread: F(0.0),
        },
        heuristic: HeuristicSnapshot {
            micro: s,
            short: s,
            medium: s,
            broad: s,
            fused_direction: direction,
            fused_confidence: F(confidence),
        },
        model_active: false,
    }
}

fn level(price: f64, qty: f64) -> Level<F> {
    Level { price: F(price), qty: F(qty) }
}

#[test]
fn eviction() {
    let mut store: TickStore<F> = TickStore::with_capacity(3);
    for i in 1..=4i64 {
        store.push(t(i * 1_000_000, i as f64 * 100.0));
    }
    assert_eq!(store.len(), 3);
    assert_eq!(store.oldest().unwrap().ts_micros, 2_000_000);
}

#[test]
fn latest_is_lock_free() {
    let mut store: TickStore<F> = TickStore::new();
    assert!(store.latest().is_none());
    store.push(t(1_000_000, 50_000.0));
    assert_eq!(store.latest().unwrap().price, F(50_000.0));
}

#[test]
fn ohlcv_fields() {
    let ticks = vec![t(0, 100.0), t(1_000_000, 110.0), t(2_000_000, 90.0), t(3_000_000, 105.0)];
    let bar = ohlcv_from_ticks(&ticks).unwrap();
    assert_eq!(bar.open, F(100.0));
    assert_eq!(bar.close, F(105.0));
    assert_eq!(bar.high, F(110.0));
    assert_eq!(bar.low, F(90.0));
    assert!((bar.vwap.0 - (100.0 + 110.0 + 90.0 + 105.0) / 4.0).abs() < 1.0);
}

#[test]
fn tick_ring_keeps_the_most_recent() {
    let mut store: TickStore<F> = TickStore::with_capacity(2);
    assert!(store.is_empty());
    for i in 0..5i64 {
        store.push(t(i, i as f64));
    }
    let kept: Vec<i64> = store.last_n(10).iter().map(|t| t.ts_micros).collect();
    assert_eq!(kept, vec![3, 4]);
    let one: Vec<i64> = store.last_n(1).iter().map(|t| t.ts_micros).collect();
    assert_eq!(one, vec![4]);
    assert!(store.last_n(0).is_empty());
}

#[test]
fn tick_ranges_are_inclusive() {
    let mut store: TickStore<F> = TickStore::default();
    assert!(matches!(store.since(0), Err(EngineError::EmptyBuffer)));
    assert!(matches!(store.last_secs(1), Err(EngineError::EmptyBuffer)));
    for ts in [1_000_000, 3_000_000, 2_000_000] {
        store.push(t(ts, 1.0));
    }
    let stamps = |ticks: Vec<Tick<F>>| -> Vec<i64> { ticks.iter().map(|t| t.ts_micros).collect() };
    assert_eq!(stamps(store.range(1_000_000, 2_000_000)), vec![1_000_000, 2_000_000]);
    // Nothing later than the latest tick.
    assert_eq!(stamps(store.since(1_500_000).unwrap()), vec![2_000_000]);
    assert_eq!(stamps(store.last_secs(0).unwrap()), vec![3_000_000, 2_000_000]);
    assert_eq!(stamps(store.last_secs(1).unwrap()), vec![1_000_000, 3_000_000, 2_000_000]);
}

#[test]
fn bar_without_ticks_volume_or_sides() {
    assert!(ohlcv_from_ticks::<F>(&[]).is_none());
    let mut still = t(0, 100.0);
    still.quantity = F(0.0);
    still.side = None;
    let bar = ohlcv_from_ticks(&[still]).unwrap();
    assert_eq!(bar.vwap, F(100.0));
    assert!(bar.buy_ratio.is_none());
    assert_eq!(bar.tick_count, 1);
}

#[test]
fn bar_buy_ratio_counts_unsided_volume() {
    let mut sell = t(1, 100.0);
    sell.side = Some(TradeSide::Sell);
    let mut unsided = t(2, 100.0);
    unsided.side = None;
    unsided.quantity = F(0.2);
    let bar = ohlcv_from_ticks(&[t(0, 100.0), sell, unsided]).unwrap();
    assert!((bar.buy_ratio.unwrap().0 - 0.25).abs() < 1e-12);
    assert!((bar.notional.0 - 40.0).abs() < 1e-9);
}

#[test]
fn bar_return_and_true_range() {
    let bar: Ohlcv<F> = ohlcv_from_ticks(&[t(0, 100.0), t(1, 120.0), t(2, 110.0)]).unwrap();
    assert_eq!(bar.return_pct(), F(0.1));
    assert_eq!(bar.true_range(F(90.0)), F(30.0));
    assert_eq!(bar.true_range(F(130.0)), F(30.0));
    let flat = ohlcv_from_ticks(&[t(0, 0.0), t(1, 5.0)]).unwrap();
    assert_eq!(flat.return_pct(), F(0.0));
}

#[test]
fn default_capacities() {
    assert_eq!(DEFAULT_CAPACITY, 1_500_000);
    assert_eq!(DEFAULT_PRED_CAPACITY, 100_000);
}

#[test]
fn snapshot_as_of_a_time() {
    let mut store: PredictionStore<F> = PredictionStore::with_capacity(3);
    assert!(store.is_empty() && store.latest().is_none());
    assert!(store.at_or_before(i64::MAX).is_none());
    for at in [10, 20, 30, 40] {
        store.push(snap(at, TrendDirection::Bullish, 0.5));
    }
    assert_eq!(store.len(), 3);
    assert_eq!(store.latest().unwrap().snapshot_at, 40);
    assert!(store.at_or_before(19).is_none());
    assert_eq!(store.at_or_before(20).unwrap().snapshot_at, 20);
    assert_eq!(store.at_or_before(39).unwrap().snapshot_at, 30);
    assert_eq!(store.at_or_before(1_000).unwrap().snapshot_at, 40);
    // Out of order: still the closest one before.
    store.push(snap(25, TrendDirection::Bearish, 0.5));
    assert_eq!(store.at_or_before(35).unwrap().snapshot_at, 30);
    assert_eq!(store.range(25, 30).len(), 2);
}

#[test]
fn aggregate_trend_is_a_weighted_vote() {
    let mut store: PredictionStore<F> = PredictionStore::new();
    assert!(store.aggregate_trend(0, 100).is_none());
    store.push(snap(1, TrendDirection::Bullish, 0.25));
    store.push(snap(2, TrendDirection::Bearish, 0.5));
    store.push(snap(3, TrendDirection::Sideways, 0.25));
    assert_eq!(store.aggregate_trend(0, 100), Some((TrendDirection::Bearish, F(0.5))));
    assert_eq!(store.aggregate_trend(1, 1), Some((TrendDirection::Bullish, F(1.0))));
    assert_eq!(store.aggregate_trend(3, 3), Some((TrendDirection::Sideways, F(1.0))));
    store.push(snap(200, TrendDirection::Bullish, 0.0));
    assert_eq!(store.aggregate_trend(200, 200), Some((TrendDirection::Sideways, F(0.0))));
}

#[test]
fn swapped_and_cut_books() {
    let level = |price: f64, qty: f64| Level { price: F(price), qty: F(qty) };
    let bids = vec![level(100.0, 3.0), level(99.0, 5.0), level(98.0, 50.0)];
    let asks = vec![level(101.0, 1.0), level(102.0, 2.0)];
    let book = |bids: &Vec<Level<F>>, asks: &Vec<Level<F>>| BookSnapshot {
        ts_micros: 0,
        exchange: Exchange::Kraken,
        symbol: Symbol::BtcUsd,
        bids: bids.clone(),
        asks: asks.clone(),
    };
    let x = book(&bids, &asks).imbalance(2).unwrap();
    assert_eq!(x, F(5.0 / 11.0));
    assert_eq!(book(&asks, &bids).imbalance(2), Some(F(-x.0)));
    assert_eq!(book(&bids[..2].to_vec(), &asks).imbalance(2), Some(x));
    assert_eq!(book(&bids, &asks).volume(2), F(11.0));
    assert_eq!(book(&bids, &asks).volume(9), F(61.0));
}

#[test]
fn book_prices_and_imbalance() {
    let book = BookSnapshot {
        ts_micros: 0,
        exchange: Exchange::Binance,
        symbol: Symbol::BtcUsd,
        bids: vec![level(100.0, 3.0), level(99.0, 5.0)],
        asks: vec![level(102.0, 1.0)],
    };
    assert_eq!(book.best_bid(), Some(F(100.0)));
    assert_eq!(book.best_ask(), Some(F(102.0)));
    assert_eq!(book.mid_price(), Some(F(101.0)));
    assert_eq!(book.spread_usd(), Some(F(2.0)));
    assert_eq!(book.imbalance(1), Some(F(0.5)));
    assert_eq!(book.imbalance(5), Some(F(7.0 / 9.0)));
    assert_eq!(book.weighted_mid(1), Some(F(101.5)));
    assert!(book.imbalance(0).is_none() && book.weighted_mid(0).is_none());
    let empty = BookSnapshot { bids: vec![], asks: vec![], ..book };
    assert!(empty.mid_price().is_none() && empty.spread_usd().is_none());
    let one_sided = BookSnapshot { bids: vec![level(100.0, 3.0)], asks: vec![], ..empty };
    assert!(one_sided.imbalance(5).is_none() && one_sided.weighted_mid(5).is_none());
}

#[test]
fn tick_times_and_notional() {
    let tick = t(1_700_000_000_123_456, 50_000.0);
    assert_eq!(tick.ts_millis(), 1_700_000_000_123);
    assert_eq!(tick.notional(), F(50_000.0 * 0.1));
    assert_eq!(tick.timestamp(), Moment { secs: 1_700_000_000, nanos: 123_456_000 });
    assert_eq!(t(-1_500, 1.0).ts_millis(), -1);
}

#[test]
fn moments_outside_the_calendar() {
    let first = Moment { secs: CALENDAR_START_SECS, nanos: 0 };
    assert_eq!(t(i64::MAX, 1.0).timestamp(), first);
    assert_eq!(t(i64::MIN, 1.0).timestamp(), first);
    assert_eq!(t(-1, 1.0).timestamp(), first);
    assert_eq!(t(-2_000_000, 1.0).timestamp(), Moment { secs: -2, nanos: 0 });
    let last = 8_210_266_876_799_999_999_i64;
    assert_eq!(
        t(last, 1.0).timestamp(),
        Moment { secs: 8_210_266_876_799, nanos: 999_999_000 }
    );
    assert_eq!(t(last + 1, 1.0).timestamp(), first);
    assert_eq!(t(-8_334_601_228_800_000_000, 1.0).timestamp(), first);
    assert_eq!(t(-8_334_601_228_801_000_000, 1.0).timestamp(), first);
}

#[test]
fn names_and_native_symbols() {
    assert_eq!(Symbol::BtcUsd.name(), "BTC/USD");
    let native: Vec<&str> =
        [Exchange::Binance, Exchange::Coinbase, Exchange::Kraken, Exchange::Bitstamp]
            .iter()
            .map(|e| Symbol::BtcUsd.for_exchange(*e))
            .collect();
    assert_eq!(native, vec!["btcusdt", "BTC-USD", "BTC/USD", "btcusd"]);
    assert_eq!(Exchange::Binance.name(), "binance");
    assert_eq!(Exchange::Coinbase.name(), "coinbase");
    assert_eq!(Exchange::Kraken.name(), "kraken");
    assert_eq!(Exchange::Bitstamp.name(), "bitstamp");
}

#[test]
fn scales_look_back() {
    let secs: Vec<i64> = TimeScale::ALL.iter().map(|s| s.lookback_secs()).collect();
    assert_eq!(secs, vec![30, 300, 3_600, 86_400]);
    assert_eq!(TimeScale::Broad.lookback_micros(), 86_400_000_000);
}

#[test]
fn table_walks_in_exchange_order() {
    let mut table: PerExchange<u8> = PerExchange::new();
    assert_eq!(table.len(), 0);
    table.insert(Exchange::Bitstamp, 4);
    table.insert(Exchange::Binance, 1);
    table.insert(Exchange::Binance, 2);
    assert_eq!(table.values(), vec![2, 4]);
    assert_eq!(table.get(Exchange::Binance), Some(2));
    assert_eq!(table.get(Exchange::Kraken), None);
    assert_eq!(table.len(), 2);
}

#[test]
fn exact_decimals() {
    let d = |num: i64, den: i64| Fixed::ratio(num, den);
    assert_eq!(d(1, 10).add(d(2, 10)), d(3, 10));
    assert_eq!(d(1, 3).units, 33_333_333);
    assert_eq!(d(-1, 3).units, -33_333_333);
    assert_eq!(d(3, 2).mul(d(-3, 2)), d(-9, 4));
    assert_eq!(d(1, 1).div(d(0, 1)), d(0, 1));
    assert_eq!(d(5, 2).round(), 3);
    assert_eq!(d(-5, 2).round(), -3);
    assert_eq!(d(-5, 2).trunc(), -2);
    assert_eq!(d(-5, 2).abs(), d(5, 2));
    assert_eq!(d(0, 1).signum(), d(1, 1));
    assert_eq!(d(-7, 1).signum(), d(-1, 1));
    assert_eq!(Fixed::highest().add(d(1, 1)), Fixed::highest());
    assert_eq!(Fixed::lowest().sub(d(1, 1)), Fixed::lowest());
    assert_eq!(Fixed::from_int(i128::MAX), Fixed::highest());
    assert_eq!(Fixed::from_int(-3), d(-3, 1));
    assert!(d(1, 2).below(d(1, 1)) && d(1, 2).at_most(d(1, 2)) && !d(1, 2).same(d(1, 1)));
    assert_eq!(d(1, 2).max(d(1, 4)), d(1, 2));
    assert_eq!(d(1, 2).min(d(1, 4)), d(1, 4));
    assert_eq!(clamp(d(7, 1), d(0, 1), d(1, 1)), d(1, 1));
    assert_eq!(clamp(d(-7, 1), d(0, 1), d(1, 1)), d(0, 1));
    assert_eq!(clamp(d(1, 2), d(0, 1), d(1, 1)), d(1, 2));
}

#[test]
fn spans_in_nanoseconds() {
    assert_eq!(Span::from_millis(1_500), Span { secs: 1, nanos: 500_000_000 });
    assert_eq!(Span::from_secs(2).as_nanos(), 2_000_000_000);
}

#[test]
fn bar_averages_lie_in_their_ranges() {
    let one = 100_000_000;
    let tick = |price: i64, qty: i64| Tick {
        ts_micros: 0,
        price: Fixed { units: price },
        quantity: Fixed { units: qty },
        side: None,
        exchange: Exchange::Kraken,
        symbol: Symbol::BtcUsd,
        trade_id: String::new(),
    };
    // Whole lots: (2 x 100 + 3 x 90 + 5 x 110) / 10.
    let ticks = [tick(100 * one, 2 * one), tick(90 * one, 3 * one), tick(110 * one, 5 * one)];
    let bar = ohlcv_from_ticks(&ticks).unwrap();
    assert_eq!(bar.vwap.units, 102 * one);
    assert!(bar.low.units <= bar.vwap.units && bar.vwap.units <= bar.high.units);
    // Small lots lose at most a unit each, spread over the volume, and less than one more.
    let ticks = [tick(5_000_000_000_001, 77), tick(5_000_000_000_003, 345)];
    let bar = ohlcv_from_ticks(&ticks).unwrap();
    assert!(bar.vwap.units <= bar.high.units);
    assert!((bar.low.units - bar.vwap.units - 1) * 422 <= 2 * one);
}
