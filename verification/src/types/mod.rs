//! Core domain types.
//!
//! All monetary values are in **USD** (quote currency).
//! All quantities are in **BTC** (base currency).
//! All timestamps are **microseconds since the UNIX epoch** (`i64`).

use vstd::prelude::*;
use crate::clock::{calendar_moment, Moment, CALENDAR_END_SECS, CALENDAR_START_SECS};
use crate::number::{towards_zero, Number};

pub mod order_book;
pub mod per_exchange;
pub mod pred_store;
pub mod snapshot;
pub mod tick_store;

pub use order_book::{BookSnapshot, Level, BOOK_DEPTH};
pub use per_exchange::PerExchange;
pub use pred_store::PredictionStore;
pub use tick_store::TickStore;
pub use snapshot::{
    EngineError, EngineMetrics, EngineResult, FeedHealth, HeuristicSnapshot, PredictionSnapshot,
    ShortTermForecast, WindowProjection,
};

verus! {

// ---------------------------------------------------------------------------
// Trading pair and exchange
// ---------------------------------------------------------------------------
/// The asset pair being tracked.
#[derive(Debug, Clone, Copy, PartialEq, Eq, Structural, Hash)]
#[non_exhaustive]
pub enum Symbol {
    /// Bitcoin / US Dollar
    BtcUsd,
}

/// Supported data-source exchanges.
#[derive(Debug, Clone, Copy, PartialEq, Eq, Structural, Hash)]
#[non_exhaustive]
pub enum Exchange {
    /// Binance Spot
    Binance,
    /// Coinbase Advanced Trade
    Coinbase,
    /// Kraken Spot WebSocket v2
    Kraken,
    /// Bitstamp WebSocket v2
    Bitstamp,
}

/// The string by which an exchange knows a pair.
pub open spec fn native_symbol(symbol: Symbol, exchange: Exchange) -> Seq<char> {
    match (symbol, exchange) {
        (Symbol::BtcUsd, Exchange::Binance) => "btcusdt"@,
        (Symbol::BtcUsd, Exchange::Coinbase) => "BTC-USD"@,
        (Symbol::BtcUsd, Exchange::Kraken) => "BTC/USD"@,
        (Symbol::BtcUsd, Exchange::Bitstamp) => "btcusd"@,
    }
}

impl Symbol {
    /// The pair's display name.
    pub fn name(self) -> (r: &'static str)
        ensures
            r@ == "BTC/USD"@,
    {
        match self {
            Symbol::BtcUsd => "BTC/USD",
        }
    }

    /// Native symbol string used by each exchange for this pair.
    ///
    /// Returns the exact string to pass in WebSocket subscribe messages.
    pub fn for_exchange(self, exchange: Exchange) -> (r: &'static str)
        ensures
            r@ == native_symbol(self, exchange),
    {
        match (self, exchange) {
            (Symbol::BtcUsd, Exchange::Binance) => "btcusdt",
            (Symbol::BtcUsd, Exchange::Coinbase) => "BTC-USD",
            (Symbol::BtcUsd, Exchange::Kraken) => "BTC/USD",
            (Symbol::BtcUsd, Exchange::Bitstamp) => "btcusd",
        }
    }
}

impl Exchange {
    /// The exchange's display name.
    pub open spec fn spec_name(self) -> Seq<char> {
        match self {
            Exchange::Binance => "binance"@,
            Exchange::Coinbase => "coinbase"@,
            Exchange::Kraken => "kraken"@,
            Exchange::Bitstamp => "bitstamp"@,
        }
    }

    /// The exchange's display name.
    pub fn name(self) -> (r: &'static str)
        ensures
            r@ == self.spec_name(),
    {
        match self {
            Exchange::Binance => "binance",
            Exchange::Coinbase => "coinbase",
            Exchange::Kraken => "kraken",
            Exchange::Bitstamp => "bitstamp",
        }
    }
}

// ---------------------------------------------------------------------------
// Tick
// ---------------------------------------------------------------------------
/// Taker-initiated trade side.
#[derive(Debug, Clone, Copy, PartialEq, Eq, Structural)]
pub enum TradeSide {
    Buy,
    Sell,
}

/// A single matched trade tick: the atomic unit of the engine.
///
/// All prices and quantities are normalised to BTC/USD before this struct is
/// created. Exchange-specific fields (fee info and the like) are discarded.
#[derive(Debug)]
pub struct Tick<N> {
    /// Trade timestamp in **microseconds** since UNIX epoch.
    pub ts_micros: i64,
    /// Executed price in USD.
    pub price: N,
    /// Executed quantity in BTC.
    pub quantity: N,
    /// Taker side. `None` when not provided by the exchange.
    pub side: Option<TradeSide>,
    /// Source exchange.
    pub exchange: Exchange,
    /// Symbol (always `BtcUsd` in this version).
    pub symbol: Symbol,
    /// Exchange-assigned trade ID. Used by the dedup layer.
    pub trade_id: String,
}

/// What a [`Tick`] says.
#[verifier::ext_equal]
pub struct TickView<N> {
    pub ts_micros: i64,
    pub price: N,
    pub quantity: N,
    pub side: Option<TradeSide>,
    pub exchange: Exchange,
    pub symbol: Symbol,
    pub trade_id: Seq<char>,
}

impl<N> View for Tick<N> {
    type V = TickView<N>;

    open spec fn view(&self) -> TickView<N> {
        TickView {
            ts_micros: self.ts_micros,
            price: self.price,
            quantity: self.quantity,
            side: self.side,
            exchange: self.exchange,
            symbol: self.symbol,
            trade_id: self.trade_id@,
        }
    }
}

/// What some ticks say.
pub open spec fn tick_views<N>(ticks: Seq<Tick<N>>) -> Seq<TickView<N>> {
    ticks.map_values(|t: Tick<N>| t@)
}

impl<N: Number> Clone for Tick<N> {
    fn clone(&self) -> (r: Self)
        ensures
            r == *self,
    {
        Tick {
            ts_micros: self.ts_micros,
            price: self.price,
            quantity: self.quantity,
            side: self.side,
            exchange: self.exchange,
            symbol: self.symbol,
            trade_id: self.trade_id.clone(),
        }
    }
}

/// A timestamp as a UTC instant; see [`Tick::timestamp`].
pub open spec fn moment_of(ts_micros: i64) -> Moment {
    let secs = towards_zero(ts_micros as int, 1_000_000);
    let rest = ts_micros - secs * 1_000_000;
    if rest < 0 || !(CALENDAR_START_SECS <= secs <= CALENDAR_END_SECS) {
        Moment { secs: CALENDAR_START_SECS, nanos: 0 }
    } else {
        Moment { secs: secs as i64, nanos: (rest * 1_000) as u32 }
    }
}

impl<N: Number> Tick<N> {
    /// The timestamp as a UTC instant; the first instant of the calendar stands in for
    /// a timestamp outside it, and for one before the epoch that is not a whole number
    /// of seconds.
    pub fn timestamp(&self) -> (r: Moment)
        ensures
            r == moment_of(self.ts_micros),
    {
        let secs: i64 = match self.ts_micros.checked_div(1_000_000) {
            Some(q) => q,
            None => 0,
        };
        let rest: i64 = match self.ts_micros.checked_rem(1_000_000) {
            Some(q) => q,
            None => 0,
        };
        let first = Moment { secs: CALENDAR_START_SECS, nanos: 0 };
        if rest < 0 {
            return first;
        }
        match calendar_moment(secs, rest as u32 * 1_000) {
            Some(m) => m,
            None => first,
        }
    }

    /// The timestamp in milliseconds, the fraction dropped.
    pub fn ts_millis(&self) -> (r: i64)
        ensures
            r == towards_zero(self.ts_micros as int, 1_000),
    {
        match self.ts_micros.checked_div(1_000) {
            Some(q) => q,
            None => 0,
        }
    }

    /// Notional value in USD.
    pub fn notional(&self) -> (r: N)
        ensures
            r == self.price.product(self.quantity),
    {
        self.price.mul(self.quantity)
    }
}

// ---------------------------------------------------------------------------
// OHLCV
// ---------------------------------------------------------------------------
/// OHLCV bar assembled lazily from a tick slice.
///
/// `open`  = price of the **first** tick in the window.
/// `close` = price of the **last** tick in the window.
/// No periodic resets: windows are query-time projections.
#[derive(Debug, Clone, Copy)]
pub struct Ohlcv<N> {
    pub open_ts: i64,
    pub close_ts: i64,
    pub open: N,
    pub high: N,
    pub low: N,
    pub close: N,
    /// Sum of BTC quantity across all ticks.
    pub volume: N,
    /// Sum of USD notional across all ticks.
    pub notional: N,
    pub tick_count: usize,
    pub vwap: N,
    /// Buy volume / total volume. `None` if no side information.
    pub buy_ratio: Option<N>,
}

impl<N: Number> Ohlcv<N> {
    /// Move from open to close as a fraction of the open.
    pub fn return_pct(&self) -> (r: N)
        ensures
            r == (if self.open.is_same(N::of_int(0)) {
                N::of_int(0)
            } else {
                self.close.difference(self.open).quotient(self.open)
            }),
    {
        let zero = N::from_int(0);
        if self.open.same(zero) {
            zero
        } else {
            self.close.sub(self.open).div(self.open)
        }
    }

    /// The bar's range, stretched to reach the previous close.
    pub fn true_range(&self, prev_close: N) -> (r: N)
        ensures
            r == self.high.larger(prev_close).difference(self.low.smaller(prev_close)),
    {
        self.high.max(prev_close).sub(self.low.min(prev_close))
    }
}

// ---------------------------------------------------------------------------
// Trend signal
// ---------------------------------------------------------------------------
#[derive(Debug, Clone, Copy, PartialEq, Eq, Structural)]
pub enum TrendDirection {
    Bullish,
    Bearish,
    Sideways,
}

/// Named time-scales, all run concurrently on the same tick ring.
#[derive(Debug, Clone, Copy, PartialEq, Eq, Structural, Hash)]
pub enum TimeScale {
    /// About 30 s.
    Micro,
    /// About 5 min.
    Short,
    /// About 1 h.
    Medium,
    /// About 24 h.
    Broad,
}

/// How far back a scale looks, in seconds.
pub open spec fn lookback(scale: TimeScale) -> int {
    match scale {
        TimeScale::Micro => 30,
        TimeScale::Short => 300,
        TimeScale::Medium => 3_600,
        TimeScale::Broad => 86_400,
    }
}

impl TimeScale {
    pub const ALL: [TimeScale; 4] = [
        TimeScale::Micro,
        TimeScale::Short,
        TimeScale::Medium,
        TimeScale::Broad,
    ];

    /// How far back the scale looks, in seconds.
    pub fn lookback_secs(self) -> (r: i64)
        ensures
            r == lookback(self),
    {
        match self {
            TimeScale::Micro => 30,
            TimeScale::Short => 300,
            TimeScale::Medium => 3_600,
            TimeScale::Broad => 86_400,
        }
    }

    /// How far back the scale looks, in microseconds.
    pub fn lookback_micros(self) -> (r: i64)
        ensures
            r == lookback(self) * 1_000_000,
    {
        self.lookback_secs() * 1_000_000
    }
}

#[derive(Debug, Clone, Copy)]
pub struct TrendSignal<N> {
    pub direction: TrendDirection,
    /// Calibrated probability between 0 and 1.
    pub confidence: N,
    pub scale: TimeScale,
    pub computed_at: i64,
}

} // verus!
