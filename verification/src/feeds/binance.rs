//! Binance Spot trade feed: BTC/USD (symbol `btcusdt`).
//!
//! **Endpoint:** `wss://stream.binance.com:9443/ws/btcusdt@trade?timeUnit=MICROSECOND`
//!
//! ```json
//! { "e":"trade","E":1699000000000000,"s":"BTCUSDT","t":123456,
//!   "p":"34000.50","q":"0.001","T":1699000000000000,"m":false }
//! ```
//! `m=false`: taker is buyer; `m=true`: taker is seller.

use vstd::prelude::*;
use vstd::string::StringExecFns;
use crate::feeds::FeedConfig;
use crate::number::Number;
use crate::text::{contains, decimal, decimal_text, holds};
use crate::types::{native_symbol, Exchange, Symbol, Tick, TickView, TradeSide};

verus! {

/// Where the public streams are.
pub const WS_BASE: &'static str = "wss://stream.binance.com:9443/ws";

/// A trade event, its numbers already read; `None` for a number that cannot be read.
#[derive(Debug)]
pub struct BinanceTrade<N> {
    pub trade_id: u64,
    pub price: Option<N>,
    pub qty: Option<N>,
    pub trade_time: i64,
    pub buyer_is_maker: bool,
}

/// Trade times below this are in milliseconds.
pub const FIRST_MICROS: i64 = 10_000_000_000_000;

/// A trade time in microseconds: one that is too small to be in microseconds is taken
/// to be in milliseconds.
pub open spec fn micros_of(trade_time: int) -> int {
    if trade_time < FIRST_MICROS { trade_time * 1_000 } else { trade_time }
}

/// The tick of a trade event; `None` if a number could not be read.
pub open spec fn trade_of<N>(t: BinanceTrade<N>) -> Option<TickView<N>> {
    match (t.price, t.qty) {
        (Some(price), Some(quantity)) => Some(
            TickView {
                ts_micros: micros_of(t.trade_time as int) as i64,
                price,
                quantity,
                side: Some(if t.buyer_is_maker { TradeSide::Sell } else { TradeSide::Buy }),
                exchange: Exchange::Binance,
                symbol: Symbol::BtcUsd,
                trade_id: decimal(t.trade_id as nat),
            },
        ),
        _ => None,
    }
}

/// Does a message look like a trade event?
pub fn mentions_trade(text: &str) -> (r: bool)
    ensures
        r == holds(text@, "\"trade\""@),
{
    contains(text, "\"trade\"")
}

/// The tick of a trade event.
pub fn parse<N: Number>(t: &BinanceTrade<N>) -> (r: Option<Tick<N>>)
    requires
        i64::MIN <= micros_of(t.trade_time as int),
    ensures
        match r {
            Some(tick) => trade_of(*t) == Some(tick@),
            None => trade_of(*t) is None,
        },
{
    let (price, quantity) = match (t.price, t.qty) {
        (Some(p), Some(q)) => (p, q),
        _ => return None,
    };
    let ts_micros: i64 = if t.trade_time < FIRST_MICROS {
        t.trade_time * 1_000
    } else {
        t.trade_time
    };
    let tick = Tick {
        ts_micros,
        price,
        quantity,
        side: Some(
            if t.buyer_is_maker {
                TradeSide::Sell
            } else {
                TradeSide::Buy
            },
        ),
        exchange: Exchange::Binance,
        symbol: Symbol::BtcUsd,
        trade_id: decimal_text(t.trade_id),
    };
    Some(tick)
}

/// The address of a symbol's trade stream.
pub fn stream_url(config: &FeedConfig) -> (r: String)
    ensures
        r@ == WS_BASE@ + "/"@ + native_symbol(config.symbol, config.exchange)
            + "@trade?timeUnit=MICROSECOND"@,
{
    let mut url: String = WS_BASE.to_owned();
    url.append("/");
    url.append(config.native_symbol());
    url.append("@trade?timeUnit=MICROSECOND");
    url
}

} // verus!
