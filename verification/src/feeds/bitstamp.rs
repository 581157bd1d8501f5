//! Bitstamp WebSocket v2 trade feed: BTC/USD.
//!
//! **Endpoint:** `wss://ws.bitstamp.net`, channel `live_trades_btcusd`.
//!
//! ```json
//! {"event":"trade","channel":"live_trades_btcusd","data":{
//!   "id":123456,"timestamp":"1699000000","microtimestamp":"1699000000000000",
//!   "amount":0.002,"amount_str":"0.00200000",
//!   "price":34000,"price_str":"34000",
//!   "type":0,"buy_order_id":111,"sell_order_id":222
//! }}
//! ```
//!
//! `type` 0: taker is buyer; 1: taker is seller. `bts:request_reconnect` announces a
//! rolling restart of the server: reconnect at once.

use vstd::prelude::*;
use vstd::string::StringExecFns;
use crate::clock::{utc_now_micros, CALENDAR_END_MICROS};
use crate::feeds::kraken::{id_string, id_text};
use crate::feeds::FeedConfig;
use crate::number::Number;
use crate::text::{integer_of, parse_i64, same_text};
use crate::types::{native_symbol, Exchange, Symbol, Tick, TickView, TradeSide};

verus! {

/// Where the feed is.
pub const WS_URL: &'static str = "wss://ws.bitstamp.net";

/// The event that brings a trade.
pub const TRADE_EVENT: &'static str = "trade";

/// The event by which the server asks for a reconnect.
pub const RECONNECT_EVENT: &'static str = "bts:request_reconnect";

/// The data of a trade event.
#[derive(Debug)]
pub struct BitstampTrade<N> {
    pub id: Option<u64>,
    pub microtimestamp: String,
    pub price: N,
    pub amount: N,
    pub trade_type: u8,
}

/// What a message comes to.
#[derive(Debug)]
pub enum ParseResult<T> {
    /// Something to hand on.
    Item(T),
    /// The server asked for a reconnect.
    Reconnect,
    /// Nothing to hand on.
    Skip,
}

/// The taker's side.
pub open spec fn side_of(trade_type: u8) -> Option<TradeSide> {
    if trade_type == 0 {
        Some(TradeSide::Buy)
    } else if trade_type == 1 {
        Some(TradeSide::Sell)
    } else {
        None
    }
}

/// A time in microseconds; `now` stands in for one that cannot be read.
pub open spec fn time_of(text: Seq<char>, now: i64) -> i64 {
    match integer_of(text) {
        Some(ts) => ts,
        None => now,
    }
}

pub(crate) fn read_time(text: &String, now: i64) -> (r: i64)
    ensures
        r == time_of(text@, now),
{
    match parse_i64(text.as_str()) {
        Some(ts) => ts,
        None => now,
    }
}

/// The tick of a trade, `now` being the time.
pub open spec fn trade_of<N>(t: BitstampTrade<N>, now: i64) -> TickView<N> {
    TickView {
        ts_micros: time_of(t.microtimestamp@, now),
        price: t.price,
        quantity: t.amount,
        side: side_of(t.trade_type),
        exchange: Exchange::Bitstamp,
        symbol: Symbol::BtcUsd,
        trade_id: id_text(t.id),
    }
}

/// `r` is what a message comes to: the tick of a trade event whose data could be
/// decoded, a reconnect where the server asks for one, and nothing otherwise.
pub open spec fn parses_to<N>(
    event: Seq<char>,
    data: Option<BitstampTrade<N>>,
    now: i64,
    r: ParseResult<Tick<N>>,
) -> bool {
    if event == TRADE_EVENT@ {
        match data {
            Some(t) => r matches ParseResult::Item(tick) && tick@ == trade_of(t, now),
            None => r is Skip,
        }
    } else if event == RECONNECT_EVENT@ {
        r is Reconnect
    } else {
        r is Skip
    }
}

/// What a message comes to, at a given time; `data` is `None` where the event carries
/// none or it could not be decoded as a trade.
pub fn parse_at<N: Number>(event: &String, data: Option<BitstampTrade<N>>, now: i64) -> (r:
    ParseResult<Tick<N>>)
    ensures
        parses_to(event@, data, now, r),
{
    if same_text(event, TRADE_EVENT) {
        let t = match data {
            Some(t) => t,
            None => return ParseResult::Skip,
        };
        let side = match t.trade_type {
            0 => Some(TradeSide::Buy),
            1 => Some(TradeSide::Sell),
            _ => None,
        };
        let tick = Tick {
            ts_micros: read_time(&t.microtimestamp, now),
            price: t.price,
            quantity: t.amount,
            side,
            exchange: Exchange::Bitstamp,
            symbol: Symbol::BtcUsd,
            trade_id: id_string(t.id),
        };
        ParseResult::Item(tick)
    } else if same_text(event, RECONNECT_EVENT) {
        ParseResult::Reconnect
    } else {
        ParseResult::Skip
    }
}

/// What a message comes to. A trade whose time cannot be read gets the wall clock's.
pub fn parse<N: Number>(event: &String, data: Option<BitstampTrade<N>>) -> (r: ParseResult<
    Tick<N>,
>)
    ensures
        exists|now: i64|
            0 <= now <= CALENDAR_END_MICROS && #[trigger] parses_to(event@, data, now, r),
{
    let now: i64 = utc_now_micros();
    parse_at(event, data, now)
}

/// The channel of a symbol's trades.
pub fn channel(config: &FeedConfig) -> (r: String)
    ensures
        r@ == "live_trades_"@ + native_symbol(config.symbol, config.exchange),
{
    let mut name: String = "live_trades_".to_owned();
    name.append(config.native_symbol());
    name
}

} // verus!
