//! Binance Spot order book feed: the top bids and asks.
//!
//! **Endpoint:** `wss://stream.binance.com:9443/ws/btcusdt@depth10@100ms`
//!
//! Every message is a full snapshot of the top levels, best first.
//!
//! ```json
//! { "lastUpdateId": 1027024,
//!   "bids": [["4.00000000","431.00000000"]],
//!   "asks": [["4.00000200","12.00000000"]] }
//! ```

use vstd::prelude::*;
use vstd::string::StringExecFns;
use crate::feeds::binance::WS_BASE;
use crate::feeds::levels::{is_book, levels_of, parse_levels, RawLevel};
use crate::feeds::BookFeedConfig;
use crate::number::Number;
use crate::types::{native_symbol, BookSnapshot, Exchange, Symbol};

verus! {

/// A depth message.
#[derive(Debug)]
pub struct BinanceDepth<N> {
    pub bids: Vec<RawLevel<N>>,
    pub asks: Vec<RawLevel<N>>,
}

/// The book of a depth message that came in at a time.
pub fn parse<N: Number>(depth: &BinanceDepth<N>, ts_micros: i64) -> (r: BookSnapshot<N>)
    ensures
        is_book(
            r,
            ts_micros,
            Exchange::Binance,
            levels_of(depth.bids@),
            levels_of(depth.asks@),
        ),
{
    BookSnapshot {
        ts_micros,
        exchange: Exchange::Binance,
        symbol: Symbol::BtcUsd,
        bids: parse_levels(&depth.bids),
        asks: parse_levels(&depth.asks),
    }
}

/// The address of a symbol's depth stream.
pub fn stream_url(config: &BookFeedConfig) -> (r: String)
    ensures
        r@ == WS_BASE@ + "/"@ + native_symbol(config.feed.symbol, config.feed.exchange)
            + "@depth10@100ms"@,
{
    let mut url: String = WS_BASE.to_owned();
    url.append("/");
    url.append(config.feed.native_symbol());
    url.append("@depth10@100ms");
    url
}

} // verus!
