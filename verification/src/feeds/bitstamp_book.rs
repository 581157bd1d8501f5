//! Bitstamp WebSocket v2 order book feed: the top bids and asks.
//!
//! **Endpoint:** `wss://ws.bitstamp.net`, channel `order_book_btcusd`.
//!
//! Every message is a full snapshot, of which the top levels are kept.
//!
//! ```json
//! {"event":"data","channel":"order_book_btcusd","data":{
//!   "timestamp":"1699000000","microtimestamp":"1699000000000000",
//!   "bids":[["34000.00","0.500"]],
//!   "asks":[["34001.00","0.300"]]
//! }}
//! ```

use vstd::prelude::*;
use vstd::string::StringExecFns;
use crate::clock::{utc_now_micros, CALENDAR_END_MICROS};
use crate::feeds::bitstamp::{read_time, time_of, ParseResult, RECONNECT_EVENT};
use crate::feeds::levels::{is_book, levels_of, parse_levels, RawLevel};
use crate::feeds::BookFeedConfig;
use crate::number::Number;
use crate::text::same_text;
use crate::types::{native_symbol, BookSnapshot, Exchange, Symbol};

verus! {

/// The event that brings a book.
pub const BOOK_EVENT: &'static str = "data";

/// The data of a book event.
#[derive(Debug)]
pub struct BitstampBook<N> {
    pub microtimestamp: String,
    pub bids: Vec<RawLevel<N>>,
    pub asks: Vec<RawLevel<N>>,
}

/// `r` is what a message comes to: the book of a data event whose data could be decoded
/// and shows any level, a reconnect where the server asks for one, and nothing
/// otherwise.
pub open spec fn parses_to<N: Number>(
    event: Seq<char>,
    data: Option<BitstampBook<N>>,
    now: i64,
    r: ParseResult<BookSnapshot<N>>,
) -> bool {
    if event == BOOK_EVENT@ {
        match data {
            Some(b) => {
                let (bids, asks) = (levels_of(b.bids@), levels_of(b.asks@));
                if bids.len() == 0 && asks.len() == 0 {
                    r is Skip
                } else {
                    r matches ParseResult::Item(snap) && is_book(
                        snap,
                        time_of(b.microtimestamp@, now),
                        Exchange::Bitstamp,
                        bids,
                        asks,
                    )
                }
            },
            None => r is Skip,
        }
    } else if event == RECONNECT_EVENT@ {
        r is Reconnect
    } else {
        r is Skip
    }
}

/// What a message comes to, at a given time; `data` is `None` where the event carries
/// none or it could not be decoded as a book.
pub fn parse_at<N: Number>(event: &String, data: Option<BitstampBook<N>>, now: i64) -> (r:
    ParseResult<BookSnapshot<N>>)
    ensures
        parses_to(event@, data, now, r),
{
    if same_text(event, BOOK_EVENT) {
        let b = match data {
            Some(b) => b,
            None => return ParseResult::Skip,
        };
        let bids = parse_levels(&b.bids);
        let asks = parse_levels(&b.asks);
        if bids.len() == 0 && asks.len() == 0 {
            return ParseResult::Skip;
        }
        ParseResult::Item(
            BookSnapshot {
                ts_micros: read_time(&b.microtimestamp, now),
                exchange: Exchange::Bitstamp,
                symbol: Symbol::BtcUsd,
                bids,
                asks,
            },
        )
    } else if same_text(event, RECONNECT_EVENT) {
        ParseResult::Reconnect
    } else {
        ParseResult::Skip
    }
}

/// What a message comes to. A book whose time cannot be read gets the wall clock's.
pub fn parse<N: Number>(event: &String, data: Option<BitstampBook<N>>) -> (r: ParseResult<
    BookSnapshot<N>,
>)
    ensures
        exists|now: i64|
            0 <= now <= CALENDAR_END_MICROS && #[trigger] parses_to(event@, data, now, r),
{
    let now: i64 = utc_now_micros();
    parse_at(event, data, now)
}

/// The channel of a symbol's book.
pub fn channel(config: &BookFeedConfig) -> (r: String)
    ensures
        r@ == "order_book_"@ + native_symbol(config.feed.symbol, config.feed.exchange),
{
    let mut name: String = "order_book_".to_owned();
    name.append(config.feed.native_symbol());
    name
}

} // verus!
