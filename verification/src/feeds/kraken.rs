//! Kraken Spot WebSocket v2 trade feed: BTC/USD.
//!
//! **Endpoint:** `wss://ws.kraken.com/v2`, channel `trade`.
//!
//! ```json
//! {"channel":"trade","type":"update","data":[
//!   {"symbol":"BTC/USD","side":"buy","price":34000.5,"qty":0.005,
//!    "ord_type":"market","trade_id":4711,"timestamp":"2024-01-01T00:00:00.123456Z"}
//! ]}
//! ```

use vstd::prelude::*;
use crate::clock::{parse_rfc3339, rfc3339_micros};
use crate::number::Number;
use crate::pick::picked;
use crate::text::{decimal, decimal_text, is_text, same_text, some_text};
use crate::types::{tick_views, Exchange, Symbol, Tick, TickView, TradeSide};

verus! {

/// Where the feed is.
pub const WS_URL: &'static str = "wss://ws.kraken.com/v2";

/// The channel of trades.
pub const TRADES_CHANNEL: &'static str = "trade";

/// Seconds between two pings of our own; the server closes connections that are idle
/// for about a minute.
pub const PING_SECS: u64 = 30;

/// A message.
#[derive(Debug)]
pub struct KrakenMsg<N> {
    pub channel: Option<String>,
    pub msg_type: Option<String>,
    pub data: Option<Vec<KrakenTrade<N>>>,
}

/// A trade in a message.
#[derive(Debug)]
pub struct KrakenTrade<N> {
    pub trade_id: Option<u64>,
    pub price: N,
    pub qty: N,
    pub side: String,
    pub timestamp: String,
}

/// The taker's side.
pub open spec fn side_of(text: Seq<char>) -> Option<TradeSide> {
    if text == "buy"@ {
        Some(TradeSide::Buy)
    } else if text == "sell"@ {
        Some(TradeSide::Sell)
    } else {
        None
    }
}

/// An optional ID as text.
pub open spec fn id_text(id: Option<u64>) -> Seq<char> {
    match id {
        Some(id) => decimal(id as nat),
        None => Seq::empty(),
    }
}

pub(crate) fn id_string(id: Option<u64>) -> (r: String)
    ensures
        r@ == id_text(id),
{
    match id {
        Some(id) => decimal_text(id),
        None => {
            proof {
                reveal_strlit("");
            }
            let r: String = "".to_owned();
            assert(r@ =~= Seq::empty());
            r
        },
    }
}

/// The tick of a trade whose time has been read; `None` if it could not be.
pub open spec fn trade_of<N>(t: KrakenTrade<N>, parsed: Option<i64>) -> Option<TickView<N>> {
    match parsed {
        Some(ts_micros) => Some(
            TickView {
                ts_micros,
                price: t.price,
                quantity: t.qty,
                side: side_of(t.side@),
                exchange: Exchange::Kraken,
                symbol: Symbol::BtcUsd,
                trade_id: id_text(t.trade_id),
            },
        ),
        None => None,
    }
}

/// The tick of a trade.
pub open spec fn trade_read<N>() -> spec_fn(KrakenTrade<N>) -> Option<TickView<N>> {
    |t: KrakenTrade<N>| trade_of(t, rfc3339_micros(t.timestamp@))
}

/// Does a message bring data on a channel?
pub open spec fn brings_data(channel: Option<String>, msg_type: Option<String>, name: Seq<char>) -> bool {
    is_text(channel, name) && (is_text(msg_type, "update"@) || is_text(msg_type, "snapshot"@))
}

pub(crate) fn has_data(channel: &Option<String>, msg_type: &Option<String>, name: &str) -> (r: bool)
    ensures
        r == brings_data(*channel, *msg_type, name@),
{
    some_text(channel, name) && (some_text(msg_type, "update") || some_text(msg_type, "snapshot"))
}

/// The ticks of a message: those of updates and snapshots of the trades channel.
pub open spec fn message_ticks<N>(msg: KrakenMsg<N>) -> Seq<TickView<N>> {
    match msg.data {
        Some(data) => if brings_data(msg.channel, msg.msg_type, TRADES_CHANNEL@) {
            picked(data@, trade_read())
        } else {
            Seq::empty()
        },
        None => Seq::empty(),
    }
}

/// The tick of a trade whose time has been read.
pub fn trade_tick<N: Number>(t: &KrakenTrade<N>, parsed: Option<i64>) -> (r: Option<Tick<N>>)
    ensures
        match r {
            Some(tick) => trade_of(*t, parsed) == Some(tick@),
            None => trade_of(*t, parsed) is None,
        },
{
    let ts_micros: i64 = match parsed {
        Some(ts) => ts,
        None => return None,
    };
    let side = if same_text(&t.side, "buy") {
        Some(TradeSide::Buy)
    } else if same_text(&t.side, "sell") {
        Some(TradeSide::Sell)
    } else {
        None
    };
    Some(
        Tick {
            ts_micros,
            price: t.price,
            quantity: t.qty,
            side,
            exchange: Exchange::Kraken,
            symbol: Symbol::BtcUsd,
            trade_id: id_string(t.trade_id),
        },
    )
}

/// The ticks of a message.
pub fn parse<N: Number>(msg: &KrakenMsg<N>) -> (r: Vec<Tick<N>>)
    ensures
        tick_views(r@) == message_ticks(*msg),
{
    let mut out: Vec<Tick<N>> = Vec::new();
    assert(tick_views(out@) =~= Seq::empty());
    if !has_data(&msg.channel, &msg.msg_type, TRADES_CHANNEL) {
        return out;
    }
    if let Some(data) = &msg.data {
        let ghost pick = trade_read::<N>();
        let mut i: usize = 0;
        while i < data.len()
            invariant
                i <= data.len(),
                pick == trade_read::<N>(),
                tick_views(out@) == picked(data@.take(i as int), pick),
            decreases data.len() - i,
        {
            let t = &data[i];
            assert(data@.take(i + 1).drop_last() =~= data@.take(i as int));
            let parsed: Option<i64> = parse_rfc3339(t.timestamp.as_str());
            let ghost so_far = out@;
            match trade_tick(t, parsed) {
                Some(tick) => {
                    out.push(tick);
                    assert(tick_views(out@) =~= tick_views(so_far).push(tick@));
                },
                None => {},
            }
            i += 1;
        }
        assert(data@.take(data@.len() as int) =~= data@);
    }
    out
}

} // verus!
