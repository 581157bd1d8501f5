//! Coinbase Advanced Trade feed: BTC-USD.
//!
//! **Endpoint:** `wss://advanced-trade-ws.coinbase.com`, channel `market_trades`.

use vstd::prelude::*;
use crate::clock::{parse_rfc3339, rfc3339_micros, utc_now_micros, CALENDAR_END_MICROS};
use crate::number::Number;
use crate::pick::picked;
use crate::text::{is_text, same_text, some_text};
use crate::types::{tick_views, Exchange, Symbol, Tick, TickView, TradeSide};

verus! {

/// Where the feed is.
pub const WS_URL: &'static str = "wss://advanced-trade-ws.coinbase.com";

/// The channel of trades.
pub const TRADES_CHANNEL: &'static str = "market_trades";

/// The channel that keeps the connection alive while nothing trades.
pub const HEARTBEATS_CHANNEL: &'static str = "heartbeats";

/// A message.
#[derive(Debug)]
pub struct CbEnvelope<N> {
    pub channel: Option<String>,
    pub events: Option<Vec<CbEvent<N>>>,
}

/// An event in a message.
#[derive(Debug)]
pub struct CbEvent<N> {
    pub ev_type: Option<String>,
    pub trades: Option<Vec<CbTrade<N>>>,
}

/// A trade in an event, its numbers already read; `None` for a number that cannot be
/// read.
#[derive(Debug)]
pub struct CbTrade<N> {
    pub trade_id: String,
    pub price: Option<N>,
    pub size: Option<N>,
    pub side: String,
    pub time: String,
}

/// The taker's side.
pub open spec fn side_of(text: Seq<char>) -> Option<TradeSide> {
    if text == "BUY"@ {
        Some(TradeSide::Buy)
    } else if text == "SELL"@ {
        Some(TradeSide::Sell)
    } else {
        None
    }
}

/// The tick of a trade at a time; `None` if a number could not be read.
pub open spec fn trade_of<N>(t: CbTrade<N>, ts_micros: i64) -> Option<TickView<N>> {
    match (t.price, t.size) {
        (Some(price), Some(quantity)) => Some(
            TickView {
                ts_micros,
                price,
                quantity,
                side: side_of(t.side@),
                exchange: Exchange::Coinbase,
                symbol: Symbol::BtcUsd,
                trade_id: t.trade_id@,
            },
        ),
        _ => None,
    }
}

/// A trade's time; `now` stands in for one that cannot be read.
pub open spec fn time_of(parsed: Option<i64>, now: i64) -> i64 {
    match parsed {
        Some(ts) => ts,
        None => now,
    }
}

/// The tick of a trade, `now` being the time.
pub open spec fn trade_at<N>(now: i64) -> spec_fn(CbTrade<N>) -> Option<TickView<N>> {
    |t: CbTrade<N>| trade_of(t, time_of(rfc3339_micros(t.time@), now))
}

/// The trades of an event; only updates have any.
pub open spec fn trades_of<N>(event: CbEvent<N>) -> Seq<CbTrade<N>> {
    match event.trades {
        Some(trades) => if is_text(event.ev_type, "update"@) { trades@ } else { Seq::empty() },
        None => Seq::empty(),
    }
}

/// The ticks of some events, in order.
pub open spec fn event_ticks<N>(events: Seq<CbEvent<N>>, now: i64) -> Seq<TickView<N>>
    decreases events.len(),
{
    if events.len() == 0 {
        Seq::empty()
    } else {
        event_ticks(events.drop_last(), now) + picked(trades_of(events.last()), trade_at(now))
    }
}

/// The ticks of a message; only the trades channel has any.
pub open spec fn message_ticks<N>(env: CbEnvelope<N>, now: i64) -> Seq<TickView<N>> {
    match env.events {
        Some(events) => if is_text(env.channel, TRADES_CHANNEL@) {
            event_ticks(events@, now)
        } else {
            Seq::empty()
        },
        None => Seq::empty(),
    }
}

/// The tick of a trade, its time as read (if it could be) and the time now.
pub fn trade_tick<N: Number>(t: &CbTrade<N>, parsed: Option<i64>, now: i64) -> (r: Option<Tick<N>>)
    ensures
        match r {
            Some(tick) => trade_of(*t, time_of(parsed, now)) == Some(tick@),
            None => trade_of(*t, time_of(parsed, now)) is None,
        },
{
    let (price, quantity) = match (t.price, t.size) {
        (Some(p), Some(q)) => (p, q),
        _ => return None,
    };
    let side = if same_text(&t.side, "BUY") {
        Some(TradeSide::Buy)
    } else if same_text(&t.side, "SELL") {
        Some(TradeSide::Sell)
    } else {
        None
    };
    let ts_micros: i64 = match parsed {
        Some(ts) => ts,
        None => now,
    };
    Some(
        Tick {
            ts_micros,
            price,
            quantity,
            side,
            exchange: Exchange::Coinbase,
            symbol: Symbol::BtcUsd,
            trade_id: t.trade_id.clone(),
        },
    )
}

fn collect<N: Number>(trades: &Vec<CbTrade<N>>, now: i64, out: &mut Vec<Tick<N>>)
    ensures
        tick_views(final(out)@) == tick_views(old(out)@) + picked(trades@, trade_at(now)),
{
    let ghost before = tick_views(out@);
    let ghost pick = trade_at::<N>(now);
    let mut i: usize = 0;
    assert(tick_views(out@) =~= before + picked(trades@.take(0), pick));
    while i < trades.len()
        invariant
            i <= trades.len(),
            pick == trade_at::<N>(now),
            tick_views(out@) == before + picked(trades@.take(i as int), pick),
        decreases trades.len() - i,
    {
        let t = &trades[i];
        assert(trades@.take(i + 1).drop_last() =~= trades@.take(i as int));
        let parsed: Option<i64> = parse_rfc3339(t.time.as_str());
        let ghost so_far = out@;
        match trade_tick(t, parsed, now) {
            Some(tick) => {
                out.push(tick);
                assert(tick_views(out@) =~= tick_views(so_far).push(tick@));
            },
            None => {},
        }
        i += 1;
        assert(tick_views(out@) =~= before + picked(trades@.take(i as int), pick));
    }
    assert(trades@.take(trades@.len() as int) =~= trades@);
}

/// The ticks of a message, at a given time.
pub fn parse_at<N: Number>(env: &CbEnvelope<N>, now: i64) -> (r: Vec<Tick<N>>)
    ensures
        tick_views(r@) == message_ticks(*env, now),
{
    let mut out: Vec<Tick<N>> = Vec::new();
    assert(tick_views(out@) =~= Seq::empty());
    if !some_text(&env.channel, TRADES_CHANNEL) {
        return out;
    }
    if let Some(events) = &env.events {
        let mut i: usize = 0;
        while i < events.len()
            invariant
                i <= events.len(),
                tick_views(out@) == event_ticks(events@.take(i as int), now),
            decreases events.len() - i,
        {
            let ev = &events[i];
            assert(events@.take(i + 1).drop_last() =~= events@.take(i as int));
            let ghost so_far = tick_views(out@);
            if some_text(&ev.ev_type, "update") {
                if let Some(trades) = &ev.trades {
                    collect(trades, now, &mut out);
                }
            }
            i += 1;
            assert(picked(Seq::<CbTrade<N>>::empty(), trade_at::<N>(now)) =~= Seq::empty());
            assert(tick_views(out@) =~= so_far + picked(trades_of(*ev), trade_at(now)));
        }
        assert(events@.take(events@.len() as int) =~= events@);
    }
    out
}

/// The ticks of a message. A trade whose time cannot be read gets the wall clock's.
pub fn parse_msgs<N: Number>(env: &CbEnvelope<N>) -> (r: Vec<Tick<N>>)
    ensures
        exists|now: i64|
            0 <= now <= CALENDAR_END_MICROS && tick_views(r@) == #[trigger] message_ticks(*env, now),
{
    let now: i64 = utc_now_micros();
    parse_at(env, now)
}

} // verus!
