//! What comes of the exchanges' messages, and of connections that fail.

use vstd::prelude::*;
use vstd::arithmetic::power2::{lemma2_to64, lemma_pow2_unfold, pow2};
use crate::clock::rfc3339_micros;
use crate::feeds::session::{decided, FeedAction, FeedEvent, Session};
use crate::feeds::{backoff_nanos, binance, bitstamp, coinbase, kraken, levels, FeedConfig};
use crate::feeds::levels::RawLevel;
use crate::number::Number;
use crate::pick::picked;
use crate::feeds::jwt::{claims_at, handed_out, JwtCache};
use crate::text::{all_digits, decimal, decimal_reads_back, integer_of, is_digit, is_text};
use crate::types::{Tick, TradeSide};

verus! {

// ---------------------------------------------------------------------------
// Selections
// ---------------------------------------------------------------------------
/// `at` tells which entries a selection was made of, in order: each of them gives its
/// result, and no other entry gives any.
pub open spec fn selects<T, R>(
    entries: Seq<T>,
    pick: spec_fn(T) -> Option<R>,
    at: Seq<int>,
    out: Seq<R>,
) -> bool {
    &&& at.len() == out.len()
    &&& forall|k: int|
        0 <= k < at.len() ==> {
            &&& 0 <= #[trigger] at[k] < entries.len()
            &&& pick(entries[at[k]]) == Some(out[k])
        }
    &&& forall|k: int, l: int| 0 <= k < l < at.len() ==> #[trigger] at[k] < #[trigger] at[l]
    &&& forall|i: int|
        0 <= i < entries.len() && pick(#[trigger] entries[i]) is Some ==> at.contains(i)
}

/// What is picked from some entries is a selection of them.
pub proof fn picking_selects<T, R>(entries: Seq<T>, pick: spec_fn(T) -> Option<R>) -> (at: Seq<int>)
    ensures
        selects(entries, pick, at, picked(entries, pick)),
    decreases entries.len(),
{
    if entries.len() == 0 {
        Seq::empty()
    } else {
        let rest = entries.drop_last();
        let n = entries.len() - 1;
        let before = picking_selects(rest, pick);
        let out = picked(entries, pick);
        let old_out = picked(rest, pick);
        match pick(entries.last()) {
            Some(x) => {
                let at = before.push(n);
                assert forall|k: int| 0 <= k < at.len() implies {
                    &&& 0 <= #[trigger] at[k] < entries.len()
                    &&& pick(entries[at[k]]) == Some(out[k])
                } by {
                    if k < before.len() {
                        assert(at[k] == before[k]);
                        assert(entries[before[k]] == rest[before[k]]);
                    }
                }
                assert forall|k: int, l: int| 0 <= k < l < at.len() implies #[trigger] at[k]
                    < #[trigger] at[l] by {
                    assert(at[k] == before[k]);
                    if l < before.len() {
                        assert(at[l] == before[l]);
                    } else {
                        assert(0 <= before[k] < rest.len());
                    }
                }
                assert forall|i: int|
                    0 <= i < entries.len() && pick(#[trigger] entries[i]) is Some implies at.contains(
                    i,
                ) by {
                    if i < n {
                        assert(rest[i] == entries[i]);
                        assert(before.contains(i));
                        let k = choose|k: int| 0 <= k < before.len() && before[k] == i;
                        assert(at[k] == i);
                    } else {
                        assert(at[before.len() as int] == n);
                    }
                }
                at
            },
            None => {
                assert forall|k: int| 0 <= k < before.len() implies {
                    &&& 0 <= #[trigger] before[k] < entries.len()
                    &&& pick(entries[before[k]]) == Some(out[k])
                } by {
                    assert(entries[before[k]] == rest[before[k]]);
                }
                assert forall|i: int|
                    0 <= i < entries.len() && pick(
                        #[trigger] entries[i],
                    ) is Some implies before.contains(i) by {
                    assert(i < n);
                    assert(rest[i] == entries[i]);
                }
                before
            },
        }
    }
}

proof fn picked_joins<T, R>(a: Seq<T>, b: Seq<T>, pick: spec_fn(T) -> Option<R>)
    ensures
        picked(a + b, pick) == picked(a, pick) + picked(b, pick),
    decreases b.len(),
{
    if b.len() == 0 {
        assert(a + b =~= a);
        assert(picked(a, pick) + picked(b, pick) =~= picked(a, pick));
    } else {
        picked_joins(a, b.drop_last(), pick);
        assert((a + b).drop_last() =~= a + b.drop_last());
        assert((a + b).last() == b.last());
        assert(picked(a + b, pick) =~= picked(a, pick) + picked(b, pick));
    }
}

// ---------------------------------------------------------------------------
// Trades
// ---------------------------------------------------------------------------
/// Every trade of a Kraken message whose time can be read gives one tick, in order, with
/// the trade's own price, quantity, time and side; messages of other channels or kinds
/// give none.
pub proof fn kraken_trades_become_ticks<N>(msg: kraken::KrakenMsg<N>) -> (at: Seq<int>)
    ensures
        ({
            let out = kraken::message_ticks(msg);
            let speaks = is_text(msg.channel, "trade"@) && (is_text(msg.msg_type, "update"@)
                || is_text(msg.msg_type, "snapshot"@));
            &&& msg.data is None || !speaks ==> out.len() == 0
            &&& msg.data matches Some(data) ==> (speaks ==> {
                &&& selects(data@, kraken::trade_read(), at, out)
                &&& forall|k: int|
                    0 <= k < out.len() ==> {
                        let t = data@[at[k]];
                        &&& rfc3339_micros(t.timestamp@) == Some((#[trigger] out[k]).ts_micros)
                        &&& out[k].price == t.price
                        &&& out[k].quantity == t.qty
                        &&& out[k].exchange is Kraken
                        &&& out[k].side == Some(TradeSide::Buy) <==> t.side@ == "buy"@
                        &&& out[k].side == Some(TradeSide::Sell) <==> t.side@ == "sell"@
                        &&& t.trade_id matches Some(id) ==> out[k].trade_id == decimal(id as nat)
                    }
                &&& forall|i: int|
                    0 <= i < data@.len() && rfc3339_micros(
                        (#[trigger] data@[i]).timestamp@,
                    ) is Some ==> at.contains(i)
            })
        }),
{
    reveal_strlit("buy");
    reveal_strlit("sell");
    assert("buy"@.len() != "sell"@.len());
    match msg.data {
        Some(data) => {
            let at = picking_selects(data@, kraken::trade_read());
            let out = picked(data@, kraken::trade_read());
            assert forall|k: int| 0 <= k < out.len() implies {
                let t = data@[at[k]];
                &&& rfc3339_micros(t.timestamp@) == Some((#[trigger] out[k]).ts_micros)
                &&& out[k].price == t.price
                &&& out[k].quantity == t.qty
                &&& out[k].exchange is Kraken
                &&& out[k].side == Some(TradeSide::Buy) <==> t.side@ == "buy"@
                &&& out[k].side == Some(TradeSide::Sell) <==> t.side@ == "sell"@
                &&& t.trade_id matches Some(id) ==> out[k].trade_id == decimal(id as nat)
            } by {
                assert(0 <= at[k] < data@.len());
            }
            at
        },
        None => Seq::empty(),
    }
}

/// All trades of the updates among some Coinbase events.
pub open spec fn update_trades<N>(events: Seq<coinbase::CbEvent<N>>) -> Seq<coinbase::CbTrade<N>>
    decreases events.len(),
{
    if events.len() == 0 {
        Seq::empty()
    } else {
        let e = events.last();
        update_trades(events.drop_last()) + if is_text(e.ev_type, "update"@) && e.trades is Some {
            e.trades->0@
        } else {
            Seq::empty()
        }
    }
}

proof fn updates_are_flattened<N>(events: Seq<coinbase::CbEvent<N>>, now: i64)
    ensures
        coinbase::event_ticks(events, now) == picked(
            update_trades(events),
            coinbase::trade_at(now),
        ),
    decreases events.len(),
{
    if events.len() > 0 {
        updates_are_flattened(events.drop_last(), now);
        picked_joins(
            update_trades(events.drop_last()),
            coinbase::trades_of(events.last()),
            coinbase::trade_at(now),
        );
    }
}

/// Every trade in the updates of a Coinbase message whose numbers can be read gives one
/// tick, in order, with the trade's own price, quantity and side; where its time cannot be
/// read the tick has the time now. Messages of other channels give none.
pub proof fn coinbase_trades_become_ticks<N>(env: coinbase::CbEnvelope<N>, now: i64) -> (at: Seq<int>)
    ensures
        ({
            let out = coinbase::message_ticks(env, now);
            let speaks = is_text(env.channel, "market_trades"@);
            &&& env.events is None || !speaks ==> out.len() == 0
            &&& env.events matches Some(events) ==> (speaks ==> {
                let trades = update_trades(events@);
                &&& selects(trades, coinbase::trade_at(now), at, out)
                &&& forall|k: int|
                    0 <= k < out.len() ==> {
                        let t = trades[at[k]];
                        &&& t.price == Some((#[trigger] out[k]).price)
                        &&& t.size == Some(out[k].quantity)
                        &&& out[k].ts_micros == (match rfc3339_micros(t.time@) {
                            Some(ts) => ts,
                            None => now,
                        })
                        &&& out[k].exchange is Coinbase
                        &&& out[k].side == Some(TradeSide::Buy) <==> t.side@ == "BUY"@
                        &&& out[k].side == Some(TradeSide::Sell) <==> t.side@ == "SELL"@
                        &&& out[k].trade_id == t.trade_id@
                    }
                &&& forall|i: int|
                    0 <= i < trades.len() && (#[trigger] trades[i]).price is Some
                        && trades[i].size is Some ==> at.contains(i)
            })
        }),
{
    reveal_strlit("BUY");
    reveal_strlit("SELL");
    assert("BUY"@.len() != "SELL"@.len());
    match env.events {
        Some(events) => {
            let trades = update_trades(events@);
            updates_are_flattened(events@, now);
            let pick = coinbase::trade_at::<N>(now);
            let at = picking_selects(trades, pick);
            let out = picked(trades, pick);
            assert forall|k: int| 0 <= k < out.len() implies {
                let t = trades[at[k]];
                &&& t.price == Some((#[trigger] out[k]).price)
                &&& t.size == Some(out[k].quantity)
                &&& out[k].ts_micros == (match rfc3339_micros(t.time@) {
                    Some(ts) => ts,
                    None => now,
                })
                &&& out[k].exchange is Coinbase
                &&& out[k].side == Some(TradeSide::Buy) <==> t.side@ == "BUY"@
                &&& out[k].side == Some(TradeSide::Sell) <==> t.side@ == "SELL"@
                &&& out[k].trade_id == t.trade_id@
            } by {
                assert(0 <= at[k] < trades.len());
            }
            at
        },
        None => Seq::empty(),
    }
}

/// A Binance trade is a sale by its taker exactly when the buyer was the maker; its time
/// is brought to microseconds, and its numbers are its own.
pub proof fn binance_trades_become_ticks<N>(t: binance::BinanceTrade<N>)
    requires
        i64::MIN <= t.trade_time * 1_000,
    ensures
        binance::trade_of(t) is Some <==> t.price is Some && t.qty is Some,
        binance::trade_of(t) matches Some(tick) ==> {
            &&& t.price == Some(tick.price)
            &&& t.qty == Some(tick.quantity)
            &&& tick.side == Some(TradeSide::Sell) <==> t.buyer_is_maker
            &&& tick.side == Some(TradeSide::Buy) <==> !t.buyer_is_maker
            &&& tick.exchange is Binance
            &&& tick.ts_micros == t.trade_time || tick.ts_micros == t.trade_time * 1_000
            &&& tick.ts_micros == t.trade_time * 1_000 || t.trade_time >= 10_000_000_000_000
            &&& tick.trade_id == decimal(t.trade_id as nat)
        },
{
}

/// A Bitstamp trade keeps its numbers; its type tells the taker's side, 0 for a purchase
/// and 1 for a sale. A message is a trade, a request to reconnect, or nothing.
pub proof fn bitstamp_trades_become_ticks<N>(
    event: Seq<char>,
    data: Option<bitstamp::BitstampTrade<N>>,
    now: i64,
    r: bitstamp::ParseResult<Tick<N>>,
)
    requires
        bitstamp::parses_to(event, data, now, r),
    ensures
        r is Item <==> event == "trade"@ && data is Some,
        r is Reconnect <==> event == "bts:request_reconnect"@,
        r matches bitstamp::ParseResult::Item(tick) ==> {
            let t = data->0;
            &&& tick.price == t.price
            &&& tick.quantity == t.amount
            &&& tick.side == Some(TradeSide::Buy) <==> t.trade_type == 0
            &&& tick.side == Some(TradeSide::Sell) <==> t.trade_type == 1
            &&& tick.exchange is Bitstamp
            &&& integer_of(t.microtimestamp@) matches Some(ts) ==> tick.ts_micros == ts
            &&& integer_of(t.microtimestamp@) is None ==> tick.ts_micros == now
        },
{
    reveal_strlit("trade");
    reveal_strlit("bts:request_reconnect");
    assert("trade"@.len() != "bts:request_reconnect"@.len());
    if let bitstamp::ParseResult::Item(tick) = r {
        assert(tick@ == bitstamp::trade_of(data->0, now));
        assert(tick@.price == tick.price && tick@.side == tick.side);
    }
}

// ---------------------------------------------------------------------------
// Books
// ---------------------------------------------------------------------------
/// The levels of a book side are the first ten of those that were sent with readable
/// numbers and a quantity, in order, unchanged.
pub proof fn levels_are_the_first_that_count<N: Number>(raw: Seq<RawLevel<N>>) -> (at: Seq<int>)
    ensures
        ({
            let out = levels::levels_of(raw);
            let counts = |r: RawLevel<N>|
                r.price is Some && r.qty is Some && !(r.qty->0).is_same(N::of_int(0));
            &&& out.len() <= 10
            &&& out.len() <= at.len()
            &&& out.len() == 10 || out.len() == at.len()
            &&& forall|k: int|
                0 <= k < at.len() ==> 0 <= #[trigger] at[k] < raw.len() && counts(raw[at[k]])
            &&& forall|k: int, l: int| 0 <= k < l < at.len() ==> #[trigger] at[k] < #[trigger] at[l]
            &&& forall|i: int|
                0 <= i < raw.len() && counts(#[trigger] raw[i]) ==> at.contains(i)
            &&& forall|k: int|
                0 <= k < out.len() ==> {
                    &&& raw[at[k]].price == Some((#[trigger] out[k]).price)
                    &&& raw[at[k]].qty == Some(out[k].qty)
                }
        }),
{
    let pick = levels::read_level::<N>();
    let at = picking_selects(raw, pick);
    let all = picked(raw, pick);
    let out = levels::levels_of(raw);
    assert forall|k: int| 0 <= k < out.len() implies {
        &&& raw[at[k]].price == Some((#[trigger] out[k]).price)
        &&& raw[at[k]].qty == Some(out[k].qty)
    } by {
        assert(out[k] == all[k]);
        assert(0 <= at[k] < raw.len());
    }
    at
}

// ---------------------------------------------------------------------------
// Reconnects
// ---------------------------------------------------------------------------
/// The wait doubles from one failure to the next, up to the tenth and up to the cap.
pub proof fn waits_double_up_to_the_cap(initial: nat, cap: nat, attempt: nat)
    ensures
        backoff_nanos(initial, cap, 0) == (if initial < cap { initial } else { cap }),
        attempt < 10 ==> backoff_nanos(initial, cap, attempt + 1) == (if 2 * backoff_nanos(
            initial,
            cap,
            attempt,
        ) < cap {
            2 * backoff_nanos(initial, cap, attempt)
        } else {
            cap
        }),
        attempt >= 10 ==> backoff_nanos(initial, cap, attempt) == backoff_nanos(initial, cap, 10),
{
    lemma2_to64();
    assert(initial * pow2(0) == initial) by (nonlinear_arith)
        requires
            pow2(0) == 1,
    ;
    if attempt < 10 {
        lemma_pow2_unfold(attempt + 1);
        assert(initial * pow2(attempt + 1) == 2 * (initial * pow2(attempt))) by (nonlinear_arith)
            requires
                pow2(attempt + 1) == 2 * pow2(attempt),
        ;
    }
}

/// Only a connection that could not be made or was lost is waited for or given up; a ping
/// is answered, a message that was handed on is followed by the next, a feed whose receiver
/// is gone ends, and a connection that is made starts the count of failures anew.
pub proof fn events_get_their_answers(
    config: FeedConfig,
    before: Session,
    event: FeedEvent,
    after: Session,
    action: FeedAction,
)
    requires
        decided(config, before, event, after, action),
    ensures
        action is Wait || action is GiveUp <==> event is ConnectFailed || event is Lost
            || event is PingFailed,
        action is Finish <==> event is ReceiverGone,
        action is SendPong <==> event is PingReceived,
        action is SendPing <==> event is PingDue,
        event is Delivered || event is Idle || event is Subscribed ==> action is Listen,
        event is Connected ==> after.attempt == 0,
        event is Connected && before.subscribes ==> action is Subscribe,
        action is Subscribe ==> before.subscribes,
        event is ReconnectRequested || event is Waited || event is Started ==> action is Connect
            && after.attempt == before.attempt,
        after.subscribes == before.subscribes,
{
}

// ---------------------------------------------------------------------------
// Numbers as text
// ---------------------------------------------------------------------------
/// A whole number that is written out reads back as itself, with a minus sign before it as
/// its opposite, and with anything after it not at all.
pub proof fn integers_read_back(n: nat, tail: char)
    requires
        n <= i64::MAX,
        !is_digit(tail),
    ensures
        integer_of(decimal(n)) == Some(n as i64),
        integer_of(seq!['-'] + decimal(n)) == Some((-n) as i64),
        integer_of(seq!['+'] + decimal(n)) == Some(n as i64),
        integer_of(decimal(n).push(tail)) is None,
{
    decimal_reads_back(n);
    let text = decimal(n);
    assert(is_digit(text[0]));
    assert((seq!['-'] + text).skip(1) =~= text);
    assert((seq!['+'] + text).skip(1) =~= text);
    let longer = text.push(tail);
    assert(longer[text.len() as int] == tail);
    assert(longer[0] == text[0]);
    assert(!all_digits(longer));
}

// ---------------------------------------------------------------------------
// Tokens
// ---------------------------------------------------------------------------
/// A token that is at most 90 seconds old is handed out again, unchanged.
pub proof fn young_tokens_are_handed_out_again(
    before: JwtCache,
    now: i64,
    after: JwtCache,
    r: Option<String>,
)
    requires
        handed_out(before, now, after, r),
        now - before.signed_at() <= 90,
    ensures
        r == before.token(),
        after.token() == before.token(),
        after.signed_at() == before.signed_at(),
{
}

/// A token claims to be the key's, from the moment that it is signed on and for two
/// minutes.
pub proof fn claims_last_two_minutes(key: Seq<char>, now: i64)
    requires
        now <= i64::MAX - 120,
    ensures
        claims_at(key, now).sub == key,
        claims_at(key, now).nbf == now,
        claims_at(key, now).exp == now + 120,
{
}

} // verus!
