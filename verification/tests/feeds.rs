use btc_prediction_engine::feeds::binance::{self, BinanceTrade};
use btc_prediction_engine::feeds::binance_book::{self, BinanceDepth};
use btc_prediction_engine::feeds::bitstamp::{self, BitstampTrade, ParseResult};
use btc_prediction_engine::feeds::bitstamp_book::{self, BitstampBook};
use btc_prediction_engine::feeds::coinbase::{self, CbEnvelope, CbEvent, CbTrade};
use btc_prediction_engine::feeds::jwt::{build_jwt, claims_for, JwtCache};
use btc_prediction_engine::feeds::kraken::{self, KrakenMsg, KrakenTrade};
use btc_prediction_engine::feeds::kraken_book::{
    KrakenBookData, KrakenBookMsg, LocalBook, Side,
};
use btc_prediction_engine::feeds::levels::{parse_levels, RawLevel};
use btc_prediction_engine::feeds::session::{FeedAction, FeedEvent, Session};
use btc_prediction_engine::feeds::{BookFeedConfig, FeedConfig};
use btc_prediction_engine::number::{Fixed, Number};
use btc_prediction_engine::span::Span;
use btc_prediction_engine::text::{decimal_text, parse_i64};
use btc_prediction_engine::types::{Exchange, Level, Symbol, TradeSide};

fn d(num: i64, den: i64) -> Fixed {
    Fixed::ratio(num, den)
}

fn some(text: &str) -> Option<String> {
    Some(text.to_string())
}

fn level(price: i64, qty: i64) -> Level<Fixed> {
    Level { price: d(price, 1), qty: d(qty, 1) }
}

fn raw(price: i64, qty: i64) -> RawLevel<Fixed> {
    RawLevel { price: Some(d(price, 1)), qty: Some(d(qty, 1)) }
}

fn prices(levels: &[Level<Fixed>]) -> Vec<Fixed> {
    levels.iter().map(|l| l.price).collect()
}

// Text

#[test]
fn integers_from_text() {
    assert_eq!(parse_i64("1699000000000000"), Some(1_699_000_000_000_000));
    assert_eq!(parse_i64("-42"), Some(-42));
    assert_eq!(parse_i64("+7"), Some(7));
    assert_eq!(parse_i64("007"), Some(7));
    assert_eq!(parse_i64("9223372036854775807"), Some(i64::MAX));
    assert_eq!(parse_i64("-9223372036854775808"), Some(i64::MIN));
    for bad in [
        "", "-", "+", "1.5", " 1", "1 ", "--1", "12a", "9223372036854775808",
        "-9223372036854775809", "99999999999999999999999999999999999999999999",
    ] {
        assert_eq!(parse_i64(bad), None, "{}", bad);
        assert!(bad.parse::<i64>().is_err());
    }
}

// Configuration and sessions

#[test]
fn public_and_authenticated_configs() {
    let c = FeedConfig::public(Exchange::Kraken, Symbol::BtcUsd);
    assert!(c.api_key.is_none() && c.api_secret.is_none());
    assert_eq!(c.max_reconnect_attempts, 0);
    assert_eq!(c.native_symbol(), "BTC/USD");
    let a = FeedConfig::authenticated(
        Exchange::Coinbase,
        Symbol::BtcUsd,
        "name".to_string(),
        "pem".to_string(),
    );
    assert_eq!(a.api_key.as_deref(), Some("name"));
    assert_eq!(a.api_secret.as_deref(), Some("pem"));
    let b = BookFeedConfig::public(Exchange::Binance, Symbol::BtcUsd);
    assert_eq!(b.feed.native_symbol(), "btcusdt");
}

#[test]
fn backoff_doubles_up_to_the_cap() {
    let c = FeedConfig::public(Exchange::Binance, Symbol::BtcUsd);
    let secs: Vec<u64> = (0..8).map(|i| c.backoff(i).secs).collect();
    assert_eq!(secs, vec![1, 2, 4, 8, 16, 32, 60, 60]);
    assert_eq!(c.backoff(u32::MAX), Span::from_secs(60));
    let slow = FeedConfig {
        reconnect_initial: Span::from_millis(1),
        reconnect_cap: Span::from_secs(3_600),
        ..c
    };
    // Ten doublings at most.
    assert_eq!(slow.backoff(10), Span::from_millis(1_024));
    assert_eq!(slow.backoff(20), Span::from_millis(1_024));
}

#[test]
fn session_connects_listens_and_reconnects() {
    let config = FeedConfig::public(Exchange::Kraken, Symbol::BtcUsd);
    let mut s = Session::new(true);
    assert_eq!(s.next(&config, FeedEvent::Started), FeedAction::Connect);
    assert_eq!(s.next(&config, FeedEvent::ConnectFailed), FeedAction::Wait(Span::from_secs(2)));
    assert_eq!(s.next(&config, FeedEvent::Waited), FeedAction::Connect);
    assert_eq!(s.next(&config, FeedEvent::Connected), FeedAction::Subscribe);
    assert_eq!(s.attempt, 0);
    assert_eq!(s.next(&config, FeedEvent::SubscribeFailed), FeedAction::Connect);
    assert_eq!(s.next(&config, FeedEvent::Subscribed), FeedAction::Listen);
    assert_eq!(s.next(&config, FeedEvent::PingReceived), FeedAction::SendPong);
    assert_eq!(s.next(&config, FeedEvent::PingDue), FeedAction::SendPing);
    assert_eq!(s.next(&config, FeedEvent::Delivered), FeedAction::Listen);
    assert_eq!(s.next(&config, FeedEvent::RenewalDue), FeedAction::Subscribe);
    assert_eq!(s.next(&config, FeedEvent::ReconnectRequested), FeedAction::Connect);
    assert_eq!(s.next(&config, FeedEvent::Lost), FeedAction::Wait(Span::from_secs(2)));
    assert_eq!(s.next(&config, FeedEvent::PingFailed), FeedAction::Wait(Span::from_secs(4)));
    assert_eq!(s.next(&config, FeedEvent::ReceiverGone), FeedAction::Finish);
    let mut quiet = Session::new(false);
    assert_eq!(quiet.next(&config, FeedEvent::Connected), FeedAction::Listen);
    assert_eq!(quiet.next(&config, FeedEvent::RenewalDue), FeedAction::Listen);
}

#[test]
fn limited_session_gives_up() {
    let config = FeedConfig {
        max_reconnect_attempts: 2,
        ..FeedConfig::public(Exchange::Binance, Symbol::BtcUsd)
    };
    let mut s = Session::new(false);
    assert!(matches!(s.next(&config, FeedEvent::ConnectFailed), FeedAction::Wait(_)));
    assert!(matches!(s.next(&config, FeedEvent::ConnectFailed), FeedAction::Wait(_)));
    assert_eq!(s.next(&config, FeedEvent::ConnectFailed), FeedAction::GiveUp);
}

// Binance

#[test]
fn binance_trades() {
    let mut t = BinanceTrade {
        trade_id: 123_456,
        price: Some(d(340_005, 10)),
        qty: Some(d(1, 1_000)),
        trade_time: 1_699_000_000_000_000,
        buyer_is_maker: false,
    };
    let tick = binance::parse(&t).unwrap();
    assert_eq!(tick.ts_micros, 1_699_000_000_000_000);
    assert_eq!(tick.price, d(340_005, 10));
    assert_eq!(tick.side, Some(TradeSide::Buy));
    assert_eq!(tick.exchange, Exchange::Binance);
    assert_eq!(tick.trade_id, "123456");
    // Milliseconds.
    t.trade_time = 1_699_000_000_000;
    t.buyer_is_maker = true;
    t.trade_id = 0;
    let tick = binance::parse(&t).unwrap();
    assert_eq!(tick.ts_micros, 1_699_000_000_000_000);
    assert_eq!(tick.side, Some(TradeSide::Sell));
    assert_eq!(tick.trade_id, "0");
    t.trade_id = u64::MAX;
    assert_eq!(binance::parse(&t).unwrap().trade_id, "18446744073709551615");
    t.price = None;
    assert!(binance::parse(&t).is_none());
}

#[test]
fn binance_markers_and_addresses() {
    assert!(binance::mentions_trade(r#"{"e":"trade","t":1}"#));
    assert!(!binance::mentions_trade(r#"{"e":"aggTrade","t":1}"#));
    assert!(!binance::mentions_trade(""));
    let trades = FeedConfig::public(Exchange::Binance, Symbol::BtcUsd);
    assert_eq!(
        binance::stream_url(&trades),
        "wss://stream.binance.com:9443/ws/btcusdt@trade?timeUnit=MICROSECOND"
    );
    let books = BookFeedConfig::public(Exchange::Binance, Symbol::BtcUsd);
    assert_eq!(
        binance_book::stream_url(&books),
        "wss://stream.binance.com:9443/ws/btcusdt@depth10@100ms"
    );
}

#[test]
fn levels_are_filtered_and_cut() {
    let mut all: Vec<RawLevel<Fixed>> = vec![
        raw(100, 0),
        RawLevel { price: None, qty: Some(d(1, 1)) },
        RawLevel { price: Some(d(99, 1)), qty: None },
    ];
    for i in 0..12 {
        all.push(raw(50 - i, 1));
    }
    let kept = parse_levels(&all);
    assert_eq!(kept.len(), 10);
    assert_eq!(kept[0].price, d(50, 1));
    assert_eq!(kept[9].price, d(41, 1));
}

#[test]
fn binance_depth() {
    let depth = BinanceDepth { bids: vec![raw(10, 2)], asks: vec![raw(11, 3), raw(12, 0)] };
    let book = binance_book::parse(&depth, 77);
    assert_eq!(book.ts_micros, 77);
    assert_eq!(book.exchange, Exchange::Binance);
    assert_eq!(book.best_bid(), Some(d(10, 1)));
    assert_eq!(book.asks.len(), 1);
}

// Coinbase

fn cb_trade(id: &str, side: &str, time: &str) -> CbTrade<Fixed> {
    CbTrade {
        trade_id: id.to_string(),
        price: Some(d(50_000, 1)),
        size: Some(d(1, 2)),
        side: side.to_string(),
        time: time.to_string(),
    }
}

#[test]
fn coinbase_messages() {
    let mut broken = cb_trade("4", "BUY", "2024-01-01T00:00:00Z");
    broken.size = None;
    let env = CbEnvelope {
        channel: some("market_trades"),
        events: Some(vec![
            CbEvent {
                ev_type: some("snapshot"),
                trades: Some(vec![cb_trade("0", "BUY", "2024-01-01T00:00:00Z")]),
            },
            CbEvent {
                ev_type: some("update"),
                trades: Some(vec![
                    cb_trade("1", "BUY", "2024-01-01T00:00:00.123456789Z"),
                    cb_trade("2", "SELL", "2024-01-01T01:00:00+01:00"),
                    cb_trade("3", "?", "yesterday"),
                    broken,
                ]),
            },
            CbEvent { ev_type: some("update"), trades: None },
        ]),
    };
    let ticks = coinbase::parse_at(&env, 42);
    let ids: Vec<&str> = ticks.iter().map(|t| t.trade_id.as_str()).collect();
    assert_eq!(ids, vec!["1", "2", "3"]);
    assert_eq!(ticks[0].ts_micros, 1_704_067_200_123_456);
    assert_eq!(ticks[0].side, Some(TradeSide::Buy));
    assert_eq!(ticks[1].ts_micros, 1_704_067_200_000_000);
    assert_eq!(ticks[1].side, Some(TradeSide::Sell));
    assert_eq!(ticks[2].ts_micros, 42);
    assert_eq!(ticks[2].side, None);
    assert_eq!(ticks[2].exchange, Exchange::Coinbase);
    // An unreadable time is the present.
    let now = coinbase::parse_msgs(&env);
    assert_eq!(now.len(), 3);
    assert!(now[2].ts_micros > 1_704_067_200_000_000);
    let other = CbEnvelope { channel: some("heartbeats"), ..env };
    assert!(coinbase::parse_at(&other, 42).is_empty());
    let empty: CbEnvelope<Fixed> = CbEnvelope { channel: None, events: None };
    assert!(coinbase::parse_at(&empty, 42).is_empty());
}

#[test]
fn coinbase_trade_with_a_given_time() {
    let t = cb_trade("9", "SELL", "");
    assert_eq!(coinbase::trade_tick(&t, Some(5), 7).unwrap().ts_micros, 5);
    assert_eq!(coinbase::trade_tick(&t, None, 7).unwrap().ts_micros, 7);
}

fn base64(bytes: &[u8]) -> String {
    let table: Vec<char> =
        "ABCDEFGHIJKLMNOPQRSTUVWXYZabcdefghijklmnopqrstuvwxyz0123456789+/".chars().collect();
    let mut out = String::new();
    for chunk in bytes.chunks(3) {
        let mut n: u32 = 0;
        for i in 0..3 {
            n = n << 8 | *chunk.get(i).unwrap_or(&0) as u32;
        }
        for i in 0..4 {
            if i <= chunk.len() {
                out.push(table[(n >> (18 - 6 * i) & 63) as usize]);
            } else {
                out.push('=');
            }
        }
    }
    out
}

fn unbase64_url(text: &str) -> String {
    let table = "ABCDEFGHIJKLMNOPQRSTUVWXYZabcdefghijklmnopqrstuvwxyz0123456789-_";
    let mut bits: Vec<u8> = Vec::new();
    for c in text.chars() {
        let v = table.find(c).unwrap();
        for i in (0..6).rev() {
            bits.push((v >> i & 1) as u8);
        }
    }
    let bytes: Vec<u8> = bits
        .chunks(8)
        .filter(|c| c.len() == 8)
        .map(|c| c.iter().fold(0u8, |b, bit| b << 1 | bit))
        .collect();
    String::from_utf8(bytes).unwrap()
}

fn unhex(text: &str) -> Vec<u8> {
    (0..text.len() / 2).map(|i| u8::from_str_radix(&text[2 * i..2 * i + 2], 16).unwrap()).collect()
}

/// The P-256 key whose secret is one and whose public point is the curve's generator.
fn unit_key() -> String {
    let mut der = unhex("308187020100301306072a8648ce3d020106082a8648ce3d030107046d306b0201010420");
    der.extend([0u8; 31]);
    der.push(1);
    der.extend(unhex("a14403420004"));
    der.extend(unhex("6b17d1f2e12c4247f8bce6e563a440f277037d812deb33a0f4a13945d898c296"));
    der.extend(unhex("4fe342e2fe1a7f9b8ee7eb4a7c0f9e162bce33576b315ececbb6406837bf51f5"));
    let tag = "PRIVATE KEY";
    format!("-----BEGIN {tag}-----\n{}\n-----END {tag}-----\n", base64(&der))
}

#[test]
fn failing_feed_waits_and_gives_up() {
    let mut config = FeedConfig::public(Exchange::Kraken, Symbol::BtcUsd);
    config.max_reconnect_attempts = 3;
    let mut s = Session::new(true);
    for k in 1..=3u32 {
        let wait = s.next(&config, FeedEvent::ConnectFailed);
        assert_eq!(wait, FeedAction::Wait(config.backoff(k)));
        assert_eq!(s.next(&config, FeedEvent::Waited), FeedAction::Connect);
    }
    assert_eq!(s.next(&config, FeedEvent::Lost), FeedAction::GiveUp);
    config.max_reconnect_attempts = 0;
    let mut s = Session::new(true);
    for k in 1..=200u32 {
        assert_eq!(s.next(&config, FeedEvent::ConnectFailed), FeedAction::Wait(config.backoff(k)));
        assert_eq!(s.next(&config, FeedEvent::Waited), FeedAction::Connect);
    }
}

#[test]
fn tokens_carry_their_claims() {
    let key = "organizations/x/apiKeys/y".to_string();
    let c = claims_for(&key, 1_000);
    assert_eq!((c.nbf, c.exp), (1_000, 1_120));
    assert_eq!((c.sub.as_str(), c.iss.as_str()), (key.as_str(), "cdp"));

    let token = build_jwt(&key, &unit_key(), 1_000).unwrap();
    let parts: Vec<&str> = token.split('.').collect();
    assert_eq!(parts.len(), 3);
    let header: serde_json::Value = serde_json::from_str(&unbase64_url(parts[0])).unwrap();
    assert_eq!(header["alg"], "ES256");
    assert_eq!(header["kid"], key.as_str());
    let claims: serde_json::Value = serde_json::from_str(&unbase64_url(parts[1])).unwrap();
    assert_eq!(claims["sub"], key.as_str());
    assert_eq!(claims["iss"], "cdp");
    assert_eq!(claims["nbf"], 1_000);
    assert_eq!(claims["exp"], 1_120);
    // Another time, another input; the same time, the same input.
    let again = build_jwt(&key, &unit_key(), 1_000).unwrap();
    assert_eq!(again.rsplit_once('.').unwrap().0, token.rsplit_once('.').unwrap().0);
    let later = build_jwt(&key, &unit_key(), 1_001).unwrap();
    assert_ne!(later.rsplit_once('.').unwrap().0, token.rsplit_once('.').unwrap().0);
    assert!(build_jwt(&key, &"no key".to_string(), 1_000).is_none());
}

#[test]
fn tokens_are_renewed_after_ninety_seconds() {
    let mut cache = JwtCache::new("k".to_string(), unit_key());
    assert!(!cache.due(90) && cache.due(91));
    assert!(cache.token_at(50).is_none());
    let first = cache.token_at(1_000).unwrap();
    assert_eq!(cache.token_at(1_090).unwrap(), first);
    let second = cache.token_at(1_091).unwrap();
    assert_ne!(second, first);
    cache.renew(None, 2_000);
    assert!(cache.token_at(2_010).is_none());
    assert!(cache.token_now().is_some());
}

#[test]
fn tokens_are_renewed_on_an_open_connection() {
    let config = FeedConfig::public(Exchange::Coinbase, Symbol::BtcUsd);
    let mut session = Session::new(true);
    let mut cache = JwtCache::new("k".to_string(), unit_key());
    assert_eq!(session.next(&config, FeedEvent::Connected), FeedAction::Subscribe);
    let first = cache.token_at(1_000).unwrap();
    assert_eq!(session.next(&config, FeedEvent::Subscribed), FeedAction::Listen);
    assert_eq!(cache.due_in(1_000), 91);
    assert_eq!(cache.due_in(1_090), 1);
    assert_eq!(cache.due_in(1_091), 0);
    assert_eq!(cache.due_in(5_000), 0);
    // Too early: nothing to do.
    assert_eq!(cache.check(1_090), FeedEvent::Idle);
    assert_eq!(session.next(&config, cache.check(1_090)), FeedAction::Listen);
    // More than 90 seconds on, the subscription is made again with a new token.
    assert_eq!(cache.check(1_091), FeedEvent::RenewalDue);
    assert_eq!(session.next(&config, cache.check(1_091)), FeedAction::Subscribe);
    let second = cache.token_at(1_091).unwrap();
    assert_ne!(second, first);
    assert_eq!(cache.due_in(1_091), 91);
    assert_eq!(session.attempt, 0);
}

// Kraken

fn kraken_trade(id: Option<u64>, side: &str, timestamp: &str) -> KrakenTrade<Fixed> {
    KrakenTrade {
        trade_id: id,
        price: d(340_005, 10),
        qty: d(5, 1_000),
        side: side.to_string(),
        timestamp: timestamp.to_string(),
    }
}

#[test]
fn kraken_messages() {
    let data = || {
        Some(vec![
            kraken_trade(Some(4_711), "buy", "2024-01-01T00:00:00.123456Z"),
            kraken_trade(None, "sell", "2024-01-01T00:00:01Z"),
            kraken_trade(Some(1), "buy", "not a time"),
            kraken_trade(Some(2), "none", "1969-12-31T23:59:59.5Z"),
        ])
    };
    let msg = KrakenMsg { channel: some("trade"), msg_type: some("update"), data: data() };
    let ticks = kraken::parse(&msg);
    assert_eq!(ticks.len(), 3);
    assert_eq!(ticks[0].ts_micros, 1_704_067_200_123_456);
    assert_eq!(ticks[0].trade_id, "4711");
    assert_eq!(ticks[0].side, Some(TradeSide::Buy));
    assert_eq!(ticks[0].price, d(340_005, 10));
    assert_eq!(ticks[1].trade_id, "");
    assert_eq!(ticks[1].side, Some(TradeSide::Sell));
    assert_eq!(ticks[2].ts_micros, -500_000);
    assert_eq!(ticks[2].side, None);
    assert_eq!(ticks[2].exchange, Exchange::Kraken);
    let snapshot = KrakenMsg { channel: some("trade"), msg_type: some("snapshot"), data: data() };
    assert_eq!(kraken::parse(&snapshot).len(), 3);
    let other = KrakenMsg { channel: some("trade"), msg_type: some("error"), data: data() };
    assert!(kraken::parse(&other).is_empty());
    let other = KrakenMsg { channel: some("status"), msg_type: some("update"), data: data() };
    assert!(kraken::parse(&other).is_empty());
    let none: KrakenMsg<Fixed> =
        KrakenMsg { channel: some("trade"), msg_type: some("update"), data: None };
    assert!(kraken::parse(&none).is_empty());
    assert_eq!(kraken::trade_tick(&kraken_trade(None, "buy", ""), Some(9)).unwrap().ts_micros, 9);
    assert!(kraken::trade_tick(&kraken_trade(None, "buy", ""), None).is_none());
}

#[test]
fn kraken_book_follows_changes() {
    let mut book: LocalBook<Fixed> = LocalBook::new();
    let msg = |kind: &str, bids: Option<Vec<Level<Fixed>>>, asks: Option<Vec<Level<Fixed>>>| {
        KrakenBookMsg {
            channel: some("book"),
            msg_type: some(kind),
            data: Some(vec![KrakenBookData { bids, asks }]),
        }
    };
    // One side alone is no book yet.
    assert!(book.on_message(&msg("snapshot", Some(vec![level(10, 1), level(12, 2)]), None), 1).is_none());
    let snap = book.on_message(&msg("update", None, Some(vec![level(15, 1), level(14, 2)])), 2).unwrap();
    assert_eq!(prices(&snap.bids), vec![d(12, 1), d(10, 1)]);
    assert_eq!(prices(&snap.asks), vec![d(14, 1), d(15, 1)]);
    assert_eq!(snap.ts_micros, 2);
    assert_eq!(snap.exchange, Exchange::Kraken);
    // Replace, add in between, remove, and remove what is not there.
    let changes = vec![level(12, 9), level(11, 3), level(10, 0), level(7, 0)];
    let snap = book.on_message(&msg("update", Some(changes), None), 3).unwrap();
    assert_eq!(prices(&snap.bids), vec![d(12, 1), d(11, 1)]);
    assert_eq!(snap.bids[0].qty, d(9, 1));
    assert!(book.on_message(&msg("heartbeat", Some(vec![level(1, 1)]), None), 4).is_none());
    let mut other = msg("update", Some(vec![level(1, 1)]), None);
    other.channel = some("trade");
    assert!(book.on_message(&other, 5).is_none());
    assert_eq!(book.snapshot(6).bids.len(), 2);
}

#[test]
fn kraken_book_reads_back_the_last_quantities() {
    let mut book: LocalBook<Fixed> = LocalBook::new();
    book.apply(&vec![level(100, 1), level(101, 2), level(99, 3)], Side::Bid);
    book.apply(&vec![level(101, 0), level(99, 7), level(100, 4), level(100, 5)], Side::Bid);
    book.apply(&vec![level(105, 1), level(104, 1), level(105, 0), level(106, 2)], Side::Ask);
    let snap = book.snapshot(9);
    let shown = |levels: &Vec<Level<Fixed>>| -> Vec<(i64, i64)> {
        levels.iter().map(|l| (l.price.round(), l.qty.round())).collect()
    };
    assert_eq!(shown(&snap.bids), vec![(100, 5), (99, 7)]);
    assert_eq!(shown(&snap.asks), vec![(104, 1), (106, 2)]);
    assert_eq!(snap.ts_micros, 9);
}

#[test]
fn kraken_book_shows_the_top() {
    let mut book: LocalBook<Fixed> = LocalBook::new();
    let many: Vec<Level<Fixed>> = (1..=15).map(|p| level(p, 1)).collect();
    book.apply(&many, Side::Bid);
    book.apply(&many, Side::Ask);
    let snap = book.snapshot(0);
    assert_eq!(snap.bids.len(), 10);
    assert_eq!(snap.bids[0].price, d(15, 1));
    assert_eq!(snap.bids[9].price, d(6, 1));
    assert_eq!(snap.asks[0].price, d(1, 1));
    assert_eq!(snap.asks[9].price, d(10, 1));
}

// Bitstamp

fn bitstamp_trade(id: Option<u64>, micros: &str, kind: u8) -> BitstampTrade<Fixed> {
    BitstampTrade {
        id,
        microtimestamp: micros.to_string(),
        price: d(34_000, 1),
        amount: d(2, 1_000),
        trade_type: kind,
    }
}

#[test]
fn bitstamp_messages() {
    let event = |name: &str| name.to_string();
    let data = Some(bitstamp_trade(Some(123_456), "1699000000000000", 0));
    match bitstamp::parse_at(&event("trade"), data, 5) {
        ParseResult::Item(tick) => {
            assert_eq!(tick.ts_micros, 1_699_000_000_000_000);
            assert_eq!(tick.trade_id, "123456");
            assert_eq!(tick.side, Some(TradeSide::Buy));
            assert_eq!(tick.quantity, d(2, 1_000));
            assert_eq!(tick.exchange, Exchange::Bitstamp);
        },
        _ => panic!("no tick"),
    }
    match bitstamp::parse_at(&event("trade"), Some(bitstamp_trade(None, "soon", 1)), 5) {
        ParseResult::Item(tick) => {
            assert_eq!(tick.ts_micros, 5);
            assert_eq!(tick.trade_id, "");
            assert_eq!(tick.side, Some(TradeSide::Sell));
        },
        _ => panic!("no tick"),
    }
    match bitstamp::parse(&event("trade"), Some(bitstamp_trade(None, "soon", 2))) {
        ParseResult::Item(tick) => {
            assert!(tick.ts_micros > 1_704_067_200_000_000);
            assert_eq!(tick.side, None);
        },
        _ => panic!("no tick"),
    }
    let none = || -> Option<BitstampTrade<Fixed>> { None };
    assert!(matches!(bitstamp::parse_at(&event("trade"), none(), 5), ParseResult::Skip));
    let asked = event("bts:request_reconnect");
    assert!(matches!(bitstamp::parse_at(&asked, none(), 5), ParseResult::Reconnect));
    assert!(matches!(bitstamp::parse_at(&event("bts:heartbeat"), none(), 5), ParseResult::Skip));
    assert!(matches!(bitstamp::parse_at(&event("?"), none(), 5), ParseResult::Skip));
    let trades = FeedConfig::public(Exchange::Bitstamp, Symbol::BtcUsd);
    assert_eq!(bitstamp::channel(&trades), "live_trades_btcusd");
}

#[test]
fn bitstamp_books() {
    let event = |name: &str| name.to_string();
    let data = BitstampBook {
        microtimestamp: "1699000000000000".to_string(),
        bids: vec![raw(34_000, 1)],
        asks: vec![],
    };
    match bitstamp_book::parse_at(&event("data"), Some(data), 5) {
        ParseResult::Item(book) => {
            assert_eq!(book.ts_micros, 1_699_000_000_000_000);
            assert_eq!(book.exchange, Exchange::Bitstamp);
            assert_eq!(book.bids.len(), 1);
            assert!(book.asks.is_empty());
        },
        _ => panic!("no book"),
    }
    let empty: BitstampBook<Fixed> =
        BitstampBook { microtimestamp: "1".to_string(), bids: vec![raw(1, 0)], asks: vec![] };
    assert!(matches!(bitstamp_book::parse(&event("data"), Some(empty)), ParseResult::Skip));
    let none = || -> Option<BitstampBook<Fixed>> { None };
    assert!(matches!(bitstamp_book::parse(&event("data"), none()), ParseResult::Skip));
    let asked = event("bts:request_reconnect");
    assert!(matches!(bitstamp_book::parse(&asked, none()), ParseResult::Reconnect));
    assert!(matches!(bitstamp_book::parse(&event("x"), none()), ParseResult::Skip));
    let books = BookFeedConfig::public(Exchange::Bitstamp, Symbol::BtcUsd);
    assert_eq!(bitstamp_book::channel(&books), "order_book_btcusd");
}

#[test]
fn numbers_are_written_in_decimal() {
    for n in [0u64, 7, 10, 42, 1_000, 9_876_543_210, u64::MAX] {
        assert_eq!(decimal_text(n), n.to_string());
    }
    assert_eq!(parse_i64(&decimal_text(4_711)), Some(4_711));
}
