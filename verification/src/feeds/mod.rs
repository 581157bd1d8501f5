//! Exchange feed configuration and the decisions every feed shares.

use vstd::prelude::*;
use vstd::arithmetic::power2::{lemma2_to64, lemma_pow2_strictly_increases, pow2};
use crate::span::{Span, NANOS_PER_SEC};
use crate::types::{native_symbol, Exchange, Symbol};

pub mod binance;
pub mod binance_book;
pub mod bitstamp;
pub mod bitstamp_book;
pub mod coinbase;
pub mod jwt;
pub mod kraken;
pub mod kraken_book;
pub mod levels;
pub mod session;

verus! {

// ---------------------------------------------------------------------------
// Trade feed configuration
// ---------------------------------------------------------------------------
#[derive(Debug, Clone)]
pub struct FeedConfig {
    pub exchange: Exchange,
    pub symbol: Symbol,
    pub api_key: Option<String>,
    pub api_secret: Option<String>,
    /// Consecutive failures after which the feed gives up; 0 means never.
    pub max_reconnect_attempts: u32,
    pub reconnect_initial: Span,
    pub reconnect_cap: Span,
}

/// The wait before reconnect number `attempt`, in nanoseconds: the initial wait
/// doubled once per attempt, ten times at most, and never above the cap.
pub open spec fn backoff_nanos(initial: nat, cap: nat, attempt: nat) -> nat {
    let doublings = if attempt < 10 { attempt } else { 10 };
    let wait = initial * pow2(doublings);
    if wait < cap { wait } else { cap }
}

impl FeedConfig {
    /// The configured waits are proper time spans.
    pub open spec fn valid(self) -> bool {
        self.reconnect_initial.valid() && self.reconnect_cap.valid()
    }

    /// A feed that needs no credentials: retries for ever, first after a second,
    /// then at most a minute apart.
    pub fn public(exchange: Exchange, symbol: Symbol) -> (r: Self)
        ensures
            r.valid(),
            r.exchange == exchange,
            r.symbol == symbol,
            r.api_key is None,
            r.api_secret is None,
            r.max_reconnect_attempts == 0,
            r.reconnect_initial == (Span { secs: 1, nanos: 0 }),
            r.reconnect_cap == (Span { secs: 60, nanos: 0 }),
    {
        FeedConfig {
            exchange,
            symbol,
            api_key: None,
            api_secret: None,
            max_reconnect_attempts: 0,
            reconnect_initial: Span { secs: 1, nanos: 0 },
            reconnect_cap: Span { secs: 60, nanos: 0 },
        }
    }

    /// A public feed with credentials added.
    pub fn authenticated(
        exchange: Exchange,
        symbol: Symbol,
        api_key: String,
        api_secret: String,
    ) -> (r: Self)
        ensures
            r.valid(),
            r.exchange == exchange,
            r.symbol == symbol,
            r.api_key == Some(api_key),
            r.api_secret == Some(api_secret),
            r.max_reconnect_attempts == 0,
            r.reconnect_initial == (Span { secs: 1, nanos: 0 }),
            r.reconnect_cap == (Span { secs: 60, nanos: 0 }),
    {
        let mut c = Self::public(exchange, symbol);
        c.api_key = Some(api_key);
        c.api_secret = Some(api_secret);
        c
    }

    /// Exponential backoff capped at `reconnect_cap`.
    pub fn backoff(&self, attempt: u32) -> (r: Span)
        requires
            self.valid(),
        ensures
            r.valid(),
            r.total() == backoff_nanos(
                self.reconnect_initial.total(),
                self.reconnect_cap.total(),
                attempt as nat,
            ),
    {
        let doublings: u32 = if attempt < 10 { attempt } else { 10 };
        let mut wait: u128 = self.reconnect_initial.as_nanos();
        let ghost initial = self.reconnect_initial.total();
        let mut i: u32 = 0;
        proof {
            lemma2_to64();
            assert(initial * pow2(0) == initial) by (nonlinear_arith)
                requires
                    pow2(0) == 1,
            ;
        }
        while i < doublings
            invariant
                i <= doublings <= 10,
                initial < 0x1_0000_0000_0000_0000 * NANOS_PER_SEC,
                wait == initial * pow2(i as nat),
                pow2(i as nat) <= 1024,
            decreases doublings - i,
        {
            proof {
                vstd::arithmetic::power2::lemma_pow2_unfold((i + 1) as nat);
                assert(initial * (2 * pow2(i as nat)) == 2 * (initial * pow2(i as nat)))
                    by (nonlinear_arith);
                assert(initial * pow2(i as nat) <= initial * 1024) by (nonlinear_arith)
                    requires
                        pow2(i as nat) <= 1024,
                ;
                lemma2_to64();
                if i + 1 < 10 {
                    lemma_pow2_strictly_increases((i + 1) as nat, 10);
                }
            }
            wait = wait * 2;
            i += 1;
        }
        let cap: u128 = self.reconnect_cap.as_nanos();
        if wait < cap {
            Span { secs: (wait / NANOS_PER_SEC) as u64, nanos: (wait % NANOS_PER_SEC) as u32 }
        } else {
            self.reconnect_cap
        }
    }

    /// Native exchange symbol string for this (exchange, symbol) pair.
    pub fn native_symbol(&self) -> (r: &'static str)
        ensures
            r@ == native_symbol(self.symbol, self.exchange),
    {
        self.symbol.for_exchange(self.exchange)
    }
}

/// A later reconnect never waits less than an earlier one, and none waits longer
/// than the cap.
pub proof fn backoff_grows_to_the_cap(initial: nat, cap: nat, earlier: nat, later: nat)
    requires
        earlier <= later,
    ensures
        backoff_nanos(initial, cap, earlier) <= backoff_nanos(initial, cap, later) <= cap,
{
    let a = if earlier < 10 { earlier } else { 10 };
    let b = if later < 10 { later } else { 10 };
    if a < b {
        lemma_pow2_strictly_increases(a, b);
    }
    assert(initial * pow2(a) <= initial * pow2(b)) by (nonlinear_arith)
        requires
            pow2(a) <= pow2(b),
    ;
}

// ---------------------------------------------------------------------------
// Order book feed configuration
// ---------------------------------------------------------------------------
/// Configuration for a Level 2 order book feed.
#[derive(Debug, Clone)]
pub struct BookFeedConfig {
    /// Shared trade/book feed settings (exchange, symbol, reconnect policy).
    pub feed: FeedConfig,
}

impl BookFeedConfig {
    /// Construct a public (unauthenticated) book feed config.
    pub fn public(exchange: Exchange, symbol: Symbol) -> (r: Self)
        ensures
            r.feed.valid(),
            r.feed.exchange == exchange,
            r.feed.symbol == symbol,
            r.feed.api_key is None,
            r.feed.api_secret is None,
            r.feed.max_reconnect_attempts == 0,
            r.feed.reconnect_initial == (Span { secs: 1, nanos: 0 }),
            r.feed.reconnect_cap == (Span { secs: 60, nanos: 0 }),
    {
        BookFeedConfig { feed: FeedConfig::public(exchange, symbol) }
    }
}

} // verus!
