//! A table with at most one entry for each exchange.

use vstd::prelude::*;
use crate::types::Exchange;

verus! {

/// At most one value for each exchange.
///
/// The entries are walked in the order in which [`Exchange`] lists its variants.
#[derive(Debug, Clone, Copy)]
pub struct PerExchange<T> {
    binance: Option<T>,
    coinbase: Option<T>,
    kraken: Option<T>,
    bitstamp: Option<T>,
}

/// The value of an optional entry as a sequence of at most one.
pub open spec fn entry_seq<T>(entry: Option<T>) -> Seq<T> {
    match entry {
        Some(v) => seq![v],
        None => Seq::empty(),
    }
}

impl<T: Copy> PerExchange<T> {
    /// The entry of one exchange.
    pub closed spec fn entry(self, exchange: Exchange) -> Option<T> {
        match exchange {
            Exchange::Binance => self.binance,
            Exchange::Coinbase => self.coinbase,
            Exchange::Kraken => self.kraken,
            Exchange::Bitstamp => self.bitstamp,
        }
    }

    /// The entries that are there, in walking order.
    pub open spec fn entries(self) -> Seq<T> {
        entry_seq(self.entry(Exchange::Binance)) + entry_seq(self.entry(Exchange::Coinbase))
            + entry_seq(self.entry(Exchange::Kraken)) + entry_seq(self.entry(Exchange::Bitstamp))
    }

    /// An empty table.
    pub fn new() -> (r: Self)
        ensures
            forall|e: Exchange| #[trigger] r.entry(e) is None,
    {
        PerExchange { binance: None, coinbase: None, kraken: None, bitstamp: None }
    }

    /// The entry of one exchange.
    pub fn get(&self, exchange: Exchange) -> (r: Option<T>)
        ensures
            r == self.entry(exchange),
    {
        match exchange {
            Exchange::Binance => self.binance,
            Exchange::Coinbase => self.coinbase,
            Exchange::Kraken => self.kraken,
            Exchange::Bitstamp => self.bitstamp,
        }
    }

    /// Sets the entry of one exchange and leaves the others.
    pub fn insert(&mut self, exchange: Exchange, value: T)
        ensures
            final(self).entry(exchange) == Some(value),
            forall|e: Exchange| e != exchange ==> #[trigger] final(self).entry(e) == old(self).entry(e),
    {
        match exchange {
            Exchange::Binance => self.binance = Some(value),
            Exchange::Coinbase => self.coinbase = Some(value),
            Exchange::Kraken => self.kraken = Some(value),
            Exchange::Bitstamp => self.bitstamp = Some(value),
        }
    }

    /// The entries that are there, in walking order.
    pub fn values(&self) -> (r: Vec<T>)
        ensures
            r@ == self.entries(),
    {
        let mut out: Vec<T> = Vec::new();
        if let Some(v) = self.binance {
            out.push(v);
        }
        if let Some(v) = self.coinbase {
            out.push(v);
        }
        if let Some(v) = self.kraken {
            out.push(v);
        }
        if let Some(v) = self.bitstamp {
            out.push(v);
        }
        assert(out@ =~= self.entries());
        out
    }

    /// How many exchanges have an entry.
    pub fn len(&self) -> (r: usize)
        ensures
            r == self.entries().len(),
            r <= 4,
    {
        let mut n: usize = 0;
        if self.binance.is_some() {
            n += 1;
        }
        if self.coinbase.is_some() {
            n += 1;
        }
        if self.kraken.is_some() {
            n += 1;
        }
        if self.bitstamp.is_some() {
            n += 1;
        }
        n
    }
}

} // verus!
