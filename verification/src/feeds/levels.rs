//! Order book levels as the exchanges send them.

use vstd::prelude::*;
use crate::number::Number;
use crate::pick::picked;
use crate::types::order_book::top_of;
use crate::types::{BookSnapshot, Exchange, Level, Symbol, BOOK_DEPTH};

verus! {

/// A level whose numbers have been read; `None` for a number that cannot be read.
#[derive(Debug, Clone, Copy)]
pub struct RawLevel<N> {
    pub price: Option<N>,
    pub qty: Option<N>,
}

/// A level that counts: both numbers could be read, and the quantity is not zero.
pub open spec fn read_level<N: Number>() -> spec_fn(RawLevel<N>) -> Option<Level<N>> {
    |raw: RawLevel<N>|
        match (raw.price, raw.qty) {
            (Some(price), Some(qty)) => if qty.is_same(N::of_int(0)) {
                None
            } else {
                Some(Level { price, qty })
            },
            _ => None,
        }
}

/// The first levels that count, as many as a book keeps.
pub open spec fn levels_of<N: Number>(raw: Seq<RawLevel<N>>) -> Seq<Level<N>> {
    top_of(picked(raw, read_level()), BOOK_DEPTH as nat)
}

/// The first levels that count, as many as a book keeps.
pub fn parse_levels<N: Number>(raw: &Vec<RawLevel<N>>) -> (r: Vec<Level<N>>)
    ensures
        r@ == levels_of(raw@),
{
    let zero = N::from_int(0);
    let mut out: Vec<Level<N>> = Vec::new();
    let ghost pick = read_level::<N>();
    let mut i: usize = 0;
    while i < raw.len()
        invariant
            i <= raw.len(),
            zero == N::of_int(0),
            pick == read_level::<N>(),
            out@ == top_of(picked(raw@.take(i as int), pick), BOOK_DEPTH as nat),
        decreases raw.len() - i,
    {
        assert(raw@.take(i + 1).drop_last() =~= raw@.take(i as int));
        let ghost so_far = picked(raw@.take(i as int), pick);
        if let (Some(price), Some(qty)) = (raw[i].price, raw[i].qty) {
            if !qty.same(zero) {
                if out.len() < BOOK_DEPTH {
                    out.push(Level { price, qty });
                }
                assert(out@ =~= top_of(so_far.push(Level { price, qty }), BOOK_DEPTH as nat));
            }
        }
        i += 1;
    }
    assert(raw@.take(raw@.len() as int) =~= raw@);
    out
}

/// `snap` is a book with these levels.
pub open spec fn is_book<N>(
    snap: BookSnapshot<N>,
    ts_micros: i64,
    exchange: Exchange,
    bids: Seq<Level<N>>,
    asks: Seq<Level<N>>,
) -> bool {
    &&& snap.ts_micros == ts_micros
    &&& snap.exchange == exchange
    &&& snap.symbol == Symbol::BtcUsd
    &&& snap.bids@ == bids
    &&& snap.asks@ == asks
}

} // verus!
