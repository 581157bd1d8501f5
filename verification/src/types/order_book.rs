//! Order book snapshot types.
//!
//! A [`BookSnapshot`] represents the state of the top levels of a single
//! exchange's order book at a point in time.

use vstd::prelude::*;
use crate::number::{is_between, is_monotone, not_negative, Number};
use crate::types::{Exchange, Symbol};

verus! {

/// Number of price levels kept on each side of the book.
pub const BOOK_DEPTH: usize = 10;

/// A single price level: (price, quantity) in USD / BTC.
#[derive(Debug, Clone, Copy)]
pub struct Level<N> {
    pub price: N,
    pub qty: N,
}

/// Top-[`BOOK_DEPTH`] order book snapshot from one exchange.
///
/// Bids are sorted **descending** (best bid first).
/// Asks are sorted **ascending** (best ask first).
#[derive(Debug)]
pub struct BookSnapshot<N> {
    /// Snapshot timestamp in microseconds since UNIX epoch.
    pub ts_micros: i64,
    pub exchange: Exchange,
    pub symbol: Symbol,
    /// Top bids, best first (highest price).
    pub bids: Vec<Level<N>>,
    /// Top asks, best first (lowest price).
    pub asks: Vec<Level<N>>,
}

/// The quantity that stands on some levels.
pub open spec fn volume_of<N: Number>(levels: Seq<Level<N>>) -> N
    decreases levels.len(),
{
    if levels.len() == 0 {
        N::of_int(0)
    } else {
        volume_of(levels.drop_last()).sum(levels.last().qty)
    }
}

/// The first `depth` levels, or all if there are fewer.
pub open spec fn top_of<N>(levels: Seq<Level<N>>, depth: nat) -> Seq<Level<N>> {
    levels.take(if depth < levels.len() { depth as int } else { levels.len() as int })
}

/// The price of the first level.
pub open spec fn best_of<N>(levels: Seq<Level<N>>) -> Option<N> {
    if levels.len() == 0 { None } else { Some(levels[0].price) }
}

/// (bid volume - ask volume) / (bid volume + ask volume) over the first `depth`
/// levels; `None` if a side has no levels or there is no volume.
pub open spec fn imbalance_of<N: Number>(
    bids: Seq<Level<N>>,
    asks: Seq<Level<N>>,
    depth: nat,
) -> Option<N> {
    let bid_vol = volume_of(top_of(bids, depth));
    let ask_vol = volume_of(top_of(asks, depth));
    let total = bid_vol.sum(ask_vol);
    if bids.len() == 0 || asks.len() == 0 || total.is_same(N::of_int(0)) {
        None
    } else {
        Some(bid_vol.difference(ask_vol).quotient(total))
    }
}

/// The volume on both sides of the first `depth` levels.
pub open spec fn book_volume<N: Number>(
    bids: Seq<Level<N>>,
    asks: Seq<Level<N>>,
    depth: nat,
) -> N {
    volume_of(top_of(bids, depth)).sum(volume_of(top_of(asks, depth)))
}

/// The best prices, each weighted by the volume on the other side.
pub open spec fn weighted_mid_of<N: Number>(
    bids: Seq<Level<N>>,
    asks: Seq<Level<N>>,
    depth: nat,
) -> Option<N> {
    let bid_vol = volume_of(top_of(bids, depth));
    let ask_vol = volume_of(top_of(asks, depth));
    let total = bid_vol.sum(ask_vol);
    match (best_of(bids), best_of(asks)) {
        (Some(best_bid), Some(best_ask)) => if total.is_same(N::of_int(0)) {
            None
        } else {
            Some(best_bid.product(ask_vol).sum(best_ask.product(bid_vol)).quotient(total))
        },
        _ => None,
    }
}

fn top_volume<N: Number>(levels: &Vec<Level<N>>, depth: usize) -> (r: N)
    ensures
        r == volume_of(top_of(levels@, depth as nat)),
{
    let n: usize = if depth < levels.len() { depth } else { levels.len() };
    let mut total = N::from_int(0);
    let mut i: usize = 0;
    while i < n
        invariant
            i <= n <= levels.len(),
            total == volume_of(levels@.take(i as int)),
        decreases n - i,
    {
        total = total.add(levels[i].qty);
        assert(levels@.take(i + 1).drop_last() =~= levels@.take(i as int));
        i += 1;
    }
    total
}

impl<N: Number> BookSnapshot<N> {
    /// Best bid price (`None` if there are no bids).
    pub fn best_bid(&self) -> (r: Option<N>)
        ensures
            r == best_of(self.bids@),
    {
        if self.bids.len() == 0 {
            None
        } else {
            Some(self.bids[0].price)
        }
    }

    /// Best ask price (`None` if there are no asks).
    pub fn best_ask(&self) -> (r: Option<N>)
        ensures
            r == best_of(self.asks@),
    {
        if self.asks.len() == 0 {
            None
        } else {
            Some(self.asks[0].price)
        }
    }

    /// Mid-price = (best_bid + best_ask) / 2.
    pub fn mid_price(&self) -> (r: Option<N>)
        ensures
            r == (match (best_of(self.bids@), best_of(self.asks@)) {
                (Some(b), Some(a)) => Some(b.sum(a).quotient(N::of_int(2))),
                _ => None,
            }),
    {
        match (self.best_bid(), self.best_ask()) {
            (Some(b), Some(a)) => Some(b.add(a).div(N::from_int(2))),
            _ => None,
        }
    }

    /// Bid-ask spread in USD.
    pub fn spread_usd(&self) -> (r: Option<N>)
        ensures
            r == (match (best_of(self.bids@), best_of(self.asks@)) {
                (Some(b), Some(a)) => Some(a.difference(b)),
                _ => None,
            }),
    {
        match (self.best_bid(), self.best_ask()) {
            (Some(b), Some(a)) => Some(a.sub(b)),
            _ => None,
        }
    }

    /// Volume-weighted bid-ask imbalance over the top `depth` levels:
    /// +1 = all bids, -1 = all asks.
    ///
    /// Returns `None` if either side has no levels or total volume is zero.
    pub fn imbalance(&self, depth: usize) -> (r: Option<N>)
        ensures
            r == imbalance_of(self.bids@, self.asks@, depth as nat),
    {
        let bid_vol = top_volume(&self.bids, depth);
        let ask_vol = top_volume(&self.asks, depth);
        let total = bid_vol.add(ask_vol);
        if self.bids.len() == 0 || self.asks.len() == 0 || total.same(N::from_int(0)) {
            None
        } else {
            Some(bid_vol.sub(ask_vol).div(total))
        }
    }

    /// The volume on both sides of the top `depth` levels.
    pub fn volume(&self, depth: usize) -> (r: N)
        ensures
            r == book_volume(self.bids@, self.asks@, depth as nat),
    {
        top_volume(&self.bids, depth).add(top_volume(&self.asks, depth))
    }

    /// Weighted mid-price using top-`depth` volume as weights.
    ///
    /// Gives a more stable mid than the plain average of the best prices when the
    /// spread is wide or one side is thin.
    pub fn weighted_mid(&self, depth: usize) -> (r: Option<N>)
        ensures
            r == weighted_mid_of(self.bids@, self.asks@, depth as nat),
    {
        let bid_vol = top_volume(&self.bids, depth);
        let ask_vol = top_volume(&self.asks, depth);
        let total = bid_vol.add(ask_vol);
        match (self.best_bid(), self.best_ask()) {
            (Some(best_bid), Some(best_ask)) => if total.same(N::from_int(0)) {
                None
            } else {
                Some(best_bid.mul(ask_vol).add(best_ask.mul(bid_vol)).div(total))
            },
            _ => None,
        }
    }
}

/// Every quantity is there and not negative.
pub open spec fn quantities_count<N: Number>(levels: Seq<Level<N>>) -> bool {
    forall|i: int|
        0 <= i < levels.len() ==> (#[trigger] levels[i]).qty.is_number() && not_negative(
            levels[i].qty,
        )
}

proof fn volume_is_not_negative<N: Number>(levels: Seq<Level<N>>)
    requires
        is_monotone::<N>(),
        quantities_count(levels),
    ensures
        volume_of(levels).is_number(),
        not_negative(volume_of(levels)),
    decreases levels.len(),
{
    reveal(is_monotone);
    if levels.len() > 0 {
        let rest = levels.drop_last();
        assert forall|i: int| 0 <= i < rest.len() implies (#[trigger] rest[i]).qty.is_number()
            && not_negative(rest[i].qty) by {
            assert(rest[i] == levels[i]);
        }
        volume_is_not_negative(rest);
        assert(levels[levels.len() - 1].qty.is_number());
        assert(volume_of(rest).sum(levels.last().qty).is_number());
    }
}

proof fn top_volume_is_not_negative<N: Number>(levels: Seq<Level<N>>, depth: nat)
    requires
        is_monotone::<N>(),
        quantities_count(levels),
    ensures
        volume_of(top_of(levels, depth)).is_number(),
        not_negative(volume_of(top_of(levels, depth))),
{
    let top = top_of(levels, depth);
    assert forall|i: int| 0 <= i < top.len() implies (#[trigger] top[i]).qty.is_number()
        && not_negative(top[i].qty) by {
        assert(top[i] == levels[i]);
    }
    volume_is_not_negative(top);
}

/// A book imbalance lies between -1 and 1, on levels whose quantities are not negative.
pub proof fn imbalance_keeps_its_range<N: Number>(
    bids: Seq<Level<N>>,
    asks: Seq<Level<N>>,
    depth: nat,
)
    requires
        is_monotone::<N>(),
        quantities_count(bids),
        quantities_count(asks),
    ensures
        imbalance_of(bids, asks, depth) matches Some(x) ==> is_between(
            N::of_int(-1),
            x,
            N::of_int(1),
        ),
{
    reveal(is_monotone);
    top_volume_is_not_negative(bids, depth);
    top_volume_is_not_negative(asks, depth);
    let (bid_vol, ask_vol) = (volume_of(top_of(bids, depth)), volume_of(top_of(asks, depth)));
    let total = bid_vol.sum(ask_vol);
    assert(not_negative(total));
    assert(is_between(N::of_int(0).difference(total), bid_vol.difference(ask_vol), total));
}

/// A book with levels of some quantity on both sides has an imbalance.
pub proof fn full_book_has_an_imbalance<N: Number>(
    bids: Seq<Level<N>>,
    asks: Seq<Level<N>>,
    depth: nat,
)
    requires
        is_monotone::<N>(),
        bids.len() > 0,
        asks.len() > 0,
        depth > 0,
        quantities_count(bids),
        quantities_count(asks),
        N::of_int(0).is_below(bids[0].qty),
    ensures
        imbalance_of(bids, asks, depth) is Some,
{
    reveal(is_monotone);
    let zero = N::of_int(0);
    let top = top_of(bids, depth);
    assert(top[0] == bids[0]);
    assert forall|i: int| 0 <= i < top.len() implies (#[trigger] top[i]).qty.is_number()
        && not_negative(top[i].qty) by {
        assert(top[i] == bids[i]);
    }
    first_level_adds(top);
    top_volume_is_not_negative(bids, depth);
    top_volume_is_not_negative(asks, depth);
    let (bid_vol, ask_vol) = (volume_of(top), volume_of(top_of(asks, depth)));
    let total = bid_vol.sum(ask_vol);
    assert(zero.is_below(bid_vol));
    assert(!total.is_below(bid_vol));
    assert(total.is_number());
    assert(zero.is_below(total));
}

proof fn first_level_adds<N: Number>(levels: Seq<Level<N>>)
    requires
        is_monotone::<N>(),
        levels.len() > 0,
        quantities_count(levels),
        N::of_int(0).is_below(levels[0].qty),
    ensures
        N::of_int(0).is_below(volume_of(levels)),
    decreases levels.len(),
{
    reveal(is_monotone);
    let zero = N::of_int(0);
    let rest = levels.drop_last();
    assert forall|i: int| 0 <= i < rest.len() implies (#[trigger] rest[i]).qty.is_number()
        && not_negative(rest[i].qty) by {
        assert(rest[i] == levels[i]);
    }
    volume_is_not_negative(rest);
    assert(levels[levels.len() - 1].qty.is_number());
    let total = volume_of(rest).sum(levels.last().qty);
    assert(total.is_number());
    if levels.len() == 1 {
        assert(!total.is_below(levels.last().qty));
        assert(zero.is_below(levels.last().qty));
    } else {
        first_level_adds(rest);
        assert(!total.is_below(volume_of(rest)));
    }
}

/// Swapping the sides of a book changes the sign of its imbalance.
pub proof fn swapped_sides_negate_the_imbalance<N: Number>(
    bids: Seq<Level<N>>,
    asks: Seq<Level<N>>,
    depth: nat,
    x: N,
)
    requires
        is_monotone::<N>(),
        quantities_count(bids),
        quantities_count(asks),
        imbalance_of(bids, asks, depth) == Some(x),
        x.is_number(),
    ensures
        imbalance_of(asks, bids, depth) matches Some(y) && y.is_same(N::of_int(0).difference(x)),
{
    reveal(is_monotone);
    top_volume_is_not_negative(bids, depth);
    top_volume_is_not_negative(asks, depth);
    let (bid_vol, ask_vol) = (volume_of(top_of(bids, depth)), volume_of(top_of(asks, depth)));
    assert(bid_vol.sum(ask_vol) == ask_vol.sum(bid_vol));
    assert(bid_vol.difference(ask_vol).quotient(bid_vol.sum(ask_vol)) == x);
}

/// Levels below the depth do not count: a book cut to its first levels has the same
/// imbalance over them.
pub proof fn deeper_levels_do_not_count<N: Number>(
    bids: Seq<Level<N>>,
    asks: Seq<Level<N>>,
    depth: nat,
)
    requires
        depth > 0,
    ensures
        imbalance_of(top_of(bids, depth), top_of(asks, depth), depth) == imbalance_of(
            bids,
            asks,
            depth,
        ),
{
    assert(top_of(top_of(bids, depth), depth) =~= top_of(bids, depth));
    assert(top_of(top_of(asks, depth), depth) =~= top_of(asks, depth));
}

} // verus!
