//! Kraken Spot WebSocket v2 order book feed: the top bids and asks.
//!
//! **Endpoint:** `wss://ws.kraken.com/v2`, channel `book`.
//!
//! Kraken sends a full snapshot on subscribe, then incremental changes; a changed level
//! with quantity 0 is removed. A [`LocalBook`] keeps the levels and gives a snapshot of
//! the top ones after each message.
//!
//! ```json
//! {"channel":"book","type":"snapshot","data":[{
//!   "symbol":"BTC/USD","checksum":12345,
//!   "bids":[{"price":34000.0,"qty":0.5}],
//!   "asks":[{"price":34001.0,"qty":0.3}]
//! }]}
//! ```

use vstd::prelude::*;
use crate::feeds::kraken::{brings_data, has_data};
use crate::feeds::levels::is_book;
use crate::number::{is_ordered, Number};
use crate::types::order_book::top_of;
use crate::types::{BookSnapshot, Exchange, Level, Symbol, BOOK_DEPTH};

verus! {

/// The channel of the book.
pub const BOOK_CHANNEL: &'static str = "book";

/// A message.
#[derive(Debug)]
pub struct KrakenBookMsg<N> {
    pub channel: Option<String>,
    pub msg_type: Option<String>,
    pub data: Option<Vec<KrakenBookData<N>>>,
}

/// The changed levels in a message.
#[derive(Debug)]
pub struct KrakenBookData<N> {
    pub bids: Option<Vec<Level<N>>>,
    pub asks: Option<Vec<Level<N>>>,
}

// ---------------------------------------------------------------------------
// One side of the book
// ---------------------------------------------------------------------------
/// How many leading levels have a price below `price`.
pub open spec fn rank<N: Number>(levels: Seq<Level<N>>, price: N) -> nat
    decreases levels.len(),
{
    if levels.len() > 0 && levels[0].price.is_below(price) {
        1 + rank(levels.drop_first(), price)
    } else {
        0
    }
}

/// Is there a level at `price`?
pub open spec fn is_listed<N: Number>(levels: Seq<Level<N>>, price: N) -> bool {
    let k = rank(levels, price) as int;
    k < levels.len() && !price.is_below(levels[k].price)
}

/// The levels, in ascending order of price, after one of them changed: a quantity of 0
/// removes it, any other quantity replaces it or adds it in its place.
pub open spec fn changed<N: Number>(levels: Seq<Level<N>>, change: Level<N>) -> Seq<Level<N>> {
    let k = rank(levels, change.price) as int;
    if is_listed(levels, change.price) {
        if change.qty.is_same(N::of_int(0)) {
            levels.remove(k)
        } else {
            levels.update(k, Level { price: levels[k].price, qty: change.qty })
        }
    } else if change.qty.is_same(N::of_int(0)) {
        levels
    } else {
        levels.insert(k, change)
    }
}

/// The levels after a run of changes.
pub open spec fn changed_all<N: Number>(levels: Seq<Level<N>>, changes: Seq<Level<N>>) -> Seq<
    Level<N>,
>
    decreases changes.len(),
{
    if changes.len() == 0 {
        levels
    } else {
        changed(changed_all(levels, changes.drop_last()), changes.last())
    }
}

/// Each level's price is below the next one's.
pub open spec fn strictly_ascending<N: Number>(levels: Seq<Level<N>>) -> bool {
    forall|i: int, j: int|
        0 <= i < j < levels.len() ==> (#[trigger] levels[i]).price.is_below(
            (#[trigger] levels[j]).price,
        )
}

/// Every price takes part in the order.
pub open spec fn prices_are_numbers<N: Number>(levels: Seq<Level<N>>) -> bool {
    forall|i: int| 0 <= i < levels.len() ==> (#[trigger] levels[i]).price.is_number()
}

proof fn rank_splits<N: Number>(levels: Seq<Level<N>>, price: N)
    ensures
        rank(levels, price) <= levels.len(),
        forall|i: int|
            0 <= i < rank(levels, price) ==> (#[trigger] levels[i]).price.is_below(price),
        rank(levels, price) < levels.len() ==> !levels[rank(levels, price) as int].price.is_below(
            price,
        ),
    decreases levels.len(),
{
    if levels.len() > 0 && levels[0].price.is_below(price) {
        let rest = levels.drop_first();
        rank_splits(rest, price);
        assert forall|i: int| 0 <= i < rank(levels, price) implies (
        #[trigger] levels[i]).price.is_below(price) by {
            if i > 0 {
                assert(levels[i] == rest[i - 1]);
            }
        }
    }
}

/// A change keeps the levels in strictly ascending order of price, so that no price is
/// ever listed twice.
pub proof fn change_keeps_the_order<N: Number>(levels: Seq<Level<N>>, change: Level<N>)
    requires
        is_ordered::<N>(),
        change.price.is_number(),
        prices_are_numbers(levels),
        strictly_ascending(levels),
    ensures
        strictly_ascending(changed(levels, change)),
        prices_are_numbers(changed(levels, change)),
{
    rank_splits(levels, change.price);
    let k = rank(levels, change.price) as int;
    let after = changed(levels, change);
    let zero_qty = change.qty.is_same(N::of_int(0));
    if is_listed(levels, change.price) {
        if zero_qty {
            assert forall|i: int, j: int| 0 <= i < j < after.len() implies (
            #[trigger] after[i]).price.is_below((#[trigger] after[j]).price) by {
                assert(after[i] == levels[if i < k { i } else { i + 1 }]);
                assert(after[j] == levels[if j < k { j } else { j + 1 }]);
            }
            assert forall|i: int| 0 <= i < after.len() implies (
            #[trigger] after[i]).price.is_number() by {
                assert(after[i] == levels[if i < k { i } else { i + 1 }]);
            }
        } else {
            assert forall|i: int, j: int| 0 <= i < j < after.len() implies (
            #[trigger] after[i]).price.is_below((#[trigger] after[j]).price) by {
                assert(after[i].price == levels[i].price && after[j].price == levels[j].price);
            }
            assert forall|i: int| 0 <= i < after.len() implies (
            #[trigger] after[i]).price.is_number() by {
                assert(after[i].price == levels[i].price);
            }
        }
    } else if !zero_qty {
        assert forall|i: int, j: int| 0 <= i < j < after.len() implies (
        #[trigger] after[i]).price.is_below((#[trigger] after[j]).price) by {
            if i != k && j != k {
                assert(after[i] == levels[if i < k { i } else { i - 1 }]);
                assert(after[j] == levels[if j < k { j } else { j - 1 }]);
            } else if j == k {
                assert(after[i] == levels[i]);
            } else {
                assert(after[j] == levels[j - 1]);
                let next = levels[k];
                assert(change.price.is_below(next.price));
                if j - 1 > k {
                    assert(next.price.is_below(levels[j - 1].price));
                }
            }
        }
        assert forall|i: int| 0 <= i < after.len() implies (#[trigger] after[i]).price.is_number() by {
            if i != k {
                assert(after[i] == levels[if i < k { i } else { i - 1 }]);
            }
        }
    }
}

/// The levels stay in strictly ascending order of price through any run of changes.
pub proof fn changes_keep_the_order<N: Number>(levels: Seq<Level<N>>, changes: Seq<Level<N>>)
    requires
        is_ordered::<N>(),
        prices_are_numbers(levels),
        prices_are_numbers(changes),
        strictly_ascending(levels),
    ensures
        strictly_ascending(changed_all(levels, changes)),
        prices_are_numbers(changed_all(levels, changes)),
    decreases changes.len(),
{
    if changes.len() > 0 {
        let rest = changes.drop_last();
        assert forall|i: int| 0 <= i < rest.len() implies (#[trigger] rest[i]).price.is_number() by {
            assert(rest[i] == changes[i]);
        }
        assert(changes[changes.len() - 1].price.is_number());
        changes_keep_the_order(levels, rest);
        change_keeps_the_order(changed_all(levels, rest), changes.last());
    }
}

/// The quantity that is listed at a price.
pub open spec fn quantity_at<N: Number>(levels: Seq<Level<N>>, price: N) -> Option<N> {
    if is_listed(levels, price) {
        Some(levels[rank(levels, price) as int].qty)
    } else {
        None
    }
}

/// Neither price is below the other.
pub open spec fn same_price<N: Number>(a: N, b: N) -> bool {
    !a.is_below(b) && !b.is_below(a)
}

proof fn listed_where_the_price_is<N: Number>(levels: Seq<Level<N>>, i: int, price: N)
    requires
        is_ordered::<N>(),
        price.is_number(),
        strictly_ascending(levels),
        0 <= i < levels.len(),
        same_price(levels[i].price, price),
    ensures
        rank(levels, price) == i,
        is_listed(levels, price),
{
    rank_splits(levels, price);
    let k = rank(levels, price) as int;
    if k < i {
        assert(levels[k].price.is_below(levels[i].price));
        assert(levels[k].price.is_below(price) || price.is_below(levels[i].price));
    }
    if k > i {
        assert(levels[i].price.is_below(price));
    }
}

proof fn unlisted_where_no_price_is<N: Number>(levels: Seq<Level<N>>, price: N)
    requires
        forall|i: int|
            0 <= i < levels.len() ==> !same_price((#[trigger] levels[i]).price, price),
    ensures
        !is_listed(levels, price),
{
    rank_splits(levels, price);
}

/// What a change writes is what the book lists: the changed price has the new quantity,
/// or is gone if that is 0, and every other price keeps its quantity.
pub proof fn change_reads_back<N: Number>(levels: Seq<Level<N>>, change: Level<N>, price: N)
    requires
        is_ordered::<N>(),
        change.price.is_number(),
        price.is_number(),
        prices_are_numbers(levels),
        strictly_ascending(levels),
    ensures
        quantity_at(changed(levels, change), price) == (if same_price(price, change.price) {
            if change.qty.is_same(N::of_int(0)) { None } else { Some(change.qty) }
        } else {
            quantity_at(levels, price)
        }),
{
    change_keeps_the_order(levels, change);
    rank_splits(levels, change.price);
    rank_splits(levels, price);
    let after = changed(levels, change);
    let k = rank(levels, change.price) as int;
    let gone = change.qty.is_same(N::of_int(0));
    let listed = is_listed(levels, change.price);
    if same_price(price, change.price) {
        if gone {
            assert forall|i: int| 0 <= i < after.len() implies !same_price(
                (#[trigger] after[i]).price,
                price,
            ) by {
                let j = if listed && i >= k { i + 1 } else { i };
                assert(after[i] == levels[j]);
                if same_price(levels[j].price, price) {
                    let there = levels[j].price;
                    assert(there.is_number());
                    assert(!there.is_below(change.price)) by {
                        if there.is_below(change.price) {
                            assert(there.is_below(price) || price.is_below(change.price));
                        }
                    }
                    assert(!change.price.is_below(there)) by {
                        if change.price.is_below(there) {
                            assert(change.price.is_below(price) || price.is_below(there));
                        }
                    }
                    listed_where_the_price_is(levels, j, change.price);
                }
            }
            unlisted_where_no_price_is(after, price);
        } else {
            let there = after[k].price;
            assert(there == (if listed { levels[k].price } else { change.price }));
            assert(there.is_number());
            assert(same_price(there, price)) by {
                if there.is_below(price) {
                    assert(there.is_below(change.price) || change.price.is_below(price));
                }
                if price.is_below(there) {
                    assert(price.is_below(change.price) || change.price.is_below(there));
                }
            }
            listed_where_the_price_is(after, k, price);
        }
    } else if is_listed(levels, price) {
        let i = rank(levels, price) as int;
        assert(same_price(levels[i].price, price));
        assert(i != k || !listed) by {
            if i == k && listed {
                let there = levels[k].price;
                assert(there.is_number());
                assert(same_price(price, change.price)) by {
                    if price.is_below(change.price) {
                        assert(price.is_below(there) || there.is_below(change.price));
                    }
                    if change.price.is_below(price) {
                        assert(change.price.is_below(there) || there.is_below(price));
                    }
                }
            }
        }
        let j = if gone && listed {
            if i > k { i - 1 } else { i }
        } else if !gone && !listed {
            if i >= k { i + 1 } else { i }
        } else {
            i
        };
        assert(after[j] == levels[i]);
        listed_where_the_price_is(after, j, price);
    } else {
        assert forall|i: int| 0 <= i < after.len() implies !same_price(
            (#[trigger] after[i]).price,
            price,
        ) by {
            if !gone && i == k {
                let there = after[k].price;
                if same_price(there, price) {
                    if listed {
                        listed_where_the_price_is(levels, k, price);
                    }
                }
            } else {
                let j = if gone && listed && i >= k {
                    i + 1
                } else if !gone && !listed && i > k {
                    i - 1
                } else {
                    i
                };
                assert(after[i] == levels[j]);
                if same_price(levels[j].price, price) {
                    listed_where_the_price_is(levels, j, price);
                }
            }
        }
        unlisted_where_no_price_is(after, price);
    }
}

/// The quantity last written at a price by a run of changes: `None` if there is none, or
/// if it is 0.
pub open spec fn last_written<N: Number>(changes: Seq<Level<N>>, price: N) -> Option<N>
    decreases changes.len(),
{
    if changes.len() == 0 {
        None
    } else if same_price(price, changes.last().price) {
        if changes.last().qty.is_same(N::of_int(0)) { None } else { Some(changes.last().qty) }
    } else {
        last_written(changes.drop_last(), price)
    }
}

/// What a run of changes has written is what the book lists: starting without levels,
/// each price has the quantity last written there, and no price is listed that has none.
pub proof fn changes_read_back<N: Number>(changes: Seq<Level<N>>, price: N)
    requires
        is_ordered::<N>(),
        prices_are_numbers(changes),
        price.is_number(),
    ensures
        quantity_at(changed_all(Seq::empty(), changes), price) == last_written(changes, price),
    decreases changes.len(),
{
    let start = Seq::<Level<N>>::empty();
    if changes.len() > 0 {
        let rest = changes.drop_last();
        assert forall|i: int| 0 <= i < rest.len() implies (#[trigger] rest[i]).price.is_number() by {
            assert(rest[i] == changes[i]);
        }
        assert(changes[changes.len() - 1].price.is_number());
        changes_read_back(rest, price);
        changes_keep_the_order(start, rest);
        change_reads_back(changed_all(start, rest), changes.last(), price);
    }
}

/// Two runs of changes, one after the other, are one run.
pub proof fn runs_of_changes_join<N: Number>(
    levels: Seq<Level<N>>,
    first: Seq<Level<N>>,
    second: Seq<Level<N>>,
)
    ensures
        changed_all(changed_all(levels, first), second) == changed_all(levels, first + second),
    decreases second.len(),
{
    if second.len() == 0 {
        assert(first + second =~= first);
    } else {
        assert((first + second).drop_last() =~= first + second.drop_last());
        runs_of_changes_join(levels, first, second.drop_last());
    }
}

/// Each level's price is below that of the one before.
pub open spec fn strictly_descending<N: Number>(levels: Seq<Level<N>>) -> bool {
    forall|i: int, j: int|
        0 <= i < j < levels.len() ==> (#[trigger] levels[j]).price.is_below(
            (#[trigger] levels[i]).price,
        )
}

/// Every level has the quantity last written at its price.
pub open spec fn are_last_written<N: Number>(levels: Seq<Level<N>>, changes: Seq<Level<N>>) -> bool {
    forall|i: int|
        0 <= i < levels.len() ==> (#[trigger] levels[i]).price.is_number() && last_written(
            changes,
            levels[i].price,
        ) == Some(levels[i].qty)
}

/// No written quantity is 0.
pub proof fn written_quantities_are_not_zero<N: Number>(changes: Seq<Level<N>>, price: N)
    ensures
        last_written(changes, price) matches Some(q) ==> !q.is_same(N::of_int(0)),
    decreases changes.len(),
{
    if changes.len() > 0 {
        written_quantities_are_not_zero(changes.drop_last(), price);
    }
}

proof fn listed_levels_are_last_written<N: Number>(changes: Seq<Level<N>>)
    requires
        is_ordered::<N>(),
        prices_are_numbers(changes),
    ensures
        strictly_ascending(changed_all(Seq::empty(), changes)),
        are_last_written(changed_all(Seq::empty(), changes), changes),
{
    let levels = changed_all(Seq::empty(), changes);
    changes_keep_the_order(Seq::empty(), changes);
    assert forall|i: int| 0 <= i < levels.len() implies (#[trigger] levels[i]).price.is_number()
        && last_written(changes, levels[i].price) == Some(levels[i].qty) by {
        changes_read_back(changes, levels[i].price);
        listed_where_the_price_is(levels, i, levels[i].price);
    }
}

/// The top of a book that started without levels, after any changes: at most ten levels
/// a side, the bids in strictly descending and the asks in strictly ascending order of
/// price, each with the quantity last written at its price, which is not 0. A price that
/// has a quantity but is not among the bids lies below all of them, and there are ten of
/// them; one that is not among the asks lies above all of them, and there are ten.
pub proof fn snapshot_shows_the_best_levels<N: Number>(
    snap: BookSnapshot<N>,
    ts_micros: i64,
    bid_changes: Seq<Level<N>>,
    ask_changes: Seq<Level<N>>,
    price: N,
)
    requires
        is_ordered::<N>(),
        prices_are_numbers(bid_changes),
        prices_are_numbers(ask_changes),
        price.is_number(),
        is_top(
            snap,
            ts_micros,
            changed_all(Seq::empty(), bid_changes),
            changed_all(Seq::empty(), ask_changes),
        ),
    ensures
        snap.ts_micros == ts_micros,
        snap.exchange == Exchange::Kraken,
        snap.symbol == Symbol::BtcUsd,
        snap.bids@.len() <= BOOK_DEPTH,
        snap.asks@.len() <= BOOK_DEPTH,
        strictly_descending(snap.bids@),
        strictly_ascending(snap.asks@),
        are_last_written(snap.bids@, bid_changes),
        are_last_written(snap.asks@, ask_changes),
        forall|i: int|
            0 <= i < snap.bids@.len() ==> !(#[trigger] snap.bids@[i]).qty.is_same(N::of_int(0)),
        forall|i: int|
            0 <= i < snap.asks@.len() ==> !(#[trigger] snap.asks@[i]).qty.is_same(N::of_int(0)),
        last_written(bid_changes, price) is Some ==> {
            ||| exists|i: int|
                0 <= i < snap.bids@.len() && same_price((#[trigger] snap.bids@[i]).price, price)
            ||| snap.bids@.len() == BOOK_DEPTH && forall|i: int|
                0 <= i < snap.bids@.len() ==> price.is_below((#[trigger] snap.bids@[i]).price)
        },
        last_written(ask_changes, price) is Some ==> {
            ||| exists|i: int|
                0 <= i < snap.asks@.len() && same_price((#[trigger] snap.asks@[i]).price, price)
            ||| snap.asks@.len() == BOOK_DEPTH && forall|i: int|
                0 <= i < snap.asks@.len() ==> (#[trigger] snap.asks@[i]).price.is_below(price)
        },
{
    let bids = changed_all(Seq::empty(), bid_changes);
    let asks = changed_all(Seq::empty(), ask_changes);
    listed_levels_are_last_written(bid_changes);
    listed_levels_are_last_written(ask_changes);
    let (b, a) = (snap.bids@, snap.asks@);
    let n = bids.len() as int;
    assert forall|i: int| 0 <= i < b.len() implies #[trigger] b[i] == bids[n - 1 - i] by {
        assert(b[i] == bids.reverse()[i]);
    }
    assert forall|i: int| 0 <= i < a.len() implies #[trigger] a[i] == asks[i] by {}
    assert forall|i: int| 0 <= i < b.len() implies !(#[trigger] b[i]).qty.is_same(N::of_int(0)) by {
        written_quantities_are_not_zero(bid_changes, b[i].price);
    }
    assert forall|i: int| 0 <= i < a.len() implies !(#[trigger] a[i]).qty.is_same(N::of_int(0)) by {
        written_quantities_are_not_zero(ask_changes, a[i].price);
    }
    if last_written(bid_changes, price) is Some {
        changes_read_back(bid_changes, price);
        rank_splits(bids, price);
        let k = rank(bids, price) as int;
        assert(same_price(bids[k].price, price));
        if n - 1 - k < b.len() {
            assert(b[n - 1 - k] == bids[k]);
        } else {
            assert forall|i: int| 0 <= i < b.len() implies price.is_below(
                (#[trigger] b[i]).price,
            ) by {
                assert(bids[k].price.is_below(bids[n - 1 - i].price));
                assert(bids[k].price.is_below(price) || price.is_below(bids[n - 1 - i].price));
            }
        }
    }
    if last_written(ask_changes, price) is Some {
        changes_read_back(ask_changes, price);
        rank_splits(asks, price);
        let k = rank(asks, price) as int;
        assert(same_price(asks[k].price, price));
        if k < a.len() {
            assert(a[k] == asks[k]);
        } else {
            assert forall|i: int| 0 <= i < a.len() implies (#[trigger] a[i]).price.is_below(
                price,
            ) by {
                assert(asks[i].price.is_below(asks[k].price));
                assert(asks[i].price.is_below(price) || price.is_below(asks[k].price));
            }
        }
    }
}

fn apply_one<N: Number>(levels: &mut Vec<Level<N>>, change: Level<N>)
    ensures
        final(levels)@ == changed(old(levels)@, change),
{
    let ghost before = levels@;
    let mut k: usize = 0;
    proof {
        rank_splits(before, change.price);
        assert(before.skip(0) =~= before);
    }
    while k < levels.len() && levels[k].price.below(change.price)
        invariant
            k <= levels@.len(),
            levels@ == before,
            rank(before, change.price) == k + rank(before.skip(k as int), change.price),
        decreases levels@.len() - k,
    {
        assert(before.skip(k as int).drop_first() =~= before.skip(k + 1));
        k += 1;
    }
    assert(rank(before, change.price) == k);
    let listed = k < levels.len() && !change.price.below(levels[k].price);
    if change.qty.same(N::from_int(0)) {
        if listed {
            levels.remove(k);
        }
    } else if listed {
        let price = levels[k].price;
        levels.set(k, Level { price, qty: change.qty });
    } else {
        levels.insert(k, change);
    }
}

// ---------------------------------------------------------------------------
// Local book state
// ---------------------------------------------------------------------------
/// Which side of a book.
#[derive(Debug, Clone, Copy, PartialEq, Eq, Structural)]
pub enum Side {
    Bid,
    Ask,
}

/// The levels of both sides, each in ascending order of price.
#[derive(Debug)]
pub struct LocalBook<N> {
    bids: Vec<Level<N>>,
    asks: Vec<Level<N>>,
}

/// The top of a book with these levels: the highest bids and the lowest asks first.
pub open spec fn is_top<N>(
    snap: BookSnapshot<N>,
    ts_micros: i64,
    bids: Seq<Level<N>>,
    asks: Seq<Level<N>>,
) -> bool {
    is_book(
        snap,
        ts_micros,
        Exchange::Kraken,
        top_of(bids.reverse(), BOOK_DEPTH as nat),
        top_of(asks, BOOK_DEPTH as nat),
    )
}

/// One side of the book after the data of a message.
pub open spec fn side_after<N: Number>(levels: Seq<Level<N>>, data: Seq<KrakenBookData<N>>, side: Side) -> Seq<
    Level<N>,
>
    decreases data.len(),
{
    if data.len() == 0 {
        levels
    } else {
        let before = side_after(levels, data.drop_last(), side);
        let changes = if side == Side::Bid { data.last().bids } else { data.last().asks };
        match changes {
            Some(c) => changed_all(before, c@),
            None => before,
        }
    }
}

/// The data of a message that counts.
pub open spec fn book_data<N>(msg: KrakenBookMsg<N>) -> Seq<KrakenBookData<N>> {
    match msg.data {
        Some(data) => data@,
        None => Seq::empty(),
    }
}

impl<N: Number> LocalBook<N> {
    /// The levels of one side, in ascending order of price.
    pub closed spec fn levels(self, side: Side) -> Seq<Level<N>> {
        match side {
            Side::Bid => self.bids@,
            Side::Ask => self.asks@,
        }
    }

    /// A book without levels.
    pub fn new() -> (r: Self)
        ensures
            r.levels(Side::Bid) == Seq::<Level<N>>::empty(),
            r.levels(Side::Ask) == Seq::<Level<N>>::empty(),
    {
        LocalBook { bids: Vec::new(), asks: Vec::new() }
    }

    /// Applies changes to one side.
    pub fn apply(&mut self, changes: &Vec<Level<N>>, side: Side)
        ensures
            final(self).levels(side) == changed_all(old(self).levels(side), changes@),
            forall|s: Side| s != side ==> #[trigger] final(self).levels(s) == old(self).levels(s),
    {
        match side {
            Side::Bid => apply_all(&mut self.bids, changes),
            Side::Ask => apply_all(&mut self.asks, changes),
        }
    }

    /// The top levels: highest bids first, lowest asks first.
    pub fn snapshot(&self, ts_micros: i64) -> (r: BookSnapshot<N>)
        ensures
            is_top(r, ts_micros, self.levels(Side::Bid), self.levels(Side::Ask)),
    {
        let mut bids: Vec<Level<N>> = Vec::new();
        let n: usize = self.bids.len();
        let ghost reversed = self.bids@.reverse();
        while bids.len() < n && bids.len() < BOOK_DEPTH
            invariant
                n == self.bids@.len(),
                reversed == self.bids@.reverse(),
                bids@.len() <= n,
                bids@.len() <= BOOK_DEPTH,
                bids@ == reversed.take(bids@.len() as int),
            decreases n - bids@.len(),
        {
            let k: usize = bids.len();
            bids.push(self.bids[n - 1 - k]);
            assert(bids@ =~= reversed.take(bids@.len() as int));
        }
        let mut asks: Vec<Level<N>> = Vec::new();
        let m: usize = self.asks.len();
        while asks.len() < m && asks.len() < BOOK_DEPTH
            invariant
                m == self.asks@.len(),
                asks@.len() <= m,
                asks@.len() <= BOOK_DEPTH,
                asks@ == self.asks@.take(asks@.len() as int),
            decreases m - asks@.len(),
        {
            let k: usize = asks.len();
            asks.push(self.asks[k]);
            assert(asks@ =~= self.asks@.take(asks@.len() as int));
        }
        BookSnapshot {
            ts_micros,
            exchange: Exchange::Kraken,
            symbol: Symbol::BtcUsd,
            bids,
            asks,
        }
    }

    /// Applies a message that came in at a time. Updates and snapshots of the book
    /// channel give the top of the book, once it has both sides.
    pub fn on_message(&mut self, msg: &KrakenBookMsg<N>, ts_micros: i64) -> (r: Option<
        BookSnapshot<N>,
    >)
        ensures
            ({
                let counts = brings_data(msg.channel, msg.msg_type, BOOK_CHANNEL@);
                let bids = side_after(old(self).levels(Side::Bid), book_data(*msg), Side::Bid);
                let asks = side_after(old(self).levels(Side::Ask), book_data(*msg), Side::Ask);
                if counts {
                    &&& final(self).levels(Side::Bid) == bids
                    &&& final(self).levels(Side::Ask) == asks
                    &&& if bids.len() > 0 && asks.len() > 0 {
                        r matches Some(snap) && is_top(snap, ts_micros, bids, asks)
                    } else {
                        r is None
                    }
                } else {
                    *final(self) == *old(self) && r is None
                }
            }),
    {
        if !has_data(&msg.channel, &msg.msg_type, BOOK_CHANNEL) {
            return None;
        }
        let ghost first_bids = self.levels(Side::Bid);
        let ghost first_asks = self.levels(Side::Ask);
        if let Some(data) = &msg.data {
            let mut i: usize = 0;
            while i < data.len()
                invariant
                    i <= data.len(),
                    self.levels(Side::Bid) == side_after(
                        first_bids,
                        data@.take(i as int),
                        Side::Bid,
                    ),
                    self.levels(Side::Ask) == side_after(
                        first_asks,
                        data@.take(i as int),
                        Side::Ask,
                    ),
                decreases data.len() - i,
            {
                assert(data@.take(i + 1).drop_last() =~= data@.take(i as int));
                let d = &data[i];
                if let Some(bids) = &d.bids {
                    self.apply(bids, Side::Bid);
                }
                if let Some(asks) = &d.asks {
                    self.apply(asks, Side::Ask);
                }
                i += 1;
            }
            assert(data@.take(data@.len() as int) =~= data@);
        }
        if self.bids.len() > 0 && self.asks.len() > 0 {
            Some(self.snapshot(ts_micros))
        } else {
            None
        }
    }
}

fn apply_all<N: Number>(levels: &mut Vec<Level<N>>, changes: &Vec<Level<N>>)
    ensures
        final(levels)@ == changed_all(old(levels)@, changes@),
{
    let ghost before = levels@;
    let mut i: usize = 0;
    while i < changes.len()
        invariant
            i <= changes.len(),
            levels@ == changed_all(before, changes@.take(i as int)),
        decreases changes.len() - i,
    {
        assert(changes@.take(i + 1).drop_last() =~= changes@.take(i as int));
        apply_one(levels, changes[i]);
        i += 1;
    }
    assert(changes@.take(changes@.len() as int) =~= changes@);
}

} // verus!
