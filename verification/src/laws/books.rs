//! What the book features say of the latest books.

use vstd::prelude::*;
use crate::features::book::{
    fresh_full, fresh_microprice, fresh_pressure, fresh_spread, fresh_spread_usd, fresh_top5,
    mean_of, total_of, weight_of, weighted_total_of, BookImbalance, BookImbalanceTracker,
    BookPressureTracker, BookQuote,
};
use crate::features::state::{book_taken, describes, FeatureView};
use crate::features::FeatureVector;
use crate::laws::decimal::{
    counts_in_decimals, division_is_near, is_near, product_is_near, quotient_is_near, units_in,
    whole_part_is_near,
};
use crate::number::{Analytic, Fixed, Number, UNITS};
use crate::pick::picked;
use crate::price_fusion::FusedTick;
use crate::types::order_book::{imbalance_of, top_of, volume_of, weighted_mid_of};
use crate::types::per_exchange::entry_seq;
use crate::types::{BookSnapshot, Exchange, Level};

verus! {

// ---------------------------------------------------------------------------
// Means over the exchanges
// ---------------------------------------------------------------------------
/// One for a value, zero for none.
pub open spec fn counted<N>(x: Option<N>) -> int {
    if x is Some { 1 } else { 0 }
}

/// The units of a value; 0 for none.
pub open spec fn amount<N: Number>(d: spec_fn(N) -> Fixed, x: Option<N>) -> int {
    match x {
        Some(x) => units_in(d, x),
        None => 0,
    }
}

/// Small enough that four of them can be added.
pub open spec fn is_summand<N: Number>(d: spec_fn(N) -> Fixed, x: Option<N>) -> bool {
    -2_000_000_000_000_000_000 <= amount(d, x) <= 2_000_000_000_000_000_000
}

/// The mean of up to four values, up to a unit; none of none.
pub open spec fn is_mean_of_four<N: Number>(
    d: spec_fn(N) -> Fixed,
    xs: (Option<N>, Option<N>, Option<N>, Option<N>),
    mean: Option<N>,
) -> bool {
    let count = counted(xs.0) + counted(xs.1) + counted(xs.2) + counted(xs.3);
    let total = amount(d, xs.0) + amount(d, xs.1) + amount(d, xs.2) + amount(d, xs.3);
    &&& mean is None <==> count == 0
    &&& is_summand(d, xs.0) && is_summand(d, xs.1) && is_summand(d, xs.2) && is_summand(d, xs.3)
        ==> (mean matches Some(m) ==> is_near(units_in(d, m), total, count))
}

/// What is picked of an optional entry.
pub open spec fn pick_from<T, N>(entry: Option<T>, pick: spec_fn(T) -> Option<N>) -> Option<N> {
    match entry {
        Some(t) => pick(t),
        None => None,
    }
}

proof fn picked_splits<T, N>(xs: Seq<T>, e: Option<T>, pick: spec_fn(T) -> Option<N>)
    ensures
        picked(xs + entry_seq(e), pick) == picked(xs, pick) + entry_seq(pick_from(e, pick)),
{
    match e {
        None => {
            assert(xs + entry_seq(e) =~= xs);
            assert(picked(xs, pick) + entry_seq(pick_from(e, pick)) =~= picked(xs, pick));
        },
        Some(t) => {
            let longer = xs + entry_seq(e);
            assert(longer.last() == t);
            assert(longer.drop_last() =~= xs);
            assert(picked(longer, pick) =~= picked(xs, pick) + entry_seq(pick_from(e, pick)));
        },
    }
}

proof fn picked_of_four<T, N>(
    a: Option<T>,
    b: Option<T>,
    c: Option<T>,
    e: Option<T>,
    pick: spec_fn(T) -> Option<N>,
)
    ensures
        picked(entry_seq(a) + entry_seq(b) + entry_seq(c) + entry_seq(e), pick) == entry_seq(
            pick_from(a, pick),
        ) + entry_seq(pick_from(b, pick)) + entry_seq(pick_from(c, pick)) + entry_seq(
            pick_from(e, pick),
        ),
{
    let none = Seq::<T>::empty();
    picked_splits(none, a, pick);
    assert(none + entry_seq(a) =~= entry_seq(a));
    assert(picked(none, pick) =~= Seq::<N>::empty());
    assert(Seq::<N>::empty() + entry_seq(pick_from(a, pick)) =~= entry_seq(pick_from(a, pick)));
    picked_splits(entry_seq(a), b, pick);
    picked_splits(entry_seq(a) + entry_seq(b), c, pick);
    picked_splits(entry_seq(a) + entry_seq(b) + entry_seq(c), e, pick);
}

proof fn total_splits<N: Number>(d: spec_fn(N) -> Fixed, xs: Seq<N>, e: Option<N>)
    requires
        counts_in_decimals(d),
        -6_000_000_000_000_000_000 <= units_in(d, total_of(xs)) <= 6_000_000_000_000_000_000,
        is_summand(d, e),
    ensures
        units_in(d, total_of(xs + entry_seq(e))) == units_in(d, total_of(xs)) + amount(d, e),
        (xs + entry_seq(e)).len() == xs.len() + counted(e),
{
    match e {
        None => {
            assert(xs + entry_seq(e) =~= xs);
        },
        Some(t) => {
            let longer = xs + entry_seq(e);
            assert(longer.last() == t);
            assert(longer.drop_last() =~= xs);
            reveal(counts_in_decimals);
        },
    }
}

proof fn mean_is_told<N: Number>(
    d: spec_fn(N) -> Fixed,
    a: Option<N>,
    b: Option<N>,
    c: Option<N>,
    e: Option<N>,
)
    requires
        counts_in_decimals(d),
    ensures
        is_mean_of_four(
            d,
            (a, b, c, e),
            mean_of(entry_seq(a) + entry_seq(b) + entry_seq(c) + entry_seq(e)),
        ),
{
    let all = entry_seq(a) + entry_seq(b) + entry_seq(c) + entry_seq(e);
    if is_summand(d, a) && is_summand(d, b) && is_summand(d, c) && is_summand(d, e) {
        let none = Seq::<N>::empty();
        assert(units_in(d, total_of(none)) == 0) by {
            reveal(counts_in_decimals);
            assert(Fixed::of_int(0).units == 0);
        }
        total_splits(d, none, a);
        assert(none + entry_seq(a) =~= entry_seq(a));
        total_splits(d, entry_seq(a), b);
        total_splits(d, entry_seq(a) + entry_seq(b), c);
        total_splits(d, entry_seq(a) + entry_seq(b) + entry_seq(c), e);
        let n = all.len() as int;
        if n > 0 {
            whole_part_is_near(d(total_of(all)), n);
            reveal(counts_in_decimals);
        }
    }
}

/// A value of a book that is at most two seconds old.
pub open spec fn while_fresh<T, N>(
    entry: Option<T>,
    at: spec_fn(T) -> i64,
    now: i64,
    value: spec_fn(T) -> N,
) -> Option<N> {
    match entry {
        Some(t) => if now - at(t) <= 2_000_000 { Some(value(t)) } else { None },
        None => None,
    }
}

/// The fresh values of the four exchanges' imbalances.
pub open spec fn fresh_imbalances<N: Number>(
    tracker: BookImbalanceTracker<N>,
    now: i64,
    value: spec_fn(BookImbalance<N>) -> N,
) -> (Option<N>, Option<N>, Option<N>, Option<N>) {
    let at = |b: BookImbalance<N>| b.ts_micros;
    (
        while_fresh(tracker.entry(Exchange::Binance), at, now, value),
        while_fresh(tracker.entry(Exchange::Coinbase), at, now, value),
        while_fresh(tracker.entry(Exchange::Kraken), at, now, value),
        while_fresh(tracker.entry(Exchange::Bitstamp), at, now, value),
    )
}

/// The fresh values of the four exchanges' quotes.
pub open spec fn fresh_quotes<N: Number>(
    tracker: BookPressureTracker<N>,
    now: i64,
    value: spec_fn(BookQuote<N>) -> N,
) -> (Option<N>, Option<N>, Option<N>, Option<N>) {
    let at = |q: BookQuote<N>| q.ts_micros;
    (
        while_fresh(tracker.entry(Exchange::Binance), at, now, value),
        while_fresh(tracker.entry(Exchange::Coinbase), at, now, value),
        while_fresh(tracker.entry(Exchange::Kraken), at, now, value),
        while_fresh(tracker.entry(Exchange::Bitstamp), at, now, value),
    )
}

/// The book features are means over the exchanges whose latest book is at most two seconds
/// old.
pub proof fn book_features_average_the_fresh_books<N: Analytic>(
    d: spec_fn(N) -> Fixed,
    f: FeatureView<N>,
    fused: FusedTick<N>,
    v: FeatureVector<N>,
)
    requires
        counts_in_decimals(d),
        describes(f, fused, v),
    ensures
        ({
            let now = fused.ts_micros;
            let (books, quotes) = (f.book_imbalance, f.book_pressure);
            &&& is_mean_of_four(
                d,
                fresh_imbalances(books, now, |b: BookImbalance<N>| b.top5),
                v.book_imbalance_5,
            )
            &&& is_mean_of_four(
                d,
                fresh_imbalances(books, now, |b: BookImbalance<N>| b.full),
                v.book_imbalance_full,
            )
            &&& is_mean_of_four(
                d,
                fresh_quotes(quotes, now, |q: BookQuote<N>| q.microprice_dev),
                v.book_pressure,
            )
            &&& is_mean_of_four(
                d,
                fresh_quotes(quotes, now, |q: BookQuote<N>| q.microprice),
                v.book_weighted_mid,
            )
            &&& is_mean_of_four(
                d,
                fresh_quotes(quotes, now, |q: BookQuote<N>| q.spread_usd),
                v.book_spread_usd,
            )
        }),
{
    let now = fused.ts_micros;
    let (books, quotes) = (f.book_imbalance, f.book_pressure);
    let x = fresh_imbalances(books, now, |b: BookImbalance<N>| b.top5);
    imbalances_are_picked(books, now, fresh_top5(now), |b: BookImbalance<N>| b.top5);
    mean_is_told(d, x.0, x.1, x.2, x.3);
    let x = fresh_imbalances(books, now, |b: BookImbalance<N>| b.full);
    imbalances_are_picked(books, now, fresh_full(now), |b: BookImbalance<N>| b.full);
    mean_is_told(d, x.0, x.1, x.2, x.3);
    let x = fresh_quotes(quotes, now, |q: BookQuote<N>| q.microprice_dev);
    quotes_are_picked(quotes, now, fresh_pressure(now), |q: BookQuote<N>| q.microprice_dev);
    mean_is_told(d, x.0, x.1, x.2, x.3);
    let x = fresh_quotes(quotes, now, |q: BookQuote<N>| q.microprice);
    quotes_are_picked(quotes, now, fresh_microprice(now), |q: BookQuote<N>| q.microprice);
    mean_is_told(d, x.0, x.1, x.2, x.3);
    let x = fresh_quotes(quotes, now, |q: BookQuote<N>| q.spread_usd);
    quotes_are_picked(quotes, now, fresh_spread_usd(now), |q: BookQuote<N>| q.spread_usd);
    mean_is_told(d, x.0, x.1, x.2, x.3);
}

proof fn imbalances_are_picked<N: Number>(
    tracker: BookImbalanceTracker<N>,
    now: i64,
    pick: spec_fn(BookImbalance<N>) -> Option<N>,
    value: spec_fn(BookImbalance<N>) -> N,
)
    requires
        forall|b: BookImbalance<N>| #[trigger]
            pick(b) == (if now - b.ts_micros <= 2_000_000 { Some(value(b)) } else { None }),
    ensures
        ({
            let x = fresh_imbalances(tracker, now, value);
            picked(tracker.entries(), pick) == entry_seq(x.0) + entry_seq(x.1) + entry_seq(x.2)
                + entry_seq(x.3)
        }),
{
    picked_of_four(
        tracker.entry(Exchange::Binance),
        tracker.entry(Exchange::Coinbase),
        tracker.entry(Exchange::Kraken),
        tracker.entry(Exchange::Bitstamp),
        pick,
    );
}

proof fn quotes_are_picked<N: Number>(
    tracker: BookPressureTracker<N>,
    now: i64,
    pick: spec_fn(BookQuote<N>) -> Option<N>,
    value: spec_fn(BookQuote<N>) -> N,
)
    requires
        forall|b: BookQuote<N>| #[trigger]
            pick(b) == (if now - b.ts_micros <= 2_000_000 { Some(value(b)) } else { None }),
    ensures
        ({
            let x = fresh_quotes(tracker, now, value);
            picked(tracker.entries(), pick) == entry_seq(x.0) + entry_seq(x.1) + entry_seq(x.2)
                + entry_seq(x.3)
        }),
{
    picked_of_four(
        tracker.entry(Exchange::Binance),
        tracker.entry(Exchange::Coinbase),
        tracker.entry(Exchange::Kraken),
        tracker.entry(Exchange::Bitstamp),
        pick,
    );
}

// ---------------------------------------------------------------------------
// What a book shows
// ---------------------------------------------------------------------------
/// The quantity on the first `n` levels, in units.
pub open spec fn depth_units<N: Number>(d: spec_fn(N) -> Fixed, levels: Seq<Level<N>>, n: int) -> int
    decreases n,
{
    if n <= 0 {
        0
    } else if n > levels.len() {
        depth_units(d, levels, n - 1)
    } else {
        depth_units(d, levels, n - 1) + units_in(d, levels[n - 1].qty)
    }
}

/// A book as exchanges make them, in exact decimals: no negative quantity or price, and
/// totals that can be held.
pub open spec fn is_plain_book<N: Number>(d: spec_fn(N) -> Fixed, snap: BookSnapshot<N>) -> bool {
    let (bids, asks) = (snap.bids@, snap.asks@);
    &&& forall|i: int| 0 <= i < bids.len() ==> units_in(d, (#[trigger] bids[i]).qty) >= 0
    &&& forall|i: int| 0 <= i < asks.len() ==> units_in(d, (#[trigger] asks[i]).qty) >= 0
    &&& depth_units(d, bids, bids.len() as int) <= 4_000_000_000_000_000_000
    &&& depth_units(d, asks, asks.len() as int) <= 4_000_000_000_000_000_000
}

proof fn depth_grows<N: Number>(d: spec_fn(N) -> Fixed, levels: Seq<Level<N>>, m: int, n: int)
    requires
        forall|i: int| 0 <= i < levels.len() ==> units_in(d, (#[trigger] levels[i]).qty) >= 0,
        0 <= m <= n,
    ensures
        0 <= depth_units(d, levels, m) <= depth_units(d, levels, n),
        n >= levels.len() ==> depth_units(d, levels, n) == depth_units(
            d,
            levels,
            levels.len() as int,
        ),
    decreases n,
{
    if n > 0 {
        if m < n {
            depth_grows(d, levels, m, n - 1);
        } else {
            depth_grows(d, levels, m - 1, n - 1);
        }
    }
}

proof fn volume_is_exact<N: Number>(d: spec_fn(N) -> Fixed, levels: Seq<Level<N>>, n: int)
    requires
        counts_in_decimals(d),
        forall|i: int| 0 <= i < levels.len() ==> units_in(d, (#[trigger] levels[i]).qty) >= 0,
        depth_units(d, levels, levels.len() as int) <= 4_000_000_000_000_000_000,
        0 <= n <= levels.len(),
    ensures
        units_in(d, volume_of(levels.take(n))) == depth_units(d, levels, n),
    decreases n,
{
    depth_grows(d, levels, n, levels.len() as int);
    if n == 0 {
        assert(levels.take(0).len() == 0);
        reveal(counts_in_decimals);
        assert(Fixed::of_int(0).units == 0);
    } else {
        volume_is_exact(d, levels, n - 1);
        depth_grows(d, levels, n - 1, levels.len() as int);
        assert(levels.take(n).drop_last() =~= levels.take(n - 1));
        assert(levels.take(n).last() == levels[n - 1]);
        reveal(counts_in_decimals);
    }
}

proof fn top_is_exact<N: Number>(d: spec_fn(N) -> Fixed, levels: Seq<Level<N>>, depth: nat)
    requires
        counts_in_decimals(d),
        forall|i: int| 0 <= i < levels.len() ==> units_in(d, (#[trigger] levels[i]).qty) >= 0,
        depth_units(d, levels, levels.len() as int) <= 4_000_000_000_000_000_000,
    ensures
        units_in(d, volume_of(top_of(levels, depth))) == depth_units(d, levels, depth as int),
        0 <= depth_units(d, levels, depth as int) <= 4_000_000_000_000_000_000,
{
    let n = if depth < levels.len() { depth as int } else { levels.len() as int };
    volume_is_exact(d, levels, n);
    if depth < levels.len() {
        depth_grows(d, levels, depth as int, levels.len() as int);
    } else {
        depth_grows(d, levels, levels.len() as int, depth as int);
    }
}

/// The imbalance of two volumes in units: their difference over their sum, up to a unit,
/// on the side of the larger one.
pub open spec fn tells_which_side(bids: int, asks: int, x: int) -> bool {
    &&& is_near(x, (bids - asks) * UNITS, bids + asks)
    &&& bids >= asks ==> x >= 0
    &&& bids <= asks ==> x <= 0
}

/// The imbalance of a book is the difference of the volumes on its first levels over their
/// sum; there is none where a side is empty or has no volume at all.
pub proof fn imbalance_tells_which_side_is_deeper<N: Number>(
    d: spec_fn(N) -> Fixed,
    snap: BookSnapshot<N>,
    depth: nat,
)
    requires
        counts_in_decimals(d),
        is_plain_book(d, snap),
    ensures
        ({
            let (bids, asks) = (snap.bids@, snap.asks@);
            let (b, a) = (
                depth_units(d, bids, depth as int),
                depth_units(d, asks, depth as int),
            );
            let x = imbalance_of(bids, asks, depth);
            &&& x is None <==> bids.len() == 0 || asks.len() == 0 || a + b == 0
            &&& x matches Some(x) ==> tells_which_side(b, a, units_in(d, x))
        }),
{
    let (bids, asks) = (snap.bids@, snap.asks@);
    top_is_exact(d, bids, depth);
    top_is_exact(d, asks, depth);
    let (b, a) = (depth_units(d, bids, depth as int), depth_units(d, asks, depth as int));
    let (bv, av) = (volume_of(top_of(bids, depth)), volume_of(top_of(asks, depth)));
    reveal(counts_in_decimals);
    assert(Fixed::of_int(0).units == 0);
    let total = d(bv).sum(d(av));
    assert(total.units == a + b);
    if a + b > 0 {
        let gap = d(bv).difference(d(av));
        let (t, u) = (a + b, UNITS as int);
        assert(i64::MIN * t <= (b - a) * u <= i64::MAX * t) by (nonlinear_arith)
            requires
                a >= 0,
                b >= 0,
                t == a + b,
                u == 100_000_000,
        ;
        quotient_is_near(gap, total);
    }
}

/// The quote of a book: best ask less best bid, their mean, and the best prices weighted
/// by the volume on the other side, which lies on the side of the mean that the deeper
/// side pushes it to.
pub open spec fn is_quote_of<N: Number>(
    d: spec_fn(N) -> Fixed,
    snap: BookSnapshot<N>,
    q: BookQuote<N>,
) -> bool {
    let (bids, asks) = (snap.bids@, snap.asks@);
    let (bid, ask) = (units_in(d, bids[0].price), units_in(d, asks[0].price));
    let (b, a) = (depth_units(d, bids, 5), depth_units(d, asks, 5));
    let (mid, micro) = (units_in(d, q.mid), units_in(d, q.microprice));
    &&& units_in(d, q.spread_usd) == ask - bid
    &&& mid == (bid + ask) / 2
    &&& units_in(d, q.volume) == a + b
    &&& q.ts_micros == snap.ts_micros
    &&& bid * a + ask * b - 2 * UNITS - (a + b) <= micro * (a + b) <= bid * a + ask * b
    &&& mid == 0 ==> units_in(d, q.microprice_dev) == 0
    &&& mid > 0 && i64::MIN * mid <= (micro - mid) * UNITS <= i64::MAX * mid ==> is_near(
        units_in(d, q.microprice_dev),
        (micro - mid) * UNITS,
        mid,
    ) && (micro >= mid ==> units_in(d, q.microprice_dev) >= 0) && (micro <= mid ==> units_in(
        d,
        q.microprice_dev,
    ) <= 0)
}

/// Best prices of a book that exact decimals can weigh.
pub open spec fn has_plain_prices<N: Number>(d: spec_fn(N) -> Fixed, snap: BookSnapshot<N>) -> bool {
    let (bids, asks) = (snap.bids@, snap.asks@);
    let (bid, ask) = (units_in(d, bids[0].price), units_in(d, asks[0].price));
    let (b, a) = (depth_units(d, bids, 5), depth_units(d, asks, 5));
    &&& 0 <= bid <= 4_000_000_000_000_000_000
    &&& 0 <= ask <= 4_000_000_000_000_000_000
    &&& bid * a <= 4_000_000_000_000_000_000 * UNITS
    &&& ask * b <= 4_000_000_000_000_000_000 * UNITS
}

/// A book replaces what its exchange showed before by its own imbalances, over five levels
/// and over all, and its own quote; a book that lacks a side or volume leaves them, and the
/// other exchanges' entries and everything else stay as they are.
pub proof fn books_show_their_sides<N: Number>(
    d: spec_fn(N) -> Fixed,
    before: FeatureView<N>,
    snap: BookSnapshot<N>,
    after: FeatureView<N>,
)
    requires
        counts_in_decimals(d),
        is_plain_book(d, snap),
        snap.bids@.len() > 0 && snap.asks@.len() > 0 ==> has_plain_prices(d, snap),
        book_taken(before, snap, after),
    ensures
        ({
            let e = snap.exchange;
            let (bids, asks) = (snap.bids@, snap.asks@);
            let (b, a) = (depth_units(d, bids, 5), depth_units(d, asks, 5));
            let (ball, aall) = (
                depth_units(d, bids, bids.len() as int),
                depth_units(d, asks, asks.len() as int),
            );
            let shows = bids.len() > 0 && asks.len() > 0 && a + b > 0;
            &&& shows ==> (after.book_imbalance.entry(e) matches Some(x) && {
                &&& x.ts_micros == snap.ts_micros
                &&& tells_which_side(b, a, units_in(d, x.top5))
                &&& tells_which_side(ball, aall, units_in(d, x.full))
            })
            &&& shows ==> (after.book_pressure.entry(e) matches Some(q) && is_quote_of(d, snap, q))
            &&& !shows ==> after.book_imbalance.entry(e) == before.book_imbalance.entry(e)
            &&& !shows ==> after.book_pressure.entry(e) == before.book_pressure.entry(e)
            &&& forall|o: Exchange|
                o != e ==> #[trigger] after.book_imbalance.entry(o) == before.book_imbalance.entry(
                    o,
                )
            &&& forall|o: Exchange|
                o != e ==> #[trigger] after.book_pressure.entry(o) == before.book_pressure.entry(o)
            &&& after.rsi == before.rsi
            &&& after.ofi_30 == before.ofi_30
            &&& after.last == before.last
        }),
{
    let (bids, asks) = (snap.bids@, snap.asks@);
    let depth = if bids.len() > asks.len() { bids.len() } else { asks.len() };
    imbalance_tells_which_side_is_deeper(d, snap, 5);
    imbalance_tells_which_side_is_deeper(d, snap, depth);
    top_is_exact(d, bids, 5);
    top_is_exact(d, asks, 5);
    depth_grows(d, bids, bids.len() as int, depth as int);
    depth_grows(d, asks, asks.len() as int, depth as int);
    if depth >= 5 {
        depth_grows(d, bids, 5, depth as int);
        depth_grows(d, asks, 5, depth as int);
    } else {
        depth_grows(d, bids, bids.len() as int, 5);
        depth_grows(d, asks, asks.len() as int, 5);
    }
    if bids.len() > 0 && asks.len() > 0 && depth_units(d, bids, 5) + depth_units(d, asks, 5) > 0 {
        quote_is_told(d, snap);
    }
    assert(weighted_mid_of(bids, asks, 5) is None <==> bids.len() == 0 || asks.len() == 0
        || depth_units(d, bids, 5) + depth_units(d, asks, 5) == 0) by {
        reveal(counts_in_decimals);
        assert(Fixed::of_int(0).units == 0);
    }
}

proof fn quote_is_told<N: Number>(d: spec_fn(N) -> Fixed, snap: BookSnapshot<N>)
    requires
        counts_in_decimals(d),
        is_plain_book(d, snap),
        snap.bids@.len() > 0,
        snap.asks@.len() > 0,
        has_plain_prices(d, snap),
        depth_units(d, snap.bids@, 5) + depth_units(d, snap.asks@, 5) > 0,
    ensures
        crate::features::state::quote_shown(snap) matches Some(q) && is_quote_of(d, snap, q),
{
    let (bids, asks) = (snap.bids@, snap.asks@);
    top_is_exact(d, bids, 5);
    top_is_exact(d, asks, 5);
    let (bv, av) = (volume_of(top_of(bids, 5)), volume_of(top_of(asks, 5)));
    let (b, a) = (depth_units(d, bids, 5), depth_units(d, asks, 5));
    let (bid, ask) = (units_in(d, bids[0].price), units_in(d, asks[0].price));
    let u = UNITS as int;
    assert(u == 100_000_000);
    assert(bid * a >= 0 && ask * b >= 0) by (nonlinear_arith)
        requires
            bid >= 0,
            ask >= 0,
            a >= 0,
            b >= 0,
    ;
    product_is_near(d(bids[0].price), d(av));
    product_is_near(d(asks[0].price), d(bv));
    division_is_near(bid * a, u);
    division_is_near(ask * b, u);
    let x = d(bids[0].price).product(d(av)).units as int;
    let y = d(asks[0].price).product(d(bv)).units as int;
    let w = x + y;
    let t = a + b;
    reveal(counts_in_decimals);
    assert(Fixed::of_int(0).units == 0);
    let total = bv.sum(av);
    assert(d(total).units == t);
    let value = bids[0].price.product(av).sum(asks[0].price.product(bv));
    assert(d(value).units == w);
    let micro = (w * u) / t;
    assert(0 <= w * u && w * u - t < micro * t <= w * u && 0 <= micro) by (nonlinear_arith)
        requires
            w >= 0,
            t > 0,
            u == 100_000_000,
            micro == (w * u) / t,
    ;
    let most = if bid >= ask { bid } else { ask };
    assert(micro <= most) by (nonlinear_arith)
        requires
            micro * t <= w * u,
            w * u <= bid * a + ask * b,
            bid <= most,
            ask <= most,
            a >= 0,
            b >= 0,
            t == a + b,
            t > 0,
    ;
    let price = value.quotient(total);
    assert(d(price).units == micro);
    whole_part_is_near(d(bids[0].price).sum(d(asks[0].price)), 2);
    let mid = bids[0].price.sum(asks[0].price).quotient(N::of_int(2));
    assert(d(mid).units == (bid + ask) / 2);
    if d(mid).units > 0 {
        let gap = d(price).difference(d(mid));
        let m = d(mid).units as int;
        if i64::MIN * m <= (micro - m) * u <= i64::MAX * m {
            quotient_is_near(gap, d(mid));
        }
    }
}

// ---------------------------------------------------------------------------
// The spread, weighted by volume
// ---------------------------------------------------------------------------
/// The volume and the spread, as a fraction of the mid price, of a fresh book with a
/// positive mid price.
pub open spec fn weighted_spread<N: Number>(
    d: spec_fn(N) -> Fixed,
    entry: Option<BookQuote<N>>,
    now: i64,
) -> Option<(N, N)> {
    match entry {
        Some(q) => if now - q.ts_micros <= 2_000_000 && units_in(d, q.mid) > 0 {
            Some((q.volume, q.spread_usd.quotient(q.mid)))
        } else {
            None
        },
        None => None,
    }
}

/// The weight of a weighted value; 0 for none.
pub open spec fn weight_in<N: Number>(d: spec_fn(N) -> Fixed, x: Option<(N, N)>) -> int {
    match x {
        Some(x) => units_in(d, x.0),
        None => 0,
    }
}

/// Weight times value; 0 for none.
pub open spec fn moment_in<N: Number>(d: spec_fn(N) -> Fixed, x: Option<(N, N)>) -> int {
    match x {
        Some(x) => units_in(d, x.0) * units_in(d, x.1),
        None => 0,
    }
}

/// A weight and a value that are not negative and small enough that four can be added.
pub open spec fn is_weighted_summand<N: Number>(d: spec_fn(N) -> Fixed, x: Option<(N, N)>) -> bool {
    x matches Some(y) ==> {
        &&& 0 <= units_in(d, y.0) <= 2_000_000_000_000_000_000
        &&& 0 <= units_in(d, y.1)
        &&& units_in(d, y.0) * units_in(d, y.1) <= 2_000_000_000_000_000_000 * UNITS
    }
}

proof fn weighted_total_splits<N: Number>(
    d: spec_fn(N) -> Fixed,
    xs: Seq<(N, N)>,
    e: Option<(N, N)>,
    slack: int,
    moment: int,
)
    requires
        counts_in_decimals(d),
        0 <= units_in(d, weight_of(xs)) <= 6_000_000_000_000_000_000,
        0 <= units_in(d, weighted_total_of(xs)) <= 6_000_000_000_000_000_000,
        moment - slack * UNITS <= units_in(d, weighted_total_of(xs)) * UNITS <= moment,
        slack >= 0,
        is_weighted_summand(d, e),
    ensures
        ({
            let longer = xs + entry_seq(e);
            let total = units_in(d, weighted_total_of(longer));
            &&& longer.len() == xs.len() + counted(e)
            &&& units_in(d, weight_of(longer)) == units_in(d, weight_of(xs)) + weight_in(d, e)
            &&& units_in(d, weighted_total_of(xs)) <= total <= units_in(d, weighted_total_of(xs))
                + 2_000_000_000_000_000_000
            &&& moment + moment_in(d, e) - (slack + 1) * UNITS <= total * UNITS <= moment
                + moment_in(d, e)
        }),
{
    let u = UNITS as int;
    assert(u == 100_000_000);
    match e {
        None => {
            assert(xs + entry_seq(e) =~= xs);
        },
        Some(t) => {
            let longer = xs + entry_seq(e);
            assert(longer.last() == t);
            assert(longer.drop_last() =~= xs);
            let (w, x) = (units_in(d, t.0), units_in(d, t.1));
            let m = w * x;
            assert(0 <= m) by (nonlinear_arith)
                requires
                    m == w * x,
                    w >= 0,
                    x >= 0,
            ;
            product_is_near(d(t.0), d(t.1));
            division_is_near(m, u);
            let y = d(t.0).product(d(t.1)).units as int;
            assert(y <= 2_000_000_000_000_000_000) by (nonlinear_arith)
                requires
                    y * u <= m,
                    m <= 2_000_000_000_000_000_000 * u,
                    u == 100_000_000,
            ;
            reveal(counts_in_decimals);
            let old = units_in(d, weighted_total_of(xs));
            assert(units_in(d, weighted_total_of(longer)) == old + y);
        },
    }
}

/// The spread feature is the mean of the fresh books' spreads as fractions of their mid
/// prices, each weighted by the volume behind it, up to what exact decimals drop.
pub proof fn spread_feature_weighs_by_volume<N: Analytic>(
    d: spec_fn(N) -> Fixed,
    f: FeatureView<N>,
    fused: FusedTick<N>,
    v: FeatureVector<N>,
)
    requires
        counts_in_decimals(d),
        describes(f, fused, v),
    ensures
        ({
            let now = fused.ts_micros;
            let (a, b, c, e) = (
                weighted_spread(d, f.book_pressure.entry(Exchange::Binance), now),
                weighted_spread(d, f.book_pressure.entry(Exchange::Coinbase), now),
                weighted_spread(d, f.book_pressure.entry(Exchange::Kraken), now),
                weighted_spread(d, f.book_pressure.entry(Exchange::Bitstamp), now),
            );
            let weight = weight_in(d, a) + weight_in(d, b) + weight_in(d, c) + weight_in(d, e);
            let moment = moment_in(d, a) + moment_in(d, b) + moment_in(d, c) + moment_in(d, e);
            is_weighted_summand(d, a) && is_weighted_summand(d, b) && is_weighted_summand(d, c)
                && is_weighted_summand(d, e) ==> {
                &&& v.book_spread_pct is None <==> weight == 0
                &&& v.book_spread_pct matches Some(x) ==> (moment <= i64::MAX * weight ==> moment
                    - 4 * UNITS - weight <= units_in(d, x) * weight <= moment)
            }
        }),
{
    let now = fused.ts_micros;
    let quotes = f.book_pressure;
    let u = UNITS as int;
    assert(u == 100_000_000);
    let pick = fresh_spread::<N>(now);
    assert(forall|q: BookQuote<N>| #[trigger] pick(q) == weighted_spread(d, Some(q), now)) by {
        reveal(counts_in_decimals);
        assert(Fixed::of_int(0).units == 0);
    }
    picked_of_four(
        quotes.entry(Exchange::Binance),
        quotes.entry(Exchange::Coinbase),
        quotes.entry(Exchange::Kraken),
        quotes.entry(Exchange::Bitstamp),
        pick,
    );
    let (a, b, c, e) = (
        weighted_spread(d, quotes.entry(Exchange::Binance), now),
        weighted_spread(d, quotes.entry(Exchange::Coinbase), now),
        weighted_spread(d, quotes.entry(Exchange::Kraken), now),
        weighted_spread(d, quotes.entry(Exchange::Bitstamp), now),
    );
    let all = entry_seq(a) + entry_seq(b) + entry_seq(c) + entry_seq(e);
    assert(picked(quotes.entries(), pick) == all);
    if is_weighted_summand(d, a) && is_weighted_summand(d, b) && is_weighted_summand(d, c)
        && is_weighted_summand(d, e) {
        let none = Seq::<(N, N)>::empty();
        assert(units_in(d, weight_of(none)) == 0 && units_in(d, weighted_total_of(none)) == 0) by {
            reveal(counts_in_decimals);
            assert(Fixed::of_int(0).units == 0);
        }
        let (ma, mb, mc) = (moment_in(d, a), moment_in(d, b), moment_in(d, c));
        weighted_total_splits(d, none, a, 0, 0);
        assert(none + entry_seq(a) =~= entry_seq(a));
        weighted_total_splits(d, entry_seq(a), b, 1, ma);
        weighted_total_splits(d, entry_seq(a) + entry_seq(b), c, 2, ma + mb);
        weighted_total_splits(d, entry_seq(a) + entry_seq(b) + entry_seq(c), e, 3, ma + mb + mc);
        let (w, t) = (units_in(d, weight_of(all)), units_in(d, weighted_total_of(all)));
        let moment = ma + mb + mc + moment_in(d, e);
        reveal(counts_in_decimals);
        assert(Fixed::of_int(0).units == 0);
        if w > 0 && moment <= i64::MAX * w {
            let x = (t * u) / w;
            assert(0 <= t * u && t * u - w < x * w <= t * u && 0 <= x) by (nonlinear_arith)
                requires
                    t >= 0,
                    w > 0,
                    u == 100_000_000,
                    x == (t * u) / w,
            ;
            assert(x <= i64::MAX) by (nonlinear_arith)
                requires
                    x * w <= t * u,
                    t * u <= moment,
                    moment <= i64::MAX * w,
                    w > 0,
            ;
            assert(d(weighted_total_of(all).quotient(weight_of(all))).units == x);
        }
    }
}

} // verus!
