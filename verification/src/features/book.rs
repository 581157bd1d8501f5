//! Order book trackers: the latest book of each exchange, averaged while fresh.

use vstd::prelude::*;
use crate::bounds::{has_bounds, within};
use crate::number::{is_between, is_monotone, Number};
use crate::pick::picked;
use crate::types::per_exchange::entry_seq;
use crate::types::{Exchange, PerExchange};

verus! {

/// How long a book stays fresh, in microseconds.
pub const BOOK_STALE_MICROS: i64 = 2_000_000;

/// Is a book still fresh?
pub open spec fn is_fresh(ts: i64, now: i64) -> bool {
    now - ts <= BOOK_STALE_MICROS
}

fn fresh(ts: i64, now: i64) -> (r: bool)
    ensures
        r == is_fresh(ts, now),
{
    now as i128 - ts as i128 <= BOOK_STALE_MICROS as i128
}

/// The sum of some numbers.
pub open spec fn total_of<N: Number>(xs: Seq<N>) -> N
    decreases xs.len(),
{
    if xs.len() == 0 {
        N::of_int(0)
    } else {
        total_of(xs.drop_last()).sum(xs.last())
    }
}

/// The mean of some numbers; `None` of none.
pub open spec fn mean_of<N: Number>(xs: Seq<N>) -> Option<N> {
    if xs.len() == 0 {
        None
    } else {
        Some(total_of(xs).quotient(N::of_int(xs.len() as int)))
    }
}

fn mean<N: Number>(xs: &Vec<N>) -> (r: Option<N>)
    ensures
        r == mean_of(xs@),
{
    let n: usize = xs.len();
    let mut total = N::from_int(0);
    let mut i: usize = 0;
    while i < n
        invariant
            i <= n,
            n == xs@.len(),
            total == total_of(xs@.take(i as int)),
        decreases n - i,
    {
        assert(xs@.take(i + 1).drop_last() =~= xs@.take(i as int));
        total = total.add(xs[i]);
        i += 1;
    }
    assert(xs@.take(n as int) =~= xs@);
    if n == 0 {
        None
    } else {
        Some(total.div(N::from_int(n as i128)))
    }
}

/// The mean of some bounded values is bounded as they are.
pub proof fn mean_is_bounded<N: Number>(xs: Seq<N>)
    requires
        has_bounds::<N>(),
        xs.len() <= 1_000_000,
        forall|i: int| 0 <= i < xs.len() ==> within(#[trigger] xs[i], 1),
    ensures
        mean_of(xs) matches Some(x) ==> within(x, 1),
{
    if xs.len() > 0 {
        total_is_bounded(xs);
        reveal(has_bounds);
        reveal(is_monotone);
        let n = xs.len() as int;
        let t = N::of_int(n);
        let zero = N::of_int(0);
        assert(zero.is_below(t));
        assert(zero.difference(t) == N::of_int(-n));
        assert(is_between(zero.difference(t), total_of(xs), t));
        assert(is_between(N::of_int(-1), total_of(xs).quotient(t), N::of_int(1)));
    }
}

proof fn total_is_bounded<N: Number>(xs: Seq<N>)
    requires
        has_bounds::<N>(),
        xs.len() <= 1_000_000,
        forall|i: int| 0 <= i < xs.len() ==> within(#[trigger] xs[i], 1),
    ensures
        within(total_of(xs), xs.len() as int),
    decreases xs.len(),
{
    reveal(has_bounds);
    if xs.len() == 0 {
        reveal(is_monotone);
    } else {
        let rest = xs.drop_last();
        assert forall|i: int| 0 <= i < rest.len() implies within(#[trigger] rest[i], 1) by {
            assert(rest[i] == xs[i]);
        }
        total_is_bounded(rest);
        assert(within(xs[xs.len() - 1], 1));
        assert(within(total_of(rest).sum(xs.last()), rest.len() as int + 1));
    }
}

/// The sum of some weighted numbers, given as (weight, number).
pub open spec fn weighted_total_of<N: Number>(xs: Seq<(N, N)>) -> N
    decreases xs.len(),
{
    if xs.len() == 0 {
        N::of_int(0)
    } else {
        weighted_total_of(xs.drop_last()).sum(xs.last().0.product(xs.last().1))
    }
}

/// The sum of the weights.
pub open spec fn weight_of<N: Number>(xs: Seq<(N, N)>) -> N
    decreases xs.len(),
{
    if xs.len() == 0 {
        N::of_int(0)
    } else {
        weight_of(xs.drop_last()).sum(xs.last().0)
    }
}

/// The weighted mean of some numbers; `None` of none, or without weight.
pub open spec fn weighted_mean_of<N: Number>(xs: Seq<(N, N)>) -> Option<N> {
    if xs.len() == 0 || weight_of(xs).is_same(N::of_int(0)) {
        None
    } else {
        Some(weighted_total_of(xs).quotient(weight_of(xs)))
    }
}

fn weighted_mean<N: Number>(xs: &Vec<(N, N)>) -> (r: Option<N>)
    ensures
        r == weighted_mean_of(xs@),
{
    let n: usize = xs.len();
    let mut total = N::from_int(0);
    let mut weight = N::from_int(0);
    let mut i: usize = 0;
    while i < n
        invariant
            i <= n,
            n == xs@.len(),
            total == weighted_total_of(xs@.take(i as int)),
            weight == weight_of(xs@.take(i as int)),
        decreases n - i,
    {
        assert(xs@.take(i + 1).drop_last() =~= xs@.take(i as int));
        let (w, x) = xs[i];
        total = total.add(w.mul(x));
        weight = weight.add(w);
        i += 1;
    }
    assert(xs@.take(n as int) =~= xs@);
    if n == 0 || weight.same(N::from_int(0)) {
        None
    } else {
        Some(total.div(weight))
    }
}

// ---------------------------------------------------------------------------
// Book imbalance tracker
// ---------------------------------------------------------------------------
/// The imbalances of one exchange's book.
#[derive(Debug, Clone, Copy)]
pub struct BookImbalance<N> {
    /// Over the top five levels.
    pub top5: N,
    /// Over all levels.
    pub full: N,
    pub ts_micros: i64,
}

/// The top-five imbalance of a fresh book.
pub open spec fn fresh_top5<N>(now: i64) -> spec_fn(BookImbalance<N>) -> Option<N> {
    |b: BookImbalance<N>| if is_fresh(b.ts_micros, now) { Some(b.top5) } else { None }
}

/// The full-depth imbalance of a fresh book.
pub open spec fn fresh_full<N>(now: i64) -> spec_fn(BookImbalance<N>) -> Option<N> {
    |b: BookImbalance<N>| if is_fresh(b.ts_micros, now) { Some(b.full) } else { None }
}

/// Tracks the latest book imbalances (top-5 and full) per exchange and fuses them
/// into single cross-exchange estimates.
#[derive(Debug, Clone, Copy)]
pub struct BookImbalanceTracker<N> {
    last: PerExchange<BookImbalance<N>>,
}

impl<N: Number> BookImbalanceTracker<N> {
    /// The latest imbalances of an exchange.
    pub closed spec fn entry(self, exchange: Exchange) -> Option<BookImbalance<N>> {
        self.last.entry(exchange)
    }

    /// The latest imbalances of all exchanges that have any, in walking order.
    pub open spec fn entries(self) -> Seq<BookImbalance<N>> {
        entry_seq(self.entry(Exchange::Binance)) + entry_seq(self.entry(Exchange::Coinbase))
            + entry_seq(self.entry(Exchange::Kraken)) + entry_seq(self.entry(Exchange::Bitstamp))
    }

    pub fn new() -> (r: Self)
        ensures
            forall|e: Exchange| #[trigger] r.entry(e) is None,
    {
        BookImbalanceTracker { last: PerExchange::new() }
    }

    /// Record top-5 and full-depth imbalances from one exchange snapshot.
    pub fn update(&mut self, exchange: Exchange, imb_top5: N, imb_full: N, ts_micros: i64)
        ensures
            final(self).entry(exchange) == Some(
                BookImbalance { top5: imb_top5, full: imb_full, ts_micros },
            ),
            forall|e: Exchange| e != exchange ==> #[trigger] final(self).entry(e) == old(self).entry(e),
    {
        self.last.insert(exchange, BookImbalance { top5: imb_top5, full: imb_full, ts_micros });
    }

    /// Fused top-5 imbalance: the mean across all fresh snapshots.
    pub fn fused_top5(&self, now_micros: i64) -> (r: Option<N>)
        ensures
            r == mean_of(picked(self.entries(), fresh_top5(now_micros))),
    {
        let all = self.last.values();
        let mut xs: Vec<N> = Vec::new();
        let mut i: usize = 0;
        let ghost pick = fresh_top5::<N>(now_micros);
        while i < all.len()
            invariant
                i <= all.len(),
                pick == fresh_top5::<N>(now_micros),
                xs@ == picked(all@.take(i as int), pick),
            decreases all.len() - i,
        {
            assert(all@.take(i + 1).drop_last() =~= all@.take(i as int));
            if fresh(all[i].ts_micros, now_micros) {
                xs.push(all[i].top5);
            }
            i += 1;
        }
        assert(all@.take(all@.len() as int) =~= all@);
        mean(&xs)
    }

    /// Fused full-depth imbalance: the mean across all fresh snapshots.
    pub fn fused_full(&self, now_micros: i64) -> (r: Option<N>)
        ensures
            r == mean_of(picked(self.entries(), fresh_full(now_micros))),
    {
        let all = self.last.values();
        let mut xs: Vec<N> = Vec::new();
        let mut i: usize = 0;
        let ghost pick = fresh_full::<N>(now_micros);
        while i < all.len()
            invariant
                i <= all.len(),
                pick == fresh_full::<N>(now_micros),
                xs@ == picked(all@.take(i as int), pick),
            decreases all.len() - i,
        {
            assert(all@.take(i + 1).drop_last() =~= all@.take(i as int));
            if fresh(all[i].ts_micros, now_micros) {
                xs.push(all[i].full);
            }
            i += 1;
        }
        assert(all@.take(all@.len() as int) =~= all@);
        mean(&xs)
    }
}

/// The imbalances of a book lie between -1 and 1.
pub open spec fn is_balanced<N: Number>(b: BookImbalance<N>) -> bool {
    within(b.top5, 1) && within(b.full, 1)
}

proof fn picked_are_within<N: Number>(
    entries: Seq<BookImbalance<N>>,
    pick: spec_fn(BookImbalance<N>) -> Option<N>,
)
    requires
        forall|i: int|
            0 <= i < entries.len() ==> (pick(#[trigger] entries[i]) matches Some(x) ==> within(x, 1)),
    ensures
        picked(entries, pick).len() <= entries.len(),
        forall|i: int|
            0 <= i < picked(entries, pick).len() ==> within(#[trigger] picked(entries, pick)[i], 1),
    decreases entries.len(),
{
    if entries.len() > 0 {
        let rest = entries.drop_last();
        assert forall|i: int| 0 <= i < rest.len() implies (pick(#[trigger] rest[i]) matches Some(
            x,
        ) ==> within(x, 1)) by {
            assert(rest[i] == entries[i]);
        }
        picked_are_within(rest, pick);
        assert(entries[entries.len() - 1] == entries.last());
    }
}

/// The fused imbalances lie between -1 and 1, as those of the books do.
pub proof fn fused_imbalances_keep_their_ranges<N: Number>(
    entries: Seq<BookImbalance<N>>,
    now: i64,
)
    requires
        has_bounds::<N>(),
        entries.len() <= 1_000_000,
        forall|i: int| 0 <= i < entries.len() ==> is_balanced(#[trigger] entries[i]),
    ensures
        mean_of(picked(entries, fresh_top5::<N>(now))) matches Some(x) ==> within(x, 1),
        mean_of(picked(entries, fresh_full::<N>(now))) matches Some(x) ==> within(x, 1),
{
    picked_are_within(entries, fresh_top5::<N>(now));
    picked_are_within(entries, fresh_full::<N>(now));
    mean_is_bounded(picked(entries, fresh_top5::<N>(now)));
    mean_is_bounded(picked(entries, fresh_full::<N>(now)));
}

/// Once every book has gone stale there is no estimate.
pub proof fn stale_books_give_no_imbalance<N: Number>(entries: Seq<BookImbalance<N>>, now: i64)
    requires
        forall|i: int| 0 <= i < entries.len() ==> !is_fresh((#[trigger] entries[i]).ts_micros, now),
    ensures
        mean_of(picked(entries, fresh_top5::<N>(now))) is None,
        mean_of(picked(entries, fresh_full::<N>(now))) is None,
    decreases entries.len(),
{
    if entries.len() > 0 {
        let rest = entries.drop_last();
        assert forall|i: int| 0 <= i < rest.len() implies !is_fresh(
            (#[trigger] rest[i]).ts_micros,
            now,
        ) by {
            assert(rest[i] == entries[i]);
        }
        stale_books_give_no_imbalance(rest, now);
        assert(!is_fresh(entries[entries.len() - 1].ts_micros, now));
    }
}

// ---------------------------------------------------------------------------
// Book spread / pressure tracker
// ---------------------------------------------------------------------------
/// The spread and skew of one exchange's book.
#[derive(Debug, Clone, Copy)]
pub struct BookQuote<N> {
    pub spread_usd: N,
    /// (microprice - mid) / mid: positive when bids dominate.
    pub microprice_dev: N,
    pub mid: N,
    /// The mid price weighted by volume.
    pub microprice: N,
    /// The volume that stands behind the quote.
    pub volume: N,
    pub ts_micros: i64,
}

/// The volume of a fresh book and its spread as a fraction of its mid price.
pub open spec fn fresh_spread<N: Number>(now: i64) -> spec_fn(BookQuote<N>) -> Option<(N, N)> {
    |q: BookQuote<N>|
        if is_fresh(q.ts_micros, now) && N::of_int(0).is_below(q.mid) {
            Some((q.volume, q.spread_usd.quotient(q.mid)))
        } else {
            None
        }
}

/// The spread of a fresh book in USD.
pub open spec fn fresh_spread_usd<N: Number>(now: i64) -> spec_fn(BookQuote<N>) -> Option<N> {
    |q: BookQuote<N>| if is_fresh(q.ts_micros, now) { Some(q.spread_usd) } else { None }
}

/// The weighted mid price of a fresh book.
pub open spec fn fresh_microprice<N: Number>(now: i64) -> spec_fn(BookQuote<N>) -> Option<N> {
    |q: BookQuote<N>| if is_fresh(q.ts_micros, now) { Some(q.microprice) } else { None }
}

/// The skew of a fresh book.
pub open spec fn fresh_pressure<N: Number>(now: i64) -> spec_fn(BookQuote<N>) -> Option<N> {
    |q: BookQuote<N>| if is_fresh(q.ts_micros, now) { Some(q.microprice_dev) } else { None }
}

/// Tracks per-exchange book spread (in USD) and micro-price deviation.
///
/// Produces percentage spread and a normalised "pressure" metric that captures
/// micro-price vs. mid-price deviations: a cheap proxy for short-term book skew.
#[derive(Debug, Clone, Copy)]
pub struct BookPressureTracker<N> {
    last: PerExchange<BookQuote<N>>,
}

impl<N: Number> BookPressureTracker<N> {
    /// The latest quote of an exchange.
    pub closed spec fn entry(self, exchange: Exchange) -> Option<BookQuote<N>> {
        self.last.entry(exchange)
    }

    /// The latest quotes of all exchanges that have any, in walking order.
    pub open spec fn entries(self) -> Seq<BookQuote<N>> {
        entry_seq(self.entry(Exchange::Binance)) + entry_seq(self.entry(Exchange::Coinbase))
            + entry_seq(self.entry(Exchange::Kraken)) + entry_seq(self.entry(Exchange::Bitstamp))
    }

    pub fn new() -> (r: Self)
        ensures
            forall|e: Exchange| #[trigger] r.entry(e) is None,
    {
        BookPressureTracker { last: PerExchange::new() }
    }

    /// Record a snapshot's spread and micro-price deviation. Snapshots that are recorded
    /// so, without their volume, weigh alike.
    pub fn update(&mut self, exchange: Exchange, spread_usd: N, microprice_dev: N, mid: N, ts: i64)
        ensures
            final(self).entry(exchange) == Some(
                BookQuote {
                    spread_usd,
                    microprice_dev,
                    mid,
                    microprice: mid.sum(mid.product(microprice_dev)),
                    volume: N::of_int(1),
                    ts_micros: ts,
                },
            ),
            forall|e: Exchange| e != exchange ==> #[trigger] final(self).entry(e) == old(self).entry(e),
    {
        let microprice = mid.add(mid.mul(microprice_dev));
        let volume = N::from_int(1);
        self.record(
            exchange,
            BookQuote { spread_usd, microprice_dev, mid, microprice, volume, ts_micros: ts },
        );
    }

    /// Record what a snapshot shows.
    pub fn record(&mut self, exchange: Exchange, quote: BookQuote<N>)
        ensures
            final(self).entry(exchange) == Some(quote),
            forall|e: Exchange| e != exchange ==> #[trigger] final(self).entry(e) == old(self).entry(e),
    {
        self.last.insert(exchange, quote);
    }

    /// Volume-averaged percentage spread across fresh snapshots.
    pub fn spread_pct(&self, now_micros: i64) -> (r: Option<N>)
        ensures
            r == weighted_mean_of(picked(self.entries(), fresh_spread(now_micros))),
    {
        let all = self.last.values();
        let zero = N::from_int(0);
        let mut xs: Vec<(N, N)> = Vec::new();
        let mut i: usize = 0;
        let ghost pick = fresh_spread::<N>(now_micros);
        while i < all.len()
            invariant
                i <= all.len(),
                zero == N::of_int(0),
                pick == fresh_spread::<N>(now_micros),
                xs@ == picked(all@.take(i as int), pick),
            decreases all.len() - i,
        {
            assert(all@.take(i + 1).drop_last() =~= all@.take(i as int));
            if fresh(all[i].ts_micros, now_micros) && zero.below(all[i].mid) {
                xs.push((all[i].volume, all[i].spread_usd.div(all[i].mid)));
            }
            i += 1;
        }
        assert(all@.take(all@.len() as int) =~= all@);
        weighted_mean(&xs)
    }

    /// Average best bid-ask spread in USD across fresh snapshots.
    pub fn spread_usd(&self, now_micros: i64) -> (r: Option<N>)
        ensures
            r == mean_of(picked(self.entries(), fresh_spread_usd(now_micros))),
    {
        let all = self.last.values();
        let mut xs: Vec<N> = Vec::new();
        let mut i: usize = 0;
        let ghost pick = fresh_spread_usd::<N>(now_micros);
        while i < all.len()
            invariant
                i <= all.len(),
                pick == fresh_spread_usd::<N>(now_micros),
                xs@ == picked(all@.take(i as int), pick),
            decreases all.len() - i,
        {
            assert(all@.take(i + 1).drop_last() =~= all@.take(i as int));
            if fresh(all[i].ts_micros, now_micros) {
                xs.push(all[i].spread_usd);
            }
            i += 1;
        }
        assert(all@.take(all@.len() as int) =~= all@);
        mean(&xs)
    }

    /// Average volume-weighted mid price across fresh snapshots.
    pub fn weighted_mid(&self, now_micros: i64) -> (r: Option<N>)
        ensures
            r == mean_of(picked(self.entries(), fresh_microprice(now_micros))),
    {
        let all = self.last.values();
        let mut xs: Vec<N> = Vec::new();
        let mut i: usize = 0;
        let ghost pick = fresh_microprice::<N>(now_micros);
        while i < all.len()
            invariant
                i <= all.len(),
                pick == fresh_microprice::<N>(now_micros),
                xs@ == picked(all@.take(i as int), pick),
            decreases all.len() - i,
        {
            assert(all@.take(i + 1).drop_last() =~= all@.take(i as int));
            if fresh(all[i].ts_micros, now_micros) {
                xs.push(all[i].microprice);
            }
            i += 1;
        }
        assert(all@.take(all@.len() as int) =~= all@);
        mean(&xs)
    }

    /// Average micro-price deviation across fresh snapshots.
    pub fn pressure(&self, now_micros: i64) -> (r: Option<N>)
        ensures
            r == mean_of(picked(self.entries(), fresh_pressure(now_micros))),
    {
        let all = self.last.values();
        let mut xs: Vec<N> = Vec::new();
        let mut i: usize = 0;
        let ghost pick = fresh_pressure::<N>(now_micros);
        while i < all.len()
            invariant
                i <= all.len(),
                pick == fresh_pressure::<N>(now_micros),
                xs@ == picked(all@.take(i as int), pick),
            decreases all.len() - i,
        {
            assert(all@.take(i + 1).drop_last() =~= all@.take(i as int));
            if fresh(all[i].ts_micros, now_micros) {
                xs.push(all[i].microprice_dev);
            }
            i += 1;
        }
        assert(all@.take(all@.len() as int) =~= all@);
        mean(&xs)
    }
}

} // verus!
