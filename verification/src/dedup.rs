//! Deduplication and outlier filtering: the first stage in the pipeline.
//!
//! # Deduplication
//!
//! Within an exchange, a trade ID that was seen inside the dedup window (200 ms) is
//! dropped. Across exchanges, near-duplicate events (same price within $0.05, same
//! quantity within 0.001 BTC, inside the window) are collapsed to the first-seen
//! tick.
//!
//! # Outlier filter
//!
//! A tick is rejected when
//! `|price - rolling_median| > spike_k x volatility x price`, where `rolling_median`
//! is the median of the last 20 prices and the volatility is the estimate last
//! handed to [`TickFilter::set_ewma_variance`]: the volatility per tick that the
//! features read, handed back after each fused tick. Without an estimate nothing is
//! rejected.

use vstd::prelude::*;
use crate::number::{is_ordered, Number};
use crate::types::Tick;
use crate::window::{drop_stale, fresh_suffix, eviction_drops_the_stale_front, stale_prefix, Stamped};
use std::collections::VecDeque;

verus! {

// ---------------------------------------------------------------------------
// Configuration
// ---------------------------------------------------------------------------
/// Deduplication and outlier filter configuration.
#[derive(Debug, Clone, Copy)]
pub struct FilterConfig<N> {
    /// Dedup window in microseconds. Ticks with matching fingerprints within this
    /// window are considered duplicates.
    pub dedup_window_micros: i64,
    /// Price tolerance for cross-exchange dedup (USD).
    pub price_tolerance_usd: N,
    /// Quantity tolerance for cross-exchange dedup (BTC).
    pub qty_tolerance_btc: N,
    /// Spike multiplier: reject if `|price - median| > spike_k x volatility x price`.
    pub spike_k: N,
    /// Number of recent prices to use for the median.
    pub median_window: usize,
}

impl<N: Number> FilterConfig<N> {
    /// The default configuration.
    pub open spec fn standard() -> Self {
        FilterConfig {
            dedup_window_micros: 200_000,
            price_tolerance_usd: N::of_ratio(5, 100),
            qty_tolerance_btc: N::of_ratio(1, 1_000),
            spike_k: N::of_int(10),
            median_window: 20,
        }
    }
}

impl<N: Number> Default for FilterConfig<N> {
    fn default() -> (r: Self)
        ensures
            r == Self::standard(),
    {
        FilterConfig {
            dedup_window_micros: 200_000,
            price_tolerance_usd: N::ratio(5, 100),
            qty_tolerance_btc: N::ratio(1, 1_000),
            spike_k: N::from_int(10),
            median_window: 20,
        }
    }
}

// ---------------------------------------------------------------------------
// Duplicates
// ---------------------------------------------------------------------------
impl<N> Stamped for Tick<N> {
    open spec fn at(&self) -> i64 {
        self.ts_micros
    }

    fn stamp(&self) -> (r: i64) {
        self.ts_micros
    }
}

/// Two reports of one trade: the same ID on the same exchange.
pub open spec fn same_trade<N>(a: Tick<N>, b: Tick<N>) -> bool {
    a.exchange == b.exchange && a.trade_id@ == b.trade_id@
}

/// Near-duplicates: reports from different exchanges that agree in price and quantity
/// up to the tolerances and lie within one window of each other.
pub open spec fn near_duplicate<N: Number>(config: FilterConfig<N>, a: Tick<N>, b: Tick<N>) -> bool {
    &&& a.exchange != b.exchange
    &&& a.price.difference(b.price).magnitude().is_at_most(config.price_tolerance_usd)
    &&& a.quantity.difference(b.quantity).magnitude().is_at_most(config.qty_tolerance_btc)
    &&& -config.dedup_window_micros <= a.ts_micros - b.ts_micros <= config.dedup_window_micros
}

/// Does a remembered tick make this one a duplicate?
pub open spec fn repeats<N: Number>(config: FilterConfig<N>, seen: Seq<Tick<N>>, tick: Tick<N>) -> bool {
    exists|i: int|
        0 <= i < seen.len() && (same_trade(#[trigger] seen[i], tick) || near_duplicate(
            config,
            seen[i],
            tick,
        ))
}

// ---------------------------------------------------------------------------
// Median
// ---------------------------------------------------------------------------
/// A number put behind the last one of an arranged sequence that it is not below.
pub open spec fn inserted<N: Number>(arranged: Seq<N>, x: N) -> Seq<N>
    decreases arranged.len(),
{
    if arranged.len() == 0 || !x.is_below(arranged.last()) {
        arranged.push(x)
    } else {
        inserted(arranged.drop_last(), x).push(arranged.last())
    }
}

/// Some numbers in ascending order.
pub open spec fn arranged<N: Number>(xs: Seq<N>) -> Seq<N>
    decreases xs.len(),
{
    if xs.len() == 0 {
        xs
    } else {
        inserted(arranged(xs.drop_last()), xs.last())
    }
}

/// The middle number, or the mean of the two middle ones; 0 of no numbers.
pub open spec fn median_of<N: Number>(xs: Seq<N>) -> N {
    let sorted = arranged(xs);
    let mid = xs.len() as int / 2;
    if xs.len() == 0 {
        N::of_int(0)
    } else if xs.len() % 2 == 0 {
        sorted[mid - 1].sum(sorted[mid]).quotient(N::of_int(2))
    } else {
        sorted[mid]
    }
}

/// No number stands before a smaller one.
pub open spec fn ascending<N: Number>(xs: Seq<N>) -> bool {
    forall|i: int, j: int|
        0 <= i <= j < xs.len() ==> !(#[trigger] xs[j]).is_below(#[trigger] xs[i])
}

/// All of them take part in the order.
pub open spec fn all_numbers<N: Number>(xs: Seq<N>) -> bool {
    forall|i: int| 0 <= i < xs.len() ==> (#[trigger] xs[i]).is_number()
}

proof fn inserted_keeps_the_members<N: Number>(sorted: Seq<N>, x: N)
    ensures
        inserted(sorted, x).len() == sorted.len() + 1,
        inserted(sorted, x).to_multiset() == sorted.to_multiset().insert(x),
    decreases sorted.len(),
{
    broadcast use vstd::seq_lib::group_to_multiset_ensures;

    if sorted.len() > 0 && x.is_below(sorted.last()) {
        let rest = sorted.drop_last();
        inserted_keeps_the_members(rest, x);
        assert(sorted =~= rest.push(sorted.last()));
        assert(inserted(sorted, x).to_multiset() =~= sorted.to_multiset().insert(x));
    }
}

proof fn inserted_stays_ascending<N: Number>(sorted: Seq<N>, x: N)
    requires
        is_ordered::<N>(),
        x.is_number(),
        all_numbers(sorted),
        ascending(sorted),
    ensures
        ascending(inserted(sorted, x)),
        all_numbers(inserted(sorted, x)),
        forall|i: int|
            0 <= i <= sorted.len() ==> {
                ||| (#[trigger] inserted(sorted, x)[i]) == x
                ||| sorted.contains(inserted(sorted, x)[i])
            },
    decreases sorted.len(),
{
    inserted_keeps_the_members(sorted, x);
    let out = inserted(sorted, x);
    if sorted.len() > 0 && x.is_below(sorted.last()) {
        let rest = sorted.drop_last();
        assert forall|i: int| 0 <= i < rest.len() implies (#[trigger] rest[i]).is_number() by {
            assert(rest[i] == sorted[i]);
        }
        assert forall|i: int, j: int| 0 <= i <= j < rest.len() implies !(
        #[trigger] rest[j]).is_below(#[trigger] rest[i]) by {
            assert(rest[i] == sorted[i] && rest[j] == sorted[j]);
        }
        inserted_stays_ascending(rest, x);
        inserted_keeps_the_members(rest, x);
        let inner = inserted(rest, x);
        let last = sorted.last();
        assert(last == sorted[sorted.len() - 1]);
        assert forall|i: int| 0 <= i <= sorted.len() implies {
            ||| (#[trigger] out[i]) == x
            ||| sorted.contains(out[i])
        } by {
            if i < inner.len() {
                assert(out[i] == inner[i]);
                if inner[i] != x {
                    let k = choose|k: int| 0 <= k < rest.len() && rest[k] == inner[i];
                    assert(sorted[k] == inner[i]);
                }
            } else {
                assert(sorted[sorted.len() - 1] == out[i]);
            }
        }
        assert forall|i: int, j: int| 0 <= i <= j < out.len() implies !(
        #[trigger] out[j]).is_below(#[trigger] out[i]) by {
            if j < inner.len() {
                assert(out[i] == inner[i] && out[j] == inner[j]);
            } else if i < inner.len() {
                assert(out[i] == inner[i]);
                if inner[i] != x {
                    let k = choose|k: int| 0 <= k < rest.len() && rest[k] == inner[i];
                    assert(sorted[k] == inner[i]);
                }
            }
        }
        assert forall|i: int| 0 <= i < out.len() implies (#[trigger] out[i]).is_number() by {
            if out[i] != x {
                let k = choose|k: int| 0 <= k < sorted.len() && sorted[k] == out[i];
                assert(sorted[k].is_number());
            }
        }
    } else {
        assert(out =~= sorted.push(x));
        assert forall|i: int| 0 <= i <= sorted.len() implies {
            ||| (#[trigger] out[i]) == x
            ||| sorted.contains(out[i])
        } by {
            if i < sorted.len() {
                assert(sorted[i] == out[i]);
            }
        }
        assert forall|i: int, j: int| 0 <= i <= j < out.len() implies !(
        #[trigger] out[j]).is_below(#[trigger] out[i]) by {
            if j == sorted.len() && i < j {
                let last = sorted[sorted.len() - 1];
                assert(!last.is_below(sorted[i]));
                assert(!x.is_below(last));
                assert(last.is_number());
            }
        }
    }
}

/// Arranging changes nothing but the order, and leaves the numbers ascending; so the
/// median does not depend on how they were sorted.
pub proof fn arranged_is_a_sorted_permutation<N: Number>(xs: Seq<N>)
    requires
        is_ordered::<N>(),
        all_numbers(xs),
    ensures
        arranged(xs).len() == xs.len(),
        arranged(xs).to_multiset() == xs.to_multiset(),
        ascending(arranged(xs)),
        all_numbers(arranged(xs)),
    decreases xs.len(),
{
    broadcast use vstd::seq_lib::group_to_multiset_ensures;

    if xs.len() > 0 {
        let rest = xs.drop_last();
        assert forall|i: int| 0 <= i < rest.len() implies (#[trigger] rest[i]).is_number() by {
            assert(rest[i] == xs[i]);
        }
        assert(xs[xs.len() - 1].is_number());
        arranged_is_a_sorted_permutation(rest);
        inserted_keeps_the_members(arranged(rest), xs.last());
        inserted_stays_ascending(arranged(rest), xs.last());
        assert(xs =~= rest.push(xs.last()));
    }
}

fn insert_sorted<N: Number>(sorted: &mut Vec<N>, x: N)
    ensures
        final(sorted)@ == inserted(old(sorted)@, x),
        final(sorted)@.len() == old(sorted)@.len() + 1,
{
    proof {
        inserted_keeps_the_members(sorted@, x);
    }
    let ghost before = sorted@;
    let mut k: usize = sorted.len();
    assert(before.take(k as int) =~= before);
    assert(inserted(before, x) =~= inserted(before.take(k as int), x) + before.skip(k as int));
    while k > 0 && x.below(sorted[k - 1])
        invariant
            k <= before.len(),
            sorted@ == before,
            inserted(before, x) == inserted(before.take(k as int), x) + before.skip(k as int),
        decreases k,
    {
        assert(before.take(k as int).drop_last() =~= before.take(k - 1));
        assert(inserted(before, x) =~= inserted(before.take(k - 1), x) + before.skip(k - 1));
        k -= 1;
    }
    assert(inserted(before.take(k as int), x) =~= before.take(k as int).push(x));
    sorted.insert(k, x);
    assert(sorted@ =~= inserted(before, x));
}

// ---------------------------------------------------------------------------
// Filter state
// ---------------------------------------------------------------------------
/// What becomes of a tick.
#[derive(Debug, Clone, Copy, PartialEq, Eq, Structural)]
pub enum Verdict {
    Accepted,
    Duplicate,
    Outlier,
}

/// What a [`TickFilter`] remembers.
#[verifier::ext_equal]
pub struct FilterView<N> {
    pub config: FilterConfig<N>,
    /// The ticks inside the dedup window, oldest first.
    pub seen: Seq<Tick<N>>,
    /// The last accepted prices, oldest first.
    pub prices: Seq<N>,
    /// The volatility estimate.
    pub estimate: N,
    pub dedup_count: u64,
    pub outlier_count: u64,
}

/// A window of the last `limit` numbers after one more.
pub open spec fn slid<N>(window: Seq<N>, limit: nat, x: N) -> Seq<N> {
    let longer = window.push(x);
    if longer.len() > limit { longer.drop_first() } else { longer }
}

impl<N: Number> FilterView<N> {
    /// A filter that has seen nothing and has no volatility estimate.
    pub open spec fn start(config: FilterConfig<N>) -> Self {
        FilterView {
            config,
            seen: Seq::empty(),
            prices: Seq::empty(),
            estimate: N::of_int(0),
            dedup_count: 0,
            outlier_count: 0,
        }
    }

    /// What is still remembered when a tick comes in.
    pub open spec fn remembered(self, tick: Tick<N>) -> Seq<Tick<N>> {
        fresh_suffix(self.seen, tick.ts_micros - self.config.dedup_window_micros)
    }

    /// Is a price too far from the recent median?
    pub open spec fn is_spike(self, price: N) -> bool {
        &&& self.prices.len() > 0
        &&& N::of_int(0).is_below(self.estimate)
        &&& self.config.spike_k.product(self.estimate.product(price)).is_below(
            price.difference(median_of(self.prices)).magnitude(),
        )
    }

    /// What becomes of a tick.
    pub open spec fn verdict(self, tick: Tick<N>) -> Verdict {
        if repeats(self.config, self.remembered(tick), tick) {
            Verdict::Duplicate
        } else if self.is_spike(tick.price) {
            Verdict::Outlier
        } else {
            Verdict::Accepted
        }
    }

    /// What the filter remembers after a tick.
    pub open spec fn after(self, tick: Tick<N>) -> Self {
        match self.verdict(tick) {
            Verdict::Duplicate => FilterView {
                seen: self.remembered(tick),
                dedup_count: (self.dedup_count + 1) as u64,
                ..self
            },
            Verdict::Outlier => FilterView {
                seen: self.remembered(tick).push(tick),
                outlier_count: (self.outlier_count + 1) as u64,
                ..self
            },
            Verdict::Accepted => FilterView {
                seen: self.remembered(tick).push(tick),
                prices: slid(self.prices, self.config.median_window as nat, tick.price),
                ..self
            },
        }
    }
}

/// No trade is remembered twice.
pub open spec fn trades_distinct<N>(seen: Seq<Tick<N>>) -> bool {
    forall|i: int, j: int|
        0 <= i < j < seen.len() ==> !same_trade(#[trigger] seen[i], #[trigger] seen[j])
}

/// Whatever comes in, the filter never remembers one trade twice, and its price
/// window stays within its limit.
pub proof fn filter_invariant_is_kept<N: Number>(filter: FilterView<N>, tick: Tick<N>)
    requires
        trades_distinct(filter.seen),
        filter.prices.len() <= filter.config.median_window,
    ensures
        trades_distinct(filter.after(tick).seen),
        filter.after(tick).prices.len() <= filter.config.median_window,
{
    let cutoff = tick.ts_micros - filter.config.dedup_window_micros;
    eviction_drops_the_stale_front(filter.seen, cutoff);
    let k = stale_prefix(filter.seen, cutoff) as int;
    let fresh = filter.remembered(tick);
    assert forall|i: int, j: int| 0 <= i < j < fresh.len() implies !same_trade(
        #[trigger] fresh[i],
        #[trigger] fresh[j],
    ) by {
        assert(fresh[i] == filter.seen[i + k] && fresh[j] == filter.seen[j + k]);
    }
}

/// A tick that was let through is not let through again while it is remembered: a
/// second report of the same trade inside the window is a duplicate, whatever its
/// price.
pub proof fn second_report_is_a_duplicate<N: Number>(
    filter: FilterView<N>,
    first: Tick<N>,
    second: Tick<N>,
)
    requires
        filter.verdict(first) is Accepted,
        same_trade(first, second),
        second.ts_micros - filter.config.dedup_window_micros <= first.ts_micros,
    ensures
        filter.after(first).verdict(second) is Duplicate,
{
    let seen = filter.after(first).seen;
    let cutoff = second.ts_micros - filter.config.dedup_window_micros;
    eviction_drops_the_stale_front(seen, cutoff);
    let k = stale_prefix(seen, cutoff) as int;
    let fresh = filter.after(first).remembered(second);
    let n = seen.len();
    assert(seen[n - 1] == first);
    assert(k <= n - 1);
    assert(fresh[n - 1 - k] == first);
}

/// Across exchanges, a near-duplicate of a tick that was let through is dropped.
pub proof fn near_report_is_a_duplicate<N: Number>(
    filter: FilterView<N>,
    first: Tick<N>,
    second: Tick<N>,
)
    requires
        filter.verdict(first) is Accepted,
        near_duplicate(filter.config, first, second),
    ensures
        filter.after(first).verdict(second) is Duplicate,
{
    let seen = filter.after(first).seen;
    let cutoff = second.ts_micros - filter.config.dedup_window_micros;
    eviction_drops_the_stale_front(seen, cutoff);
    let k = stale_prefix(seen, cutoff) as int;
    let fresh = filter.after(first).remembered(second);
    let n = seen.len();
    assert(seen[n - 1] == first);
    assert(k <= n - 1);
    assert(fresh[n - 1 - k] == first);
}

/// Without a volatility estimate no tick is an outlier.
pub proof fn no_estimate_no_outliers<N: Number>(filter: FilterView<N>, tick: Tick<N>)
    requires
        is_ordered::<N>(),
        filter.estimate == N::of_int(0),
    ensures
        !(filter.verdict(tick) is Outlier),
{
}

/// What a [`TickFilter`] goes by.
#[derive(Debug)]
pub struct FilterMemory<N> {
    config: FilterConfig<N>,
    seen: VecDeque<Tick<N>>,
    price_window: VecDeque<N>,
    ewma_variance: N,
}

impl<N: Number> FilterMemory<N> {
    /// How the filter was set up.
    pub closed spec fn config(self) -> FilterConfig<N> {
        self.config
    }

    /// The ticks inside the dedup window, oldest first.
    pub closed spec fn seen(self) -> Seq<Tick<N>> {
        self.seen@
    }

    /// The last accepted prices, oldest first.
    pub closed spec fn prices(self) -> Seq<N> {
        self.price_window@
    }

    /// The volatility estimate.
    pub closed spec fn estimate(self) -> N {
        self.ewma_variance
    }
}

/// Stateful dedup + outlier filter.
///
/// Owned by the pipeline; updated synchronously on each tick.
#[derive(Debug)]
pub struct TickFilter<N> {
    /// What is remembered of earlier ticks.
    pub memory: FilterMemory<N>,
    /// Dedup counter.
    pub dedup_count: u64,
    /// Outlier counter.
    pub outlier_count: u64,
}

impl<N: Number> View for TickFilter<N> {
    type V = FilterView<N>;

    open spec fn view(&self) -> FilterView<N> {
        FilterView {
            config: self.memory.config(),
            seen: self.memory.seen(),
            prices: self.memory.prices(),
            estimate: self.memory.estimate(),
            dedup_count: self.dedup_count,
            outlier_count: self.outlier_count,
        }
    }
}

impl<N: Number> TickFilter<N> {
    /// A filter that has seen nothing and has no volatility estimate.
    pub fn new(config: FilterConfig<N>) -> (r: Self)
        ensures
            r@ == FilterView::start(config),
    {
        TickFilter {
            memory: FilterMemory {
                config,
                seen: VecDeque::new(),
                price_window: VecDeque::new(),
                ewma_variance: N::from_int(0),
            },
            dedup_count: 0,
            outlier_count: 0,
        }
    }

    /// Update the estimate from the feature state. It is used as it is, as a volatility:
    /// what it takes is a standard deviation per tick, 0 for none.
    pub fn set_ewma_variance(&mut self, v: N)
        ensures
            final(self)@ == (FilterView { estimate: v, ..old(self)@ }),
    {
        self.memory.ewma_variance = v;
    }

    /// Returns `true` if the tick should be **accepted**, `false` to drop it.
    ///
    /// Side-effects: updates internal dedup/outlier state.
    pub fn accept(&mut self, tick: &Tick<N>) -> (r: bool)
        requires
            i64::MIN <= tick.ts_micros - old(self)@.config.dedup_window_micros <= i64::MAX,
            old(self)@.dedup_count < u64::MAX,
            old(self)@.outlier_count < u64::MAX,
        ensures
            r == (old(self)@.verdict(*tick) is Accepted),
            final(self)@ == old(self)@.after(*tick),
    {
        self.judge(tick) == Verdict::Accepted
    }

    /// Decides what becomes of a tick, and remembers it.
    pub fn judge(&mut self, tick: &Tick<N>) -> (r: Verdict)
        requires
            i64::MIN <= tick.ts_micros - old(self)@.config.dedup_window_micros <= i64::MAX,
            old(self)@.dedup_count < u64::MAX,
            old(self)@.outlier_count < u64::MAX,
        ensures
            r == old(self)@.verdict(*tick),
            final(self)@ == old(self)@.after(*tick),
    {
        self.evict_expired(tick.ts_micros);
        if self.is_duplicate(tick) {
            self.dedup_count += 1;
            return Verdict::Duplicate;
        }
        self.memory.seen.push_back(tick.clone());
        if self.memory.price_window.len() > 0 && N::from_int(0).below(self.memory.ewma_variance) {
            let median = self.rolling_median();
            let sigma = self.memory.ewma_variance.mul(tick.price);
            let dev = tick.price.sub(median).abs();
            if self.memory.config.spike_k.mul(sigma).below(dev) {
                self.outlier_count += 1;
                return Verdict::Outlier;
            }
        }
        self.memory.price_window.push_back(tick.price);
        if self.memory.price_window.len() > self.memory.config.median_window {
            assert(self.memory.price_window@.subrange(1, self.memory.price_window@.len() as int)
                =~= self.memory.price_window@.drop_first());
            self.memory.price_window.pop_front();
        }
        Verdict::Accepted
    }

    fn evict_expired(&mut self, now: i64)
        requires
            i64::MIN <= now - old(self)@.config.dedup_window_micros <= i64::MAX,
        ensures
            final(self)@ == (FilterView {
                seen: fresh_suffix(old(self)@.seen, now - old(self)@.config.dedup_window_micros),
                ..old(self)@
            }),
    {
        let cutoff: i64 = now - self.memory.config.dedup_window_micros;
        drop_stale(&mut self.memory.seen, cutoff);
    }

    fn is_duplicate(&self, tick: &Tick<N>) -> (r: bool)
        ensures
            r == repeats(self@.config, self@.seen, *tick),
    {
        let mut i: usize = 0;
        while i < self.memory.seen.len()
            invariant
                i <= self.memory.seen@.len(),
                self@.seen == self.memory.seen@,
                self@.config == self.memory.config,
                forall|j: int|
                    0 <= j < i ==> !same_trade(#[trigger] self.memory.seen@[j], *tick) && !near_duplicate(
                        self.memory.config,
                        self.memory.seen@[j],
                        *tick,
                    ),
            decreases self.memory.seen@.len() - i,
        {
            let s = &self.memory.seen[i];
            if s.exchange == tick.exchange {
                if s.trade_id == tick.trade_id {
                    assert(same_trade(self.memory.seen@[i as int], *tick));
                    return true;
                }
            } else {
                let gap: i128 = s.ts_micros as i128 - tick.ts_micros as i128;
                let window: i128 = self.memory.config.dedup_window_micros as i128;
                if s.price.sub(tick.price).abs().at_most(self.memory.config.price_tolerance_usd)
                    && s.quantity.sub(tick.quantity).abs().at_most(self.memory.config.qty_tolerance_btc)
                    && -window <= gap && gap <= window {
                    assert(near_duplicate(self.memory.config, self.memory.seen@[i as int], *tick));
                    return true;
                }
            }
            i += 1;
        }
        false
    }

    fn rolling_median(&self) -> (r: N)
        ensures
            r == median_of(self@.prices),
    {
        let n: usize = self.memory.price_window.len();
        let mut sorted: Vec<N> = Vec::new();
        let mut i: usize = 0;
        let ghost xs = self.memory.price_window@;
        assert(arranged(xs.take(0)) =~= Seq::<N>::empty());
        while i < n
            invariant
                i <= n,
                n == self.memory.price_window@.len(),
                xs == self.memory.price_window@,
                sorted@ == arranged(xs.take(i as int)),
                sorted@.len() == i,
            decreases n - i,
        {
            assert(xs.take(i + 1).drop_last() =~= xs.take(i as int));
            insert_sorted(&mut sorted, self.memory.price_window[i]);
            i += 1;
        }
        assert(xs.take(n as int) =~= xs);
        if n == 0 {
            return N::from_int(0);
        }
        let mid: usize = n / 2;
        if n % 2 == 0 {
            sorted[mid - 1].add(sorted[mid]).div(N::from_int(2))
        } else {
            sorted[mid]
        }
    }
}

} // verus!
