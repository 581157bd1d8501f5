//! Cross-exchange price fusion with NTP drift correction.
//!
//! Each tick's timestamp is corrected for the drift of its exchange's clock, the
//! ticks are grouped into buckets of 100 ms by the corrected time, and each bucket is
//! fused into one volume-weighted price.
//!
//! # NTP drift correction
//!
//! The offset sample of a tick is the local wall clock minus the exchange's
//! timestamp, clamped to a plausible range. Samples enter an exponentially weighted
//! average with a small weight, and the corrected time is the exchange's timestamp
//! plus that average, rounded. The correction only decides which bucket a tick falls
//! into; stored ticks keep the timestamps they came with.
//!
//! # Bucket flush policy
//!
//! One bucket is open at a time. It is flushed when a tick arrives whose corrected
//! timestamp lies in another bucket, or when it has reached its maximum age on the
//! local monotonic clock (which guards against one exchange going silent).
//!
//! # Minimum participation
//!
//! If only one exchange reports in a bucket, that exchange's prices are used alone;
//! [`FusedTick::exchange_count`] tells how many sources contributed.

use vstd::prelude::*;
use crate::number::{
    greatest, is_between, is_ordered, least, rounds_within, settles, towards_zero, Fixed, Number,
    UNITS,
};
use crate::span::Span;
use crate::types::tick_store::{
    any_side, are_trades, are_whole_lots, average_price_lies_in_the_range, bought_of, high_of,
    low_of, notional_of, quantity_of, quantity_units, value_units,
};
use crate::types::{Exchange, PerExchange, Symbol, Tick, TradeSide};

verus! {

// ---------------------------------------------------------------------------
// Configuration
// ---------------------------------------------------------------------------
/// Configuration for the price fusion stage.
#[derive(Debug, Clone, Copy)]
pub struct FusionConfig<N> {
    /// Bucket width in microseconds.
    pub bucket_width_micros: i64,
    /// Maximum age of an open bucket before it is force-flushed.
    pub max_bucket_age: Span,
    /// NTP drift smoothing factor between 0 and 1. Lower = slower adaptation.
    pub ntp_alpha: N,
    /// Maximum plausible offset correction in microseconds. Samples outside this
    /// range are clamped before they enter the average.
    pub max_offset_micros: i64,
}

impl<N: Number> FusionConfig<N> {
    /// The default configuration.
    pub open spec fn standard() -> Self {
        FusionConfig {
            bucket_width_micros: 100_000,
            max_bucket_age: Span { secs: 0, nanos: 150_000_000 },
            ntp_alpha: N::of_ratio(5, 100),
            max_offset_micros: 500_000,
        }
    }
}

impl<N: Number> Default for FusionConfig<N> {
    fn default() -> (r: Self)
        ensures
            r == Self::standard(),
    {
        FusionConfig {
            bucket_width_micros: 100_000,
            max_bucket_age: Span { secs: 0, nanos: 150_000_000 },
            ntp_alpha: N::ratio(5, 100),
            max_offset_micros: 500_000,
        }
    }
}

impl<N> FusionConfig<N> {
    /// There are buckets, and the range of offsets is not empty.
    pub open spec fn valid(self) -> bool {
        self.bucket_width_micros != 0 && self.max_offset_micros >= 0
    }
}

// ---------------------------------------------------------------------------
// Fused tick
// ---------------------------------------------------------------------------
/// A single canonical BTC/USD price fused from all exchanges in a bucket.
///
/// This is what the feature engineering stage receives: one per bucket rather than
/// one per raw exchange tick.
#[derive(Debug, Clone, Copy)]
pub struct FusedTick<N> {
    /// Bucket centre timestamp (microseconds, corrected for NTP drift).
    pub ts_micros: i64,
    /// Volume-weighted average price across all contributing exchanges (USD).
    pub price: N,
    /// Total BTC volume across all contributing exchanges in this bucket.
    pub volume: N,
    /// Total USD notional across all contributing exchanges.
    pub notional: N,
    /// Aggregated buy volume fraction, or `None` if no side data.
    pub buy_ratio: Option<N>,
    /// Number of distinct exchanges that contributed to this bucket.
    pub exchange_count: u8,
    /// Number of raw ticks that contributed to this bucket.
    pub tick_count: u32,
    /// Per-exchange last price in this bucket (for spread computation).
    pub exchange_prices: PerExchange<N>,
    /// Max - min price across contributing exchanges (USD spread).
    pub cross_exchange_spread: N,
    /// Symbol (always `BtcUsd` in this version).
    pub symbol: Symbol,
}

/// A spread as a fraction of a price; 0 where there is no price.
pub open spec fn spread_fraction<N: Number>(spread: N, price: N) -> N {
    if N::of_int(0).is_below(price) { spread.quotient(price) } else { N::of_int(0) }
}

impl<N: Number> FusedTick<N> {
    /// Price spread as a fraction of the fused price.
    pub fn spread_pct(&self) -> (r: N)
        ensures
            r == spread_fraction(self.cross_exchange_spread, self.price),
    {
        let zero = N::from_int(0);
        if zero.below(self.price) {
            self.cross_exchange_spread.div(self.price)
        } else {
            zero
        }
    }
}

// ---------------------------------------------------------------------------
// NTP drift corrector
// ---------------------------------------------------------------------------
/// An offset sample, held within `max_abs` of zero.
pub open spec fn offset_sample(local_wall: int, exchange_ts: int, max_abs: int) -> int {
    let raw = local_wall - exchange_ts;
    if raw < -max_abs {
        -max_abs
    } else if raw > max_abs {
        max_abs
    } else {
        raw
    }
}

/// The smoothed offset after one more sample; the first sample starts it.
pub open spec fn smoothed<N: Number>(offset: Option<N>, alpha: N, sample: int) -> N {
    let target = N::of_int(sample);
    let from = match offset {
        Some(o) => o,
        None => target,
    };
    from.sum(alpha.product(target.difference(from)))
}

/// A sum, where an `i64` holds it.
pub open spec fn representable(x: int) -> Option<i64> {
    if i64::MIN <= x <= i64::MAX { Some(x as i64) } else { None }
}

/// Per-exchange smoothed offset tracker.
///
/// Maintains one smoothed offset (local wall clock - exchange timestamp) per
/// exchange.
#[derive(Debug)]
pub struct NtpCorrector<N> {
    offsets: PerExchange<N>,
    alpha: N,
    max_abs: i64,
}

impl<N: Number> NtpCorrector<N> {
    /// The smoothed offset of an exchange, if it has been heard of.
    pub closed spec fn offset(self, exchange: Exchange) -> Option<N> {
        self.offsets.entry(exchange)
    }

    /// The smoothing factor.
    pub closed spec fn alpha(self) -> N {
        self.alpha
    }

    /// The largest offset that a sample may have.
    pub closed spec fn max_abs(self) -> i64 {
        self.max_abs
    }

    /// The offset of the tick's exchange once the tick has been sampled.
    pub open spec fn offset_after(self, tick: Tick<N>, local_wall: i64) -> N {
        smoothed(
            self.offset(tick.exchange),
            self.alpha(),
            offset_sample(local_wall as int, tick.ts_micros as int, self.max_abs() as int),
        )
    }

    pub fn new(alpha: N, max_offset_micros: i64) -> (r: Self)
        ensures
            r.alpha() == alpha,
            r.max_abs() == max_offset_micros,
            forall|e: Exchange| #[trigger] r.offset(e) is None,
    {
        NtpCorrector { offsets: PerExchange::new(), alpha, max_abs: max_offset_micros }
    }

    /// Update the smoothed offset for this exchange and return the corrected time;
    /// `None` if that is not a representable time.
    pub fn correct(&mut self, tick: &Tick<N>, local_wall: i64) -> (r: Option<i64>)
        requires
            old(self).max_abs() >= 0,
        ensures
            has_corrected(*old(self), *tick, local_wall, *final(self), r),
    {
        let raw: i128 = local_wall as i128 - tick.ts_micros as i128;
        let max_abs: i128 = self.max_abs as i128;
        let clamped: i128 = if raw < -max_abs {
            -max_abs
        } else if raw > max_abs {
            max_abs
        } else {
            raw
        };
        let target = N::from_int(clamped);
        let from = match self.offsets.get(tick.exchange) {
            Some(o) => o,
            None => target,
        };
        let offset = from.add(self.alpha.mul(target.sub(from)));
        self.offsets.insert(tick.exchange, offset);
        tick.ts_micros.checked_add(offset.round())
    }

    /// Current offset estimate for an exchange in microseconds, if it has been seen.
    pub fn estimate(&self, exchange: Exchange) -> (r: Option<i64>)
        ensures
            r == whole_offset(self.offset(exchange)),
    {
        match self.offsets.get(exchange) {
            Some(o) => Some(o.trunc()),
            None => None,
        }
    }

    /// Current offset estimate for an exchange in microseconds, or 0 if unseen.
    pub fn offset_micros(&self, exchange: Exchange) -> (r: i64)
        ensures
            r == (match whole_offset(self.offset(exchange)) {
                Some(o) => o,
                None => 0,
            }),
    {
        match self.estimate(exchange) {
            Some(o) => o,
            None => 0,
        }
    }
}

/// A smoothed offset that, in whole microseconds, does not exceed a limit.
pub open spec fn offset_within<N: Number>(offset: N, max_abs: int) -> bool {
    &&& offset.is_number()
    &&& -max_abs <= offset.rounded() <= max_abs
}

/// A smoothed offset never leaves the range that its samples are clamped to, with a
/// smoothing factor between 0 and 1; the first sample is taken as it is. So it is for
/// every limit up to which the number type settles on whole numbers.
pub proof fn offset_stays_within_the_limit<N: Number>(
    offset: Option<N>,
    alpha: N,
    sample: int,
    max_abs: int,
    range: int,
)
    requires
        is_ordered::<N>(),
        settles::<N>(range),
        0 <= max_abs <= range,
        -max_abs <= sample <= max_abs,
        alpha.is_number(),
        is_between(N::of_int(0), alpha, N::of_int(1)),
        offset matches Some(o) ==> offset_within(o, max_abs),
    ensures
        offset_within(smoothed(offset, alpha, sample), max_abs),
        -max_abs <= smoothed(offset, alpha, sample).truncated() <= max_abs,
        offset is None ==> smoothed(offset, alpha, sample).rounded() == sample,
{
    let target = N::of_int(sample);
    let from = match offset {
        Some(o) => o,
        None => target,
    };
    assert(rounds_within(from, range));
    let to = from.sum(alpha.product(N::of_int(sample).difference(from)));
    assert(to == smoothed(offset, alpha, sample));
    assert(!target.is_below(from) || !from.is_below(target));
    assert(0 <= to.truncated() <= to.rounded() || to.rounded() <= to.truncated() <= 0);
}

/// A steady offset stays: where the samples do not change, neither does the smoothed
/// offset, in whole microseconds.
pub proof fn steady_offset_stays<N: Number>(offset: Option<N>, alpha: N, sample: int, range: int)
    requires
        is_ordered::<N>(),
        settles::<N>(range),
        -range <= sample <= range,
        alpha.is_number(),
        is_between(N::of_int(0), alpha, N::of_int(1)),
        offset matches Some(o) ==> o.is_number() && o.rounded() == sample,
    ensures
        smoothed(offset, alpha, sample).is_number(),
        smoothed(offset, alpha, sample).rounded() == sample,
{
    let target = N::of_int(sample);
    let from = match offset {
        Some(o) => o,
        None => target,
    };
    assert(rounds_within(from, range));
    let to = from.sum(alpha.product(N::of_int(sample).difference(from)));
    assert(to == smoothed(offset, alpha, sample));
    assert(!target.is_below(from) || !from.is_below(target));
}

impl<N: Number> NtpCorrector<N> {
    /// Every offset is within the limit, and the limit within a range.
    pub open spec fn within_limit(self, range: int) -> bool {
        &&& 0 <= self.max_abs() <= range
        &&& self.alpha().is_number()
        &&& is_between(N::of_int(0), self.alpha(), N::of_int(1))
        &&& forall|e: Exchange|
            #[trigger] self.offset(e) matches Some(o) ==> offset_within(o, self.max_abs() as int)
    }
}

/// A corrector that has sampled a tick: the offset of the tick's exchange is smoothed,
/// and nothing else changes.
pub open spec fn has_sampled<N: Number>(
    before: NtpCorrector<N>,
    tick: Tick<N>,
    local_wall: i64,
    after: NtpCorrector<N>,
) -> bool {
    &&& after.alpha() == before.alpha()
    &&& after.max_abs() == before.max_abs()
    &&& after.offset(tick.exchange) == Some(before.offset_after(tick, local_wall))
    &&& forall|e: Exchange|
        e != tick.exchange ==> #[trigger] after.offset(e) == before.offset(e)
}

/// A corrector that has sampled a tick, and the corrected time.
pub open spec fn has_corrected<N: Number>(
    before: NtpCorrector<N>,
    tick: Tick<N>,
    local_wall: i64,
    after: NtpCorrector<N>,
    r: Option<i64>,
) -> bool {
    &&& has_sampled(before, tick, local_wall, after)
    &&& r == representable(tick.ts_micros + before.offset_after(tick, local_wall).rounded())
}

/// A correction stays within the limit: no tick is moved by more, no estimate exceeds
/// it, and the other exchanges' estimates stay as they are. The first tick of an
/// exchange is moved by its clamped offset.
pub proof fn correction_stays_within_the_limit<N: Number>(
    before: NtpCorrector<N>,
    tick: Tick<N>,
    local_wall: i64,
    after: NtpCorrector<N>,
    r: Option<i64>,
    range: int,
)
    requires
        is_ordered::<N>(),
        settles::<N>(range),
        before.within_limit(range),
        has_corrected(before, tick, local_wall, after, r),
    ensures
        after.within_limit(range),
        r matches Some(t) ==> -before.max_abs() <= t - tick.ts_micros <= before.max_abs(),
        whole_offset(after.offset(tick.exchange)) matches Some(o) ==> -before.max_abs() <= o
            <= before.max_abs(),
        forall|e: Exchange|
            e != tick.exchange ==> #[trigger] whole_offset(after.offset(e)) == whole_offset(
                before.offset(e),
            ),
        r matches Some(t) ==> before.offset(tick.exchange) is None ==> t == tick.ts_micros
            + offset_sample(local_wall as int, tick.ts_micros as int, before.max_abs() as int),
{
    let sample = offset_sample(
        local_wall as int,
        tick.ts_micros as int,
        before.max_abs() as int,
    );
    let old_offset = before.offset(tick.exchange);
    offset_stays_within_the_limit(
        old_offset,
        before.alpha(),
        sample,
        before.max_abs() as int,
        range,
    );
    assert forall|e: Exchange| #[trigger] after.offset(e) matches Some(o) implies offset_within(
        after.offset(e)->0,
        after.max_abs() as int,
    ) by {
        if e != tick.exchange {
            assert(after.offset(e) == before.offset(e));
        }
    }
}

/// Through any run of corrections, a corrector that starts without offsets keeps every
/// offset, and moves every tick, within the limit.
pub proof fn corrections_stay_within_the_limit<N: Number>(
    states: Seq<NtpCorrector<N>>,
    ticks: Seq<Tick<N>>,
    walls: Seq<i64>,
    results: Seq<Option<i64>>,
    range: int,
    n: int,
)
    requires
        is_ordered::<N>(),
        settles::<N>(range),
        0 <= n < states.len(),
        states.len() == ticks.len() + 1,
        walls.len() == ticks.len(),
        results.len() == ticks.len(),
        0 <= states[0].max_abs() <= range,
        states[0].alpha().is_number(),
        is_between(N::of_int(0), states[0].alpha(), N::of_int(1)),
        forall|e: Exchange| #[trigger] states[0].offset(e) is None,
        forall|i: int|
            0 <= i < ticks.len() ==> has_corrected(
                states[i],
                #[trigger] ticks[i],
                walls[i],
                states[i + 1],
                results[i],
            ),
    ensures
        states[n].within_limit(range),
        states[n].max_abs() == states[0].max_abs(),
        forall|i: int|
            #![trigger results[i]]
            0 <= i < n ==> (results[i] matches Some(t) ==> -states[0].max_abs() <= t
                - ticks[i].ts_micros <= states[0].max_abs()),
    decreases n,
{
    if n > 0 {
        corrections_stay_within_the_limit(states, ticks, walls, results, range, n - 1);
        let i = n - 1;
        assert(has_corrected(states[i], ticks[i], walls[i], states[i + 1], results[i]));
        correction_stays_within_the_limit(
            states[i],
            ticks[i],
            walls[i],
            states[i + 1],
            results[i],
            range,
        );
    }
}

// ---------------------------------------------------------------------------
// Bucket accumulator
// ---------------------------------------------------------------------------
/// The last price that an exchange reported among some ticks.
pub open spec fn last_price<N>(ticks: Seq<Tick<N>>, exchange: Exchange) -> Option<N>
    decreases ticks.len(),
{
    if ticks.len() == 0 {
        None
    } else if ticks.last().exchange == exchange {
        Some(ticks.last().price)
    } else {
        last_price(ticks.drop_last(), exchange)
    }
}

/// The distance from the least to the greatest of some prices; 0 of fewer than two.
pub open spec fn spread_of<N: Number>(prices: Seq<N>) -> N {
    if prices.len() > 1 {
        greatest(prices).difference(least(prices))
    } else {
        N::of_int(0)
    }
}

/// The middle of a bucket.
pub open spec fn bucket_centre(id: int, width: int) -> int {
    id * width + towards_zero(width, 2)
}

/// `fused` is what a bucket's ticks amount to.
pub open spec fn fuses<N: Number>(ticks: Seq<Tick<N>>, centre: int, fused: FusedTick<N>) -> bool {
    let volume = quantity_of(ticks);
    let traded = N::of_int(0).is_below(volume);
    &&& fused.ts_micros == centre
    &&& fused.price == (if traded { notional_of(ticks).quotient(volume) } else { N::of_int(0) })
    &&& fused.volume == volume
    &&& fused.notional == notional_of(ticks)
    &&& fused.buy_ratio == (if any_side(ticks) && traded {
        Some(bought_of(ticks).quotient(volume))
    } else {
        None
    })
    &&& fused.tick_count == ticks.len()
    &&& forall|e: Exchange| #[trigger]
        fused.exchange_prices.entry(e) == last_price(ticks, e)
    &&& fused.exchange_count == fused.exchange_prices.entries().len()
    &&& fused.cross_exchange_spread == spread_of(fused.exchange_prices.entries())
    &&& fused.symbol == Symbol::BtcUsd
}

/// Accumulates ticks within a single bucket.
pub struct Bucket<N> {
    bucket_id: i64,
    opened_at: i64,
    pv_sum: N,
    vol_sum: N,
    buy_vol: N,
    has_side: bool,
    tick_count: u32,
    exchange_prices: PerExchange<N>,
    ticks: Ghost<Seq<Tick<N>>>,
}

/// What a [`Bucket`] holds.
#[verifier::ext_equal]
pub struct BucketView<N> {
    pub id: i64,
    /// When the bucket was opened, in nanoseconds of the monotonic clock.
    pub opened_at: i64,
    /// The ticks in the bucket, in order of arrival.
    pub ticks: Seq<Tick<N>>,
}

impl<N: Number> View for Bucket<N> {
    type V = BucketView<N>;

    closed spec fn view(&self) -> BucketView<N> {
        BucketView { id: self.bucket_id, opened_at: self.opened_at, ticks: self.ticks@ }
    }
}

impl<N: Number> Bucket<N> {
    /// The running sums are those of the ticks.
    pub closed spec fn wf(self) -> bool {
        let ticks = self.ticks@;
        &&& self.pv_sum == notional_of(ticks)
        &&& self.vol_sum == quantity_of(ticks)
        &&& self.buy_vol == bought_of(ticks)
        &&& self.has_side == any_side(ticks)
        &&& self.tick_count == ticks.len()
        &&& forall|e: Exchange| #[trigger]
            self.exchange_prices.entry(e) == last_price(ticks, e)
    }

    /// An empty bucket, opened now.
    pub fn new(bucket_id: i64, now: i64) -> (r: Self)
        ensures
            r.wf(),
            r@ == (BucketView { id: bucket_id, opened_at: now, ticks: Seq::<Tick<N>>::empty() }),
    {
        let zero = N::from_int(0);
        Bucket {
            bucket_id,
            opened_at: now,
            pv_sum: zero,
            vol_sum: zero,
            buy_vol: zero,
            has_side: false,
            tick_count: 0,
            exchange_prices: PerExchange::new(),
            ticks: Ghost(Seq::empty()),
        }
    }

    /// Which bucket this is.
    pub fn id(&self) -> (r: i64)
        ensures
            r == self@.id,
    {
        self.bucket_id
    }

    /// Counts a tick in.
    pub fn add(&mut self, tick: &Tick<N>)
        requires
            old(self).wf(),
            old(self)@.ticks.len() < u32::MAX,
        ensures
            final(self).wf(),
            final(self)@ == (BucketView { ticks: old(self)@.ticks.push(*tick), ..old(self)@ }),
    {
        let ghost before = self.ticks@;
        let pv = tick.price.mul(tick.quantity);
        self.pv_sum = self.pv_sum.add(pv);
        self.vol_sum = self.vol_sum.add(tick.quantity);
        self.tick_count += 1;
        self.exchange_prices.insert(tick.exchange, tick.price);
        match tick.side {
            Some(TradeSide::Buy) => {
                self.buy_vol = self.buy_vol.add(tick.quantity);
                self.has_side = true;
            },
            Some(TradeSide::Sell) => {
                self.has_side = true;
            },
            None => {},
        }
        self.ticks = Ghost(before.push(*tick));
        proof {
            let after = before.push(*tick);
            assert(after.drop_last() =~= before);
            assert(any_side(after) == (any_side(before) || tick.side is Some)) by {
                if any_side(before) {
                    let i = choose|i: int| 0 <= i < before.len() && (#[trigger] before[i]).side is Some;
                    assert(after[i].side is Some);
                }
                if any_side(after) {
                    let i = choose|i: int| 0 <= i < after.len() && (#[trigger] after[i]).side is Some;
                    assert(i < before.len() ==> before[i].side is Some);
                }
                if tick.side is Some {
                    assert(after[before.len() as int].side is Some);
                }
            }
        }
    }

    /// What the bucket's ticks amount to.
    pub fn flush(&self, bucket_width_micros: i64) -> (r: FusedTick<N>)
        requires
            self.wf(),
            i64::MIN <= self@.id * bucket_width_micros <= i64::MAX,
            i64::MIN <= bucket_centre(self@.id as int, bucket_width_micros as int) <= i64::MAX,
        ensures
            fuses(
                self@.ticks,
                bucket_centre(self@.id as int, bucket_width_micros as int),
                r,
            ),
    {
        let zero = N::from_int(0);
        let traded = zero.below(self.vol_sum);
        let price = if traded {
            self.pv_sum.div(self.vol_sum)
        } else {
            zero
        };
        let buy_ratio = if self.has_side && traded {
            Some(self.buy_vol.div(self.vol_sum))
        } else {
            None
        };
        let prices = self.exchange_prices.values();
        let half: i64 = match bucket_width_micros.checked_div(2) {
            Some(h) => h,
            None => 0,
        };
        let ts_micros: i64 = self.bucket_id * bucket_width_micros + half;
        FusedTick {
            ts_micros,
            price,
            volume: self.vol_sum,
            notional: self.pv_sum,
            buy_ratio,
            exchange_count: self.exchange_prices.len() as u8,
            tick_count: self.tick_count,
            exchange_prices: self.exchange_prices,
            cross_exchange_spread: price_spread(&prices),
            symbol: Symbol::BtcUsd,
        }
    }

    /// How long the bucket has been open, in nanoseconds.
    pub fn age(&self, now: i64) -> (r: u64)
        ensures
            r == (if now > self@.opened_at { now - self@.opened_at } else { 0 }),
    {
        if now > self.opened_at {
            (now as i128 - self.opened_at as i128) as u64
        } else {
            0
        }
    }

    /// How many ticks the bucket holds.
    pub fn len(&self) -> (r: u32)
        requires
            self.wf(),
        ensures
            r == self@.ticks.len(),
    {
        self.tick_count
    }

    pub fn is_empty(&self) -> (r: bool)
        requires
            self.wf(),
        ensures
            r == (self@.ticks.len() == 0),
    {
        self.tick_count == 0
    }
}

fn price_spread<N: Number>(prices: &Vec<N>) -> (r: N)
    ensures
        r == spread_of(prices@),
{
    if prices.len() <= 1 {
        return N::from_int(0);
    }
    let mut lo = N::highest();
    let mut hi = N::lowest();
    let mut i: usize = 0;
    while i < prices.len()
        invariant
            i <= prices.len(),
            lo == least(prices@.take(i as int)),
            hi == greatest(prices@.take(i as int)),
        decreases prices.len() - i,
    {
        assert(prices@.take(i + 1).drop_last() =~= prices@.take(i as int));
        lo = lo.min(prices[i]);
        hi = hi.max(prices[i]);
        i += 1;
    }
    assert(prices@.take(prices@.len() as int) =~= prices@);
    hi.sub(lo)
}

/// A lone tick's price is used directly: with exact decimals and a whole quantity, where
/// nothing is rounded, a bucket of one tick has that tick's price.
pub proof fn lone_tick_sets_the_price(tick: Tick<Fixed>, lots: int, centre: int, fused: FusedTick<Fixed>)
    requires
        lots > 0,
        tick.quantity.units == lots * UNITS,
        tick.price.units >= 0,
        tick.price.units * lots <= i64::MAX,
        fuses(seq![tick], centre, fused),
    ensures
        fused.price == tick.price,
        fused.exchange_count == 1,
{
    let ticks = seq![tick];
    let (p, u) = (tick.price.units as int, UNITS as int);
    reveal_with_fuel(quantity_of, 2);
    reveal_with_fuel(notional_of, 2);
    assert(ticks.drop_last() =~= Seq::empty());
    let q = lots * u;
    assert(p * q == (p * lots) * u && p * q >= 0) by (nonlinear_arith)
        requires
            q == lots * u,
            p >= 0,
            lots > 0,
            u == 100_000_000,
    ;
    assert((p * q) / u == p * lots) by (nonlinear_arith)
        requires
            p * q == (p * lots) * u,
            u == 100_000_000,
    ;
    assert(notional_of(ticks).units == p * lots);
    assert(((p * lots) * u) / q == p) by (nonlinear_arith)
        requires
            p * q == (p * lots) * u,
            q > 0,
    ;
    assert forall|e: Exchange| #[trigger] fused.exchange_prices.entry(e) == (if e == tick.exchange {
        Some(tick.price)
    } else {
        None
    }) by {
        reveal_with_fuel(last_price, 2);
    }
}

/// A bucket's price lies between the lowest and the highest price of its ticks, up to
/// what exact decimals drop, and exactly so with whole lots.
pub proof fn bucket_price_lies_in_the_range(
    ticks: Seq<Tick<Fixed>>,
    centre: int,
    fused: FusedTick<Fixed>,
)
    requires
        ticks.len() > 0,
        are_trades(ticks),
        quantity_units(ticks) <= i64::MAX,
        value_units(ticks) <= i64::MAX * UNITS,
        fuses(ticks, centre, fused),
    ensures
        fused.price.units <= high_of(ticks).units,
        (low_of(ticks).units - fused.price.units - 1) * fused.volume.units <= ticks.len() * UNITS,
        are_whole_lots(ticks) ==> low_of(ticks).units <= fused.price.units,
{
    average_price_lies_in_the_range(ticks);
}

/// A bucket's price is taken from at least one exchange and at most four, and an
/// exchange is counted exactly when one of its ticks is in the bucket.
pub proof fn exchange_count_counts_the_sources<N: Number>(
    ticks: Seq<Tick<N>>,
    centre: int,
    fused: FusedTick<N>,
)
    requires
        ticks.len() > 0,
        fuses(ticks, centre, fused),
    ensures
        1 <= fused.exchange_count <= 4,
        forall|e: Exchange| #[trigger]
            fused.exchange_prices.entry(e) is Some <==> exists|i: int|
                0 <= i < ticks.len() && (#[trigger] ticks[i]).exchange == e,
{
    assert forall|e: Exchange| #[trigger]
        fused.exchange_prices.entry(e) is Some <==> exists|i: int|
            0 <= i < ticks.len() && (#[trigger] ticks[i]).exchange == e by {
        last_price_of_a_source(ticks, e);
    }
    let e = ticks.last().exchange;
    assert(fused.exchange_prices.entry(e) is Some);
}

proof fn last_price_of_a_source<N>(ticks: Seq<Tick<N>>, exchange: Exchange)
    ensures
        last_price(ticks, exchange) is Some <==> exists|i: int|
            0 <= i < ticks.len() && (#[trigger] ticks[i]).exchange == exchange,
    decreases ticks.len(),
{
    if ticks.len() > 0 {
        let rest = ticks.drop_last();
        last_price_of_a_source(rest, exchange);
        if last_price(rest, exchange) is Some {
            let i = choose|i: int| 0 <= i < rest.len() && (#[trigger] rest[i]).exchange == exchange;
            assert(ticks[i].exchange == exchange);
        }
        if exists|i: int| 0 <= i < ticks.len() && (#[trigger] ticks[i]).exchange == exchange {
            let i = choose|i: int| 0 <= i < ticks.len() && (#[trigger] ticks[i]).exchange == exchange;
            assert(i < rest.len() ==> rest[i].exchange == exchange);
        }
        assert(ticks[ticks.len() - 1] == ticks.last());
    }
}

// ---------------------------------------------------------------------------
// Price fuser
// ---------------------------------------------------------------------------
/// The bucket that a time falls into; `None` if the bucket's start or centre is not a
/// representable time.
pub open spec fn bucket_of(ts: int, width: int) -> Option<i64> {
    let id = ts / width;
    if i64::MIN <= id <= i64::MAX && i64::MIN <= id * width <= i64::MAX && i64::MIN
        <= bucket_centre(id, width) <= i64::MAX {
        Some(id as i64)
    } else {
        None
    }
}

/// A time lies in its bucket: at or after the start, and less than a width after it.
pub proof fn bucket_covers_its_times(ts: int, width: int)
    requires
        width > 0,
        bucket_of(ts, width) is Some,
    ensures
        bucket_of(ts, width)->0 * width <= ts < bucket_of(ts, width)->0 * width + width,
        -width <= bucket_centre(bucket_of(ts, width)->0 as int, width) - ts <= width,
{
    let id = ts / width;
    assert(id * width <= ts < id * width + width) by (nonlinear_arith)
        requires
            width > 0,
            id == ts / width,
    ;
}

/// Times that are at least a width apart lie in different buckets.
pub proof fn distant_times_have_different_buckets(a: int, b: int, width: int)
    requires
        width > 0,
        b - a >= width,
    ensures
        a / width < b / width,
{
    let (i, j) = (a / width, b / width);
    assert(i < j) by (nonlinear_arith)
        requires
            width > 0,
            b - a >= width,
            i == a / width,
            j == b / width,
    ;
}

fn place(ts: i64, width: i64) -> (r: Option<i64>)
    requires
        width != 0,
    ensures
        r == bucket_of(ts as int, width as int),
{
    let half: i64 = match width.checked_div(2) {
        Some(h) => h,
        None => 0,
    };
    let id: i64 = match ts.checked_div_euclid(width) {
        Some(id) => id,
        None => return None,
    };
    let start: i64 = match id.checked_mul(width) {
        Some(start) => start,
        None => return None,
    };
    match start.checked_add(half) {
        Some(_) => Some(id),
        None => None,
    }
}

/// The fusion stage: groups clean ticks into buckets by corrected time and hands out
/// each bucket, fused, when it closes.
///
/// The caller supplies the clocks: the local wall clock in microseconds and a
/// monotonic clock in nanoseconds.
pub struct PriceFuser<N> {
    config: FusionConfig<N>,
    corrector: NtpCorrector<N>,
    current: Option<Bucket<N>>,
}

/// What an optional bucket holds.
pub open spec fn bucket_view<N: Number>(bucket: Option<Bucket<N>>) -> Option<BucketView<N>> {
    match bucket {
        Some(b) => Some(b@),
        None => None,
    }
}

/// The ticks of the open bucket.
pub open spec fn open_ticks<N>(open: Option<BucketView<N>>) -> Seq<Tick<N>> {
    match open {
        Some(b) => b.ticks,
        None => Seq::empty(),
    }
}

/// Where a tick goes: the open bucket and the bucket that closes, if any.
pub open spec fn routed<N>(
    open: Option<BucketView<N>>,
    place: Option<i64>,
    tick: Tick<N>,
    now: i64,
) -> (Option<BucketView<N>>, Option<BucketView<N>>) {
    match place {
        None => (open, None),
        Some(id) => {
            let fresh = BucketView { id, opened_at: now, ticks: seq![tick] };
            match open {
                Some(b) => if b.id == id {
                    (Some(BucketView { ticks: b.ticks.push(tick), ..b }), None)
                } else {
                    (Some(fresh), Some(b))
                },
                None => (Some(fresh), None),
            }
        },
    }
}

/// The open bucket, and the bucket that closes, when the flush timer fires.
pub open spec fn timed_out<N>(open: Option<BucketView<N>>, now: i64, max_age: nat) -> (
    Option<BucketView<N>>,
    Option<BucketView<N>>,
) {
    match open {
        Some(b) => if now - b.opened_at >= max_age || max_age == 0 {
            (None, Some(b))
        } else {
            (open, None)
        },
        None => (None, None),
    }
}

/// No tick is lost or counted twice: the ticks of the bucket that closes and of the
/// one that stays open are the ticks that were open and, if it has a place, the new
/// one, in order.
pub proof fn fusion_keeps_every_tick<N>(
    open: Option<BucketView<N>>,
    place: Option<i64>,
    tick: Tick<N>,
    now: i64,
    max_age: nat,
)
    ensures
        ({
            let (after, closed) = routed(open, place, tick, now);
            open_ticks(closed) + open_ticks(after) == (if place is Some {
                open_ticks(open).push(tick)
            } else {
                open_ticks(open)
            })
        }),
        ({
            let (after, closed) = timed_out(open, now, max_age);
            open_ticks(closed) + open_ticks(after) == open_ticks(open)
        }),
{
    let (after, closed) = routed(open, place, tick, now);
    let all = open_ticks(closed) + open_ticks(after);
    assert(place is Some ==> all =~= open_ticks(open).push(tick));
    assert(place is None ==> all =~= open_ticks(open));
    let (after2, closed2) = timed_out(open, now, max_age);
    assert(open_ticks(closed2) + open_ticks(after2) =~= open_ticks(open));
}

/// `fused` is what the closing bucket amounts to, where one closes.
pub open spec fn emits<N: Number>(
    closed: Option<BucketView<N>>,
    width: int,
    fused: Option<FusedTick<N>>,
) -> bool {
    match closed {
        Some(b) => fused is Some && fuses(b.ticks, bucket_centre(b.id as int, width), fused->0),
        None => fused is None,
    }
}

impl<N: Number> PriceFuser<N> {
    /// How the stage was set up.
    pub closed spec fn config(self) -> FusionConfig<N> {
        self.config
    }

    /// The clock offsets.
    pub closed spec fn corrector(self) -> NtpCorrector<N> {
        self.corrector
    }

    /// The open bucket.
    pub closed spec fn open(self) -> Option<BucketView<N>> {
        bucket_view(self.current)
    }

    /// An open bucket is never empty, and its centre is a representable time.
    pub closed spec fn wf(self) -> bool {
        &&& self.config.valid()
        &&& self.corrector.max_abs() == self.config.max_offset_micros
        &&& self.corrector.alpha() == self.config.ntp_alpha
        &&& self.current matches Some(b) ==> {
            let width = self.config.bucket_width_micros as int;
            &&& b.wf()
            &&& b@.ticks.len() > 0
            &&& i64::MIN <= b@.id * width <= i64::MAX
            &&& i64::MIN <= bucket_centre(b@.id as int, width) <= i64::MAX
        }
    }

    /// No bucket is open, and no exchange has been heard of.
    pub open spec fn is_new(self, config: FusionConfig<N>) -> bool {
        &&& self.config() == config
        &&& self.open() is None
        &&& self.corrector().alpha() == config.ntp_alpha
        &&& self.corrector().max_abs() == config.max_offset_micros
        &&& forall|e: Exchange| #[trigger] self.corrector().offset(e) is None
    }

    /// The bucket that a tick belongs to.
    pub open spec fn place_of(self, tick: Tick<N>, local_wall: i64) -> Option<i64> {
        match representable(
            tick.ts_micros + self.corrector().offset_after(tick, local_wall).rounded(),
        ) {
            Some(ts) => bucket_of(ts as int, self.config().bucket_width_micros as int),
            None => None,
        }
    }

    pub fn new(config: FusionConfig<N>) -> (r: Self)
        requires
            config.valid(),
        ensures
            r.wf(),
            r.is_new(config),
    {
        PriceFuser {
            config,
            corrector: NtpCorrector::new(config.ntp_alpha, config.max_offset_micros),
            current: None,
        }
    }

    /// Takes a tick in, and hands out the open bucket if the tick closes it. A tick
    /// whose corrected time has no representable bucket only counts as a clock sample.
    pub fn on_tick(&mut self, tick: &Tick<N>, local_wall: i64, now: i64) -> (r: Option<
        FusedTick<N>,
    >)
        requires
            old(self).wf(),
            open_ticks(old(self).open()).len() < u32::MAX,
        ensures
            final(self).wf(),
            final(self).config() == old(self).config(),
            has_sampled(old(self).corrector(), *tick, local_wall, final(self).corrector()),
            ({
                let (after, closed) = routed(
                    old(self).open(),
                    old(self).place_of(*tick, local_wall),
                    *tick,
                    now,
                );
                &&& final(self).open() == after
                &&& emits(closed, old(self).config().bucket_width_micros as int, r)
            }),
    {
        let width: i64 = self.config.bucket_width_micros;
        let corrected: i64 = match self.corrector.correct(tick, local_wall) {
            Some(ts) => ts,
            None => return None,
        };
        let id: i64 = match place(corrected, width) {
            Some(id) => id,
            None => return None,
        };
        let mut out: Option<FusedTick<N>> = None;
        let bucket = match self.current.take() {
            Some(open) => if open.id() == id {
                let mut open = open;
                open.add(tick);
                open
            } else {
                out = Some(open.flush(width));
                let mut fresh = Bucket::new(id, now);
                fresh.add(tick);
                assert(fresh@.ticks =~= seq![*tick]);
                fresh
            },
            None => {
                let mut fresh = Bucket::new(id, now);
                fresh.add(tick);
                assert(fresh@.ticks =~= seq![*tick]);
                fresh
            },
        };
        self.current = Some(bucket);
        out
    }

    /// Hands out the open bucket if it has reached its maximum age.
    pub fn on_timer(&mut self, now: i64) -> (r: Option<FusedTick<N>>)
        requires
            old(self).wf(),
        ensures
            final(self).wf(),
            final(self).config() == old(self).config(),
            final(self).corrector() == old(self).corrector(),
            ({
                let (after, closed) = timed_out(
                    old(self).open(),
                    now,
                    old(self).config().max_bucket_age.total(),
                );
                &&& final(self).open() == after
                &&& emits(closed, old(self).config().bucket_width_micros as int, r)
            }),
    {
        let due = match &self.current {
            Some(b) => b.age(now) as u128 >= self.config.max_bucket_age.as_nanos(),
            None => false,
        };
        if due {
            self.on_close()
        } else {
            None
        }
    }

    /// Hands out the open bucket, whatever its age.
    pub fn on_close(&mut self) -> (r: Option<FusedTick<N>>)
        requires
            old(self).wf(),
        ensures
            final(self).wf(),
            final(self).config() == old(self).config(),
            final(self).corrector() == old(self).corrector(),
            final(self).open() is None,
            emits(old(self).open(), old(self).config().bucket_width_micros as int, r),
    {
        match self.current.take() {
            Some(b) => Some(b.flush(self.config.bucket_width_micros)),
            None => None,
        }
    }

    /// How many ticks the open bucket holds.
    pub fn open_len(&self) -> (r: u32)
        requires
            self.wf(),
        ensures
            r == open_ticks(self.open()).len(),
    {
        match &self.current {
            Some(b) => b.len(),
            None => 0,
        }
    }

    /// Snapshot of the current offset estimates.
    pub fn ntp_offsets(&self) -> (r: NtpOffsets)
        ensures
            r.binance == whole_offset(self.corrector().offset(Exchange::Binance)),
            r.coinbase == whole_offset(self.corrector().offset(Exchange::Coinbase)),
            r.kraken == whole_offset(self.corrector().offset(Exchange::Kraken)),
            r.bitstamp == whole_offset(self.corrector().offset(Exchange::Bitstamp)),
    {
        NtpOffsets {
            binance: self.corrector.estimate(Exchange::Binance),
            coinbase: self.corrector.estimate(Exchange::Coinbase),
            kraken: self.corrector.estimate(Exchange::Kraken),
            bitstamp: self.corrector.estimate(Exchange::Bitstamp),
        }
    }
}

// ---------------------------------------------------------------------------
// NTP offset inspection
// ---------------------------------------------------------------------------
/// Snapshot of current NTP offset estimates in microseconds, for diagnostics; `None`
/// for an exchange that has not been heard of.
#[derive(Debug, Clone, Copy, PartialEq, Eq, Structural)]
pub struct NtpOffsets {
    pub binance: Option<i64>,
    pub coinbase: Option<i64>,
    pub kraken: Option<i64>,
    pub bitstamp: Option<i64>,
}

/// An offset in whole microseconds.
pub open spec fn whole_offset<N: Number>(offset: Option<N>) -> Option<i64> {
    match offset {
        Some(o) => Some(o.truncated()),
        None => None,
    }
}

} // verus!
