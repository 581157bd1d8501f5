//! Capacity-bounded tick ring.

use vstd::prelude::*;
use crate::number::{is_ordered, Fixed, Number, UNITS};
use crate::types::{EngineError, EngineResult, Ohlcv, Tick, TradeSide};
use std::collections::VecDeque;

verus! {

/// Default ring capacity: about 28 hours at 15 ticks per second.
pub const DEFAULT_CAPACITY: usize = 1_500_000;

/// A ring after one more push: a full ring loses its oldest entry first.
pub open spec fn ring_pushed<T>(ring: Seq<T>, capacity: nat, entry: T) -> Seq<T> {
    if ring.len() == capacity && ring.len() > 0 {
        ring.drop_first().push(entry)
    } else {
        ring.push(entry)
    }
}

/// A ring after a run of pushes.
pub open spec fn ring_after<T>(ring: Seq<T>, capacity: nat, pushed: Seq<T>) -> Seq<T>
    decreases pushed.len(),
{
    if pushed.len() == 0 {
        ring
    } else {
        ring_pushed(ring_after(ring, capacity, pushed.drop_last()), capacity, pushed.last())
    }
}

/// A ring holds what was pushed last: the most recent entries, as many as its
/// capacity allows, oldest first.
pub proof fn ring_holds_the_most_recent<T>(capacity: nat, pushed: Seq<T>)
    requires
        capacity > 0,
    ensures
        ring_after(Seq::<T>::empty(), capacity, pushed) == pushed.skip(
            if pushed.len() > capacity { pushed.len() - capacity } else { 0 },
        ),
    decreases pushed.len(),
{
    let ring = ring_after(Seq::<T>::empty(), capacity, pushed);
    if pushed.len() == 0 {
        assert(ring =~= pushed.skip(0));
    } else {
        ring_holds_the_most_recent(capacity, pushed.drop_last());
        if pushed.len() > capacity {
            assert(ring =~= pushed.skip(pushed.len() - capacity));
        } else {
            assert(ring =~= pushed.skip(0));
        }
    }
}

/// A ring never grows past a positive capacity.
pub proof fn ring_stays_within_capacity<T>(ring: Seq<T>, capacity: nat, entry: T)
    requires
        0 < capacity,
        ring.len() <= capacity,
    ensures
        ring_pushed(ring, capacity, entry).len() <= capacity,
        ring_pushed(ring, capacity, entry).last() == entry,
{
}

/// Does a tick lie in a time range?
pub open spec fn tick_between<N>(start: i64, end: i64) -> spec_fn(Tick<N>) -> bool {
    |t: Tick<N>| start <= t.ts_micros <= end
}

/// Capacity-bounded ring of [`Tick`]s, oldest first.
#[derive(Debug)]
pub struct TickStore<N> {
    buf: VecDeque<Tick<N>>,
    capacity: usize,
}

impl<N: Number> View for TickStore<N> {
    type V = Seq<Tick<N>>;

    /// The ticks in the ring, oldest first.
    closed spec fn view(&self) -> Seq<Tick<N>> {
        self.buf@
    }
}

impl<N: Number> TickStore<N> {
    /// How many ticks the ring holds at most.
    pub closed spec fn capacity(self) -> nat {
        self.capacity as nat
    }

    /// An empty ring of the default capacity.
    pub fn new() -> (r: Self)
        ensures
            r@ == Seq::<Tick<N>>::empty(),
            r.capacity() == DEFAULT_CAPACITY,
    {
        Self::with_capacity(DEFAULT_CAPACITY)
    }

    /// An empty ring.
    pub fn with_capacity(capacity: usize) -> (r: Self)
        ensures
            r@ == Seq::<Tick<N>>::empty(),
            r.capacity() == capacity,
    {
        TickStore { buf: VecDeque::with_capacity(capacity), capacity }
    }

    /// Push a tick onto the ring. Called only from the engine hot-path.
    pub fn push(&mut self, tick: Tick<N>)
        ensures
            final(self)@ == ring_pushed(old(self)@, old(self).capacity(), tick),
            final(self).capacity() == old(self).capacity(),
    {
        if self.buf.len() == self.capacity {
            assert(self.buf@.len() > 0 ==> self.buf@.subrange(1, self.buf@.len() as int)
                =~= self.buf@.drop_first());
            self.buf.pop_front();
        }
        self.buf.push_back(tick);
    }

    /// Latest tick.
    pub fn latest(&self) -> (r: Option<Tick<N>>)
        ensures
            r == (if self@.len() == 0 { None } else { Some(self@.last()) }),
    {
        let n: usize = self.buf.len();
        if n == 0 {
            None
        } else {
            Some(self.buf[n - 1].clone())
        }
    }

    /// Current number of ticks in the ring.
    pub fn len(&self) -> (r: usize)
        ensures
            r == self@.len(),
    {
        self.buf.len()
    }

    pub fn is_empty(&self) -> (r: bool)
        ensures
            r == (self@.len() == 0),
    {
        self.buf.len() == 0
    }

    /// Oldest tick still in the ring.
    pub fn oldest(&self) -> (r: Option<Tick<N>>)
        ensures
            r == (if self@.len() == 0 { None } else { Some(self@[0]) }),
    {
        if self.buf.len() == 0 {
            None
        } else {
            Some(self.buf[0].clone())
        }
    }

    /// All ticks in `[start, end]` (inclusive), in ring order.
    pub fn range(&self, start: i64, end: i64) -> (r: Vec<Tick<N>>)
        ensures
            r@ == self@.filter(tick_between(start, end)),
    {
        let mut out: Vec<Tick<N>> = Vec::new();
        let mut i: usize = 0;
        let ghost keep = tick_between::<N>(start, end);
        reveal(Seq::filter);
        assert(self@.take(0).filter(keep) =~= Seq::<Tick<N>>::empty());
        while i < self.buf.len()
            invariant
                i <= self.buf@.len(),
                self@ == self.buf@,
                keep == tick_between::<N>(start, end),
                out@ == self@.take(i as int).filter(keep),
            decreases self.buf@.len() - i,
        {
            let t = &self.buf[i];
            proof {
                reveal(Seq::filter);
                assert(self@.take(i + 1).drop_last() =~= self@.take(i as int));
            }
            if t.ts_micros >= start && t.ts_micros <= end {
                out.push(t.clone());
            }
            i += 1;
        }
        assert(self@.take(self@.len() as int) =~= self@);
        out
    }

    /// Last `n` ticks, oldest-first.
    pub fn last_n(&self, n: usize) -> (r: Vec<Tick<N>>)
        ensures
            r@ == self@.skip(if self@.len() > n { self@.len() - n } else { 0 }),
    {
        let len: usize = self.buf.len();
        let skip: usize = if len > n { len - n } else { 0 };
        let mut out: Vec<Tick<N>> = Vec::new();
        let mut i: usize = skip;
        while i < len
            invariant
                skip <= i <= len,
                len == self.buf@.len(),
                self@ == self.buf@,
                out@ == self@.subrange(skip as int, i as int),
            decreases len - i,
        {
            out.push(self.buf[i].clone());
            i += 1;
            assert(out@ =~= self@.subrange(skip as int, i as int));
        }
        assert(self@.subrange(skip as int, len as int) =~= self@.skip(skip as int));
        out
    }

    /// All ticks since `since_micros` that are no later than the latest tick.
    pub fn since(&self, since_micros: i64) -> (r: EngineResult<Vec<Tick<N>>>)
        ensures
            match r {
                Ok(ticks) => self@.len() > 0 && ticks@ == self@.filter(
                    tick_between(since_micros, self@.last().ts_micros),
                ),
                Err(e) => self@.len() == 0 && e is EmptyBuffer,
            },
    {
        let n: usize = self.buf.len();
        if n == 0 {
            return Err(EngineError::EmptyBuffer);
        }
        Ok(self.range(since_micros, self.buf[n - 1].ts_micros))
    }

    /// All ticks in the last `secs` seconds (relative to the latest tick, not the
    /// wall clock).
    pub fn last_secs(&self, secs: i64) -> (r: EngineResult<Vec<Tick<N>>>)
        requires
            i64::MIN <= secs * 1_000_000 <= i64::MAX,
            self@.len() > 0 ==> i64::MIN <= self@.last().ts_micros - secs * 1_000_000
                <= i64::MAX,
        ensures
            match r {
                Ok(ticks) => self@.len() > 0 && ticks@ == self@.filter(
                    tick_between((self@.last().ts_micros - secs * 1_000_000) as i64, i64::MAX),
                ),
                Err(e) => self@.len() == 0 && e is EmptyBuffer,
            },
    {
        let n: usize = self.buf.len();
        if n == 0 {
            return Err(EngineError::EmptyBuffer);
        }
        let since: i64 = self.buf[n - 1].ts_micros - secs * 1_000_000;
        Ok(self.range(since, i64::MAX))
    }
}

impl<N: Number> Default for TickStore<N> {
    fn default() -> (r: Self)
        ensures
            r@ == Seq::<Tick<N>>::empty(),
            r.capacity() == DEFAULT_CAPACITY,
    {
        Self::new()
    }
}

// ---------------------------------------------------------------------------
// OHLCV builder
// ---------------------------------------------------------------------------
/// The highest price of some ticks.
pub open spec fn high_of<N: Number>(ticks: Seq<Tick<N>>) -> N
    decreases ticks.len(),
{
    if ticks.len() == 0 {
        N::bottom()
    } else {
        high_of(ticks.drop_last()).larger(ticks.last().price)
    }
}

/// The lowest price of some ticks.
pub open spec fn low_of<N: Number>(ticks: Seq<Tick<N>>) -> N
    decreases ticks.len(),
{
    if ticks.len() == 0 {
        N::top()
    } else {
        low_of(ticks.drop_last()).smaller(ticks.last().price)
    }
}

/// The quantity that some ticks traded.
pub open spec fn quantity_of<N: Number>(ticks: Seq<Tick<N>>) -> N
    decreases ticks.len(),
{
    if ticks.len() == 0 {
        N::of_int(0)
    } else {
        quantity_of(ticks.drop_last()).sum(ticks.last().quantity)
    }
}

/// The notional value that some ticks traded.
pub open spec fn notional_of<N: Number>(ticks: Seq<Tick<N>>) -> N
    decreases ticks.len(),
{
    if ticks.len() == 0 {
        N::of_int(0)
    } else {
        notional_of(ticks.drop_last()).sum(ticks.last().price.product(ticks.last().quantity))
    }
}

/// The quantity that takers bought in some ticks.
pub open spec fn bought_of<N: Number>(ticks: Seq<Tick<N>>) -> N
    decreases ticks.len(),
{
    if ticks.len() == 0 {
        N::of_int(0)
    } else if ticks.last().side == Some(TradeSide::Buy) {
        bought_of(ticks.drop_last()).sum(ticks.last().quantity)
    } else {
        bought_of(ticks.drop_last())
    }
}

/// Does any tick say who the taker was?
pub open spec fn any_side<N>(ticks: Seq<Tick<N>>) -> bool {
    exists|i: int| 0 <= i < ticks.len() && (#[trigger] ticks[i]).side is Some
}

/// The bar of a run of ticks.
pub open spec fn bar_of<N: Number>(ticks: Seq<Tick<N>>) -> Option<Ohlcv<N>> {
    let zero = N::of_int(0);
    let volume = quantity_of(ticks);
    if ticks.len() == 0 {
        None
    } else {
        Some(
            Ohlcv {
                open_ts: ticks[0].ts_micros,
                close_ts: ticks.last().ts_micros,
                open: ticks[0].price,
                high: high_of(ticks),
                low: low_of(ticks),
                close: ticks.last().price,
                volume,
                notional: notional_of(ticks),
                tick_count: ticks.len() as usize,
                vwap: if zero.is_below(volume) {
                    notional_of(ticks).quotient(volume)
                } else {
                    ticks[0].price
                },
                buy_ratio: if any_side(ticks) && zero.is_below(volume) {
                    Some(bought_of(ticks).quotient(volume))
                } else {
                    None
                },
            },
        )
    }
}

/// A bar's range covers every price in it: no tick trades above the high or below
/// the low, and neither do the open and the close.
pub proof fn bar_range_covers_its_prices<N: Number>(ticks: Seq<Tick<N>>)
    requires
        is_ordered::<N>(),
        forall|i: int| 0 <= i < ticks.len() ==> (#[trigger] ticks[i]).price.is_number(),
    ensures
        high_of(ticks).is_number(),
        low_of(ticks).is_number(),
        forall|i: int|
            0 <= i < ticks.len() ==> {
                &&& !high_of(ticks).is_below((#[trigger] ticks[i]).price)
                &&& !ticks[i].price.is_below(low_of(ticks))
            },
        bar_of(ticks) matches Some(bar) ==> {
            &&& !bar.high.is_below(bar.open)
            &&& !bar.high.is_below(bar.close)
            &&& !bar.open.is_below(bar.low)
            &&& !bar.close.is_below(bar.low)
        },
    decreases ticks.len(),
{
    if ticks.len() > 0 {
        let rest = ticks.drop_last();
        assert forall|i: int| 0 <= i < rest.len() implies (#[trigger] rest[i]).price.is_number() by {
            assert(rest[i] == ticks[i]);
        }
        bar_range_covers_its_prices(rest);
        let (high, low) = (high_of(rest), low_of(rest));
        assert(ticks[ticks.len() - 1].price.is_number());
        assert forall|i: int| 0 <= i < ticks.len() implies {
            &&& !high_of(ticks).is_below((#[trigger] ticks[i]).price)
            &&& !ticks[i].price.is_below(low_of(ticks))
        } by {
            if i < rest.len() {
                assert(ticks[i] == rest[i]);
                assert(rest[i].price.is_number());
                if high_of(ticks).is_below(ticks[i].price) {
                    assert(high_of(ticks).is_below(high) || high.is_below(ticks[i].price));
                }
                if ticks[i].price.is_below(low_of(ticks)) {
                    assert(ticks[i].price.is_below(low) || low.is_below(low_of(ticks)));
                }
            }
        }
        assert(ticks[0].price.is_number());
    }
}

// ---------------------------------------------------------------------------
// The average price of exact decimals
// ---------------------------------------------------------------------------
/// Trades in exact decimals: no negative price, and some quantity each.
pub open spec fn are_trades(ticks: Seq<Tick<Fixed>>) -> bool {
    forall|i: int|
        0 <= i < ticks.len() ==> (#[trigger] ticks[i]).price.units >= 0 && ticks[i].quantity.units > 0
}

/// Trades of whole quantities.
pub open spec fn are_whole_lots(ticks: Seq<Tick<Fixed>>) -> bool {
    forall|i: int| 0 <= i < ticks.len() ==> (#[trigger] ticks[i]).quantity.units as int % UNITS as int == 0
}

/// The quantity of some trades, in units.
pub open spec fn quantity_units(ticks: Seq<Tick<Fixed>>) -> int
    decreases ticks.len(),
{
    if ticks.len() == 0 {
        0
    } else {
        quantity_units(ticks.drop_last()) + ticks.last().quantity.units
    }
}

/// Price times quantity of some trades, in squared units: what nothing has been dropped of.
pub open spec fn value_units(ticks: Seq<Tick<Fixed>>) -> int
    decreases ticks.len(),
{
    if ticks.len() == 0 {
        0
    } else {
        value_units(ticks.drop_last()) + ticks.last().price.units * ticks.last().quantity.units
    }
}

/// What the totals of some trades are: the quantity is exact, and of the notional value
/// less than a unit is dropped for each trade, and nothing where the lots are whole. The
/// trades' values lie between those at their lowest and at their highest price.
proof fn totals_of_trades(ticks: Seq<Tick<Fixed>>)
    requires
        ticks.len() > 0,
        are_trades(ticks),
        quantity_units(ticks) <= i64::MAX,
        value_units(ticks) <= i64::MAX * UNITS,
    ensures
        quantity_of(ticks).units == quantity_units(ticks),
        quantity_units(ticks) > 0,
        value_units(ticks) - ticks.len() * UNITS <= notional_of(ticks).units * UNITS
            <= value_units(ticks),
        are_whole_lots(ticks) ==> notional_of(ticks).units * UNITS == value_units(ticks),
        low_of(ticks).units * quantity_units(ticks) <= value_units(ticks),
        value_units(ticks) <= high_of(ticks).units * quantity_units(ticks),
    decreases ticks.len(),
{
    let rest = ticks.drop_last();
    let last = ticks.last();
    let (p, q, u) = (last.price.units as int, last.quantity.units as int, UNITS as int);
    assert(ticks[ticks.len() - 1] == last);
    assert forall|i: int| 0 <= i < rest.len() implies (#[trigger] rest[i]).price.units >= 0
        && rest[i].quantity.units > 0 by {
        assert(rest[i] == ticks[i]);
    }
    assert(are_whole_lots(ticks) ==> are_whole_lots(rest)) by {
        if are_whole_lots(ticks) {
            assert forall|i: int| 0 <= i < rest.len() implies (
            #[trigger] rest[i]).quantity.units as int % UNITS as int == 0 by {
                assert(rest[i] == ticks[i]);
            }
        }
    }
    assert(p * q >= 0) by (nonlinear_arith)
        requires
            p >= 0,
            q > 0,
    ;
    let kept = (p * q) / u;
    assert(0 <= kept && p * q - u < kept * u <= p * q) by (nonlinear_arith)
        requires
            p * q >= 0,
            u > 0,
            kept == (p * q) / u,
    ;
    if q % u == 0 {
        let lots = q / u;
        assert(q == lots * u) by (nonlinear_arith)
            requires
                q % u == 0,
                lots == q / u,
                u > 0,
        ;
        let whole = p * lots;
        assert(p * q == whole * u) by (nonlinear_arith)
            requires
                q == lots * u,
                whole == p * lots,
        ;
        assert((whole * u) / u == whole);
    }
    if rest.len() == 0 {
        assert(value_units(rest) == 0 && quantity_units(rest) == 0);
        assert(low_of(rest) == Fixed::top() && high_of(rest) == Fixed::bottom());
        assert(notional_of(rest).units == 0 && quantity_of(rest).units == 0);
        assert(low_of(ticks).units == p && high_of(ticks).units == p);
    } else {
        values_are_not_negative(rest);
        totals_of_trades(rest);
        let (lo, hi) = (low_of(rest).units as int, high_of(rest).units as int);
        let (lo2, hi2) = (low_of(ticks).units as int, high_of(ticks).units as int);
        let (v, w) = (quantity_units(rest), value_units(rest));
        assert(lo2 * (v + q) <= w + p * q) by (nonlinear_arith)
            requires
                lo2 <= lo,
                lo2 <= p,
                lo * v <= w,
                v > 0,
                q > 0,
        ;
        assert(w + p * q <= hi2 * (v + q)) by (nonlinear_arith)
            requires
                hi2 >= hi,
                hi2 >= p,
                w <= hi * v,
                v > 0,
                q > 0,
        ;
    }
    let n = notional_of(rest).units as int;
    assert(n + kept <= i64::MAX) by (nonlinear_arith)
        requires
            n * u + kept * u <= i64::MAX * u,
            u > 0,
    ;
    assert(n >= 0) by {
        notional_is_not_negative(rest);
    }
    assert((n + kept) * u == n * u + kept * u) by (nonlinear_arith);
    assert(ticks.len() * u == rest.len() * u + u) by (nonlinear_arith)
        requires
            ticks.len() == rest.len() + 1,
    ;
}

proof fn notional_is_not_negative(ticks: Seq<Tick<Fixed>>)
    requires
        are_trades(ticks),
    ensures
        notional_of(ticks).units >= 0,
    decreases ticks.len(),
{
    if ticks.len() > 0 {
        let (rest, last) = (ticks.drop_last(), ticks.last());
        assert(ticks[ticks.len() - 1] == last);
        assert forall|i: int| 0 <= i < rest.len() implies (#[trigger] rest[i]).price.units >= 0
            && rest[i].quantity.units > 0 by {
            assert(rest[i] == ticks[i]);
        }
        notional_is_not_negative(rest);
        let (p, q) = (last.price.units as int, last.quantity.units as int);
        assert(p * q >= 0) by (nonlinear_arith)
            requires
                p >= 0,
                q > 0,
        ;
    }
}

proof fn values_are_not_negative(ticks: Seq<Tick<Fixed>>)
    requires
        are_trades(ticks),
    ensures
        value_units(ticks) >= 0,
        quantity_units(ticks) >= 0,
    decreases ticks.len(),
{
    if ticks.len() > 0 {
        let (rest, last) = (ticks.drop_last(), ticks.last());
        assert(ticks[ticks.len() - 1] == last);
        assert forall|i: int| 0 <= i < rest.len() implies (#[trigger] rest[i]).price.units >= 0
            && rest[i].quantity.units > 0 by {
            assert(rest[i] == ticks[i]);
        }
        values_are_not_negative(rest);
        let (p, q) = (last.price.units as int, last.quantity.units as int);
        assert(p * q >= 0) by (nonlinear_arith)
            requires
                p >= 0,
                q > 0,
        ;
    }
}

/// The average price of some trades lies between their lowest and their highest price.
/// It never lies above; below the lowest price it lies by less than a unit and what was
/// dropped of the trades' values, a unit each, spread over the quantity. With whole lots,
/// where nothing is dropped, it does not lie below either.
pub proof fn average_price_lies_in_the_range(ticks: Seq<Tick<Fixed>>)
    requires
        ticks.len() > 0,
        are_trades(ticks),
        quantity_units(ticks) <= i64::MAX,
        value_units(ticks) <= i64::MAX * UNITS,
    ensures
        ({
            let average = notional_of(ticks).quotient(quantity_of(ticks)).units;
            let volume = quantity_of(ticks).units;
            &&& volume > 0
            &&& average <= high_of(ticks).units
            &&& (low_of(ticks).units - average - 1) * volume <= ticks.len() * UNITS
            &&& are_whole_lots(ticks) ==> low_of(ticks).units <= average
        }),
{
    totals_of_trades(ticks);
    notional_is_not_negative(ticks);
    let (n, v, u) = (notional_of(ticks).units as int, quantity_of(ticks).units as int, UNITS as int);
    let (lo, hi) = (low_of(ticks).units as int, high_of(ticks).units as int);
    let w = value_units(ticks);
    let a = (n * u) / v;
    assert(0 <= n * u && 0 <= a && n * u - v < a * v <= n * u) by (nonlinear_arith)
        requires
            n >= 0,
            v > 0,
            u > 0,
            a == (n * u) / v,
    ;
    assert(a <= hi) by (nonlinear_arith)
        requires
            a * v <= n * u,
            n * u <= w,
            w <= hi * v,
            v > 0,
    ;
    assert(notional_of(ticks).quotient(quantity_of(ticks)).units == a);
    let k = ticks.len() * u;
    assert((lo - a - 1) * v <= k) by (nonlinear_arith)
        requires
            n * u - v < a * v,
            w - k <= n * u,
            lo * v <= w,
            v > 0,
    ;
    if are_whole_lots(ticks) {
        assert(lo <= a) by (nonlinear_arith)
            requires
                n * u - v < a * v,
                n * u == w,
                lo * v <= w,
                v > 0,
        ;
    }
}

/// A bar's average price lies between its low and its high, up to what exact decimals
/// drop, and exactly so with whole lots.
pub proof fn bar_average_lies_in_its_range(ticks: Seq<Tick<Fixed>>)
    requires
        ticks.len() > 0,
        are_trades(ticks),
        quantity_units(ticks) <= i64::MAX,
        value_units(ticks) <= i64::MAX * UNITS,
    ensures
        bar_of(ticks) matches Some(bar) && {
            &&& bar.vwap.units <= bar.high.units
            &&& (bar.low.units - bar.vwap.units - 1) * bar.volume.units <= ticks.len() * UNITS
            &&& are_whole_lots(ticks) ==> bar.low.units <= bar.vwap.units
        },
{
    average_price_lies_in_the_range(ticks);
}

/// Build an [`Ohlcv`] bar from a tick slice. Returns `None` for empty slices.
pub fn ohlcv_from_ticks<N: Number>(ticks: &[Tick<N>]) -> (r: Option<Ohlcv<N>>)
    ensures
        r == bar_of(ticks@),
{
    let n: usize = ticks.len();
    if n == 0 {
        return None;
    }
    let open = ticks[0].price;
    let zero = N::from_int(0);
    let mut high = N::lowest();
    let mut low = N::highest();
    let mut volume = zero;
    let mut notional = zero;
    let mut buy_vol = zero;
    let mut has_side: bool = false;
    let mut i: usize = 0;
    while i < n
        invariant
            i <= n,
            n == ticks@.len(),
            high == high_of(ticks@.take(i as int)),
            low == low_of(ticks@.take(i as int)),
            volume == quantity_of(ticks@.take(i as int)),
            notional == notional_of(ticks@.take(i as int)),
            buy_vol == bought_of(ticks@.take(i as int)),
            has_side == exists|j: int| 0 <= j < i && (#[trigger] ticks@[j]).side is Some,
        decreases n - i,
    {
        let t = &ticks[i];
        assert(ticks@.take(i + 1).drop_last() =~= ticks@.take(i as int));
        assert(ticks@.take(i + 1).last() == ticks@[i as int]);
        high = high.max(t.price);
        low = low.min(t.price);
        volume = volume.add(t.quantity);
        notional = notional.add(t.price.mul(t.quantity));
        match t.side {
            Some(TradeSide::Buy) => {
                buy_vol = buy_vol.add(t.quantity);
                has_side = true;
            },
            Some(TradeSide::Sell) => {
                has_side = true;
            },
            None => {},
        }
        i += 1;
    }
    assert(ticks@.take(n as int) =~= ticks@);
    let traded = zero.below(volume);
    let vwap = if traded {
        notional.div(volume)
    } else {
        open
    };
    let buy_ratio = if has_side && traded {
        Some(buy_vol.div(volume))
    } else {
        None
    };
    Some(
        Ohlcv {
            open_ts: ticks[0].ts_micros,
            close_ts: ticks[n - 1].ts_micros,
            open,
            high,
            low,
            close: ticks[n - 1].price,
            volume,
            notional,
            tick_count: n,
            vwap,
            buy_ratio,
        },
    )
}

} // verus!
