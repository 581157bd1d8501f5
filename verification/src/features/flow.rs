//! Rolling VWAP and order-flow imbalance.

use vstd::prelude::*;
use crate::features::running::{first_total, second_total, RunningSums, SumsView};
use crate::number::{is_between, is_monotone, not_negative, Number};
use crate::types::{Tick, TradeSide};
use crate::window::{eviction_drops_the_stale_front, stale_prefix};

verus! {

// ---------------------------------------------------------------------------
// Rolling VWAP
// ---------------------------------------------------------------------------
/// The average price of a window of (price x volume, volume).
pub open spec fn vwap_of<N: Number>(flow: SumsView<N>) -> Option<N> {
    if N::of_int(0).is_below(flow.second) {
        Some(flow.first.quotient(flow.second))
    } else {
        None
    }
}

/// The distance of a price from the average, as a fraction of the price, in units of
/// a reference volatility.
pub open spec fn vwap_deviation_of<N: Number>(flow: SumsView<N>, price: N, vol_ref: N) -> Option<
    N,
> {
    let zero = N::of_int(0);
    match vwap_of(flow) {
        None => None,
        Some(vwap) => if vwap.is_same(zero) || vol_ref.is_same(zero) {
            None
        } else {
            Some(price.difference(vwap).quotient(vol_ref.product(price)))
        },
    }
}

/// Rolling volume-weighted average price over a fixed time window.
#[derive(Debug)]
pub struct RollingVwap<N> {
    flow: RunningSums<N>,
}

impl<N: Number> View for RollingVwap<N> {
    type V = SumsView<N>;

    /// The window of (time, price x volume, volume) with its totals.
    closed spec fn view(&self) -> SumsView<N> {
        self.flow@
    }
}

impl<N: Number> RollingVwap<N> {
    /// No trade yet, and a window of `window_secs` seconds.
    pub fn new(window_secs: i64) -> (r: Self)
        requires
            i64::MIN <= window_secs * 1_000_000 <= i64::MAX,
        ensures
            r@ == SumsView::<N>::empty(window_secs * 1_000_000),
    {
        RollingVwap { flow: RunningSums::new(window_secs) }
    }

    /// Records a volume traded at a price.
    pub fn update(&mut self, ts: i64, price: N, volume: N)
        requires
            i64::MIN <= ts - old(self)@.window <= i64::MAX,
        ensures
            final(self)@ == old(self)@.updated(ts, price.product(volume), volume),
    {
        self.flow.update(ts, price.mul(volume), volume);
    }

    /// The window's average price; `None` without volume.
    pub fn vwap(&self) -> (r: Option<N>)
        ensures
            r == vwap_of(self@),
    {
        let volume = self.flow.second();
        if N::from_int(0).below(volume) {
            Some(self.flow.first().div(volume))
        } else {
            None
        }
    }

    /// VWAP deviation normalised by an external volatility estimate:
    /// (price - vwap) / (vol_ref x price), a dimensionless z-score.
    pub fn deviation_z(&self, price: N, vol_ref: N) -> (r: Option<N>)
        ensures
            r == vwap_deviation_of(self@, price, vol_ref),
    {
        let zero = N::from_int(0);
        match self.vwap() {
            None => None,
            Some(vwap) => if vwap.same(zero) || vol_ref.same(zero) {
                None
            } else {
                Some(price.sub(vwap).div(vol_ref.mul(price)))
            },
        }
    }
}

/// Price x volume and volume since the start of a session.
#[derive(Debug, Clone, Copy)]
pub struct SessionVwap<N> {
    pub pv_sum: N,
    pub vol_sum: N,
}

impl<N: Number> SessionVwap<N> {
    /// Nothing traded yet.
    pub open spec fn start() -> Self {
        SessionVwap { pv_sum: N::of_int(0), vol_sum: N::of_int(0) }
    }

    /// After a volume traded at a price.
    pub open spec fn with(self, price: N, volume: N) -> Self {
        SessionVwap {
            pv_sum: self.pv_sum.sum(price.product(volume)),
            vol_sum: self.vol_sum.sum(volume),
        }
    }

    /// The distance of a price from the session's average, as a fraction of the
    /// average.
    pub open spec fn deviation_of(self, price: N) -> Option<N> {
        let zero = N::of_int(0);
        let vwap = self.pv_sum.quotient(self.vol_sum);
        if !zero.is_below(self.vol_sum) || vwap.is_same(zero) {
            None
        } else {
            Some(price.difference(vwap).quotient(vwap))
        }
    }

    pub fn new() -> (r: Self)
        ensures
            r == Self::start(),
    {
        SessionVwap { pv_sum: N::from_int(0), vol_sum: N::from_int(0) }
    }

    /// Records a volume traded at a price.
    pub fn update(&mut self, price: N, volume: N)
        ensures
            *final(self) == old(self).with(price, volume),
    {
        self.pv_sum = self.pv_sum.add(price.mul(volume));
        self.vol_sum = self.vol_sum.add(volume);
    }

    /// (price - session VWAP) / session VWAP.
    pub fn deviation(&self, price: N) -> (r: Option<N>)
        ensures
            r == self.deviation_of(price),
    {
        let zero = N::from_int(0);
        if !zero.below(self.vol_sum) {
            return None;
        }
        let vwap = self.pv_sum.div(self.vol_sum);
        if vwap.same(zero) {
            None
        } else {
            Some(price.sub(vwap).div(vwap))
        }
    }
}

// ---------------------------------------------------------------------------
// Order flow imbalance
// ---------------------------------------------------------------------------
/// The volume bought and sold in a window.
pub open spec fn flow_total<N: Number>(flow: SumsView<N>) -> N {
    flow.first.sum(flow.second)
}

/// (buy - sell) / (buy + sell); 0 without volume.
pub open spec fn flow_imbalance<N: Number>(flow: SumsView<N>) -> N {
    if flow_total(flow).is_same(N::of_int(0)) {
        N::of_int(0)
    } else {
        flow.first.difference(flow.second).quotient(flow_total(flow))
    }
}

/// buy / (buy + sell); one half without volume.
pub open spec fn flow_buy_ratio<N: Number>(flow: SumsView<N>) -> N {
    if flow_total(flow).is_same(N::of_int(0)) {
        N::of_ratio(1, 2)
    } else {
        flow.first.quotient(flow_total(flow))
    }
}

/// What a trade adds to the bought volume.
pub open spec fn bought<N: Number>(side: Option<TradeSide>, quantity: N) -> N {
    if side == Some(TradeSide::Buy) { quantity } else { N::of_int(0) }
}

/// What a trade adds to the sold volume.
pub open spec fn sold<N: Number>(side: Option<TradeSide>, quantity: N) -> N {
    if side == Some(TradeSide::Sell) { quantity } else { N::of_int(0) }
}

/// Rolling order-flow imbalance in a real-time window.
#[derive(Debug)]
pub struct OrderFlowImbalance<N> {
    flow: RunningSums<N>,
}

impl<N: Number> View for OrderFlowImbalance<N> {
    type V = SumsView<N>;

    /// The window of (time, bought, sold) with its totals.
    closed spec fn view(&self) -> SumsView<N> {
        self.flow@
    }
}

impl<N: Number> OrderFlowImbalance<N> {
    /// No trade yet, and a window of `window_secs` seconds.
    pub fn new(window_secs: i64) -> (r: Self)
        requires
            i64::MIN <= window_secs * 1_000_000 <= i64::MAX,
        ensures
            r@ == SumsView::<N>::empty(window_secs * 1_000_000),
    {
        OrderFlowImbalance { flow: RunningSums::new(window_secs) }
    }

    /// Records a trade on the side of its taker; a trade without a side is recorded
    /// with no volume.
    pub fn update(&mut self, tick: &Tick<N>)
        requires
            i64::MIN <= tick.ts_micros - old(self)@.window <= i64::MAX,
        ensures
            final(self)@ == old(self)@.updated(
                tick.ts_micros,
                bought(tick.side, tick.quantity),
                sold(tick.side, tick.quantity),
            ),
    {
        let zero = N::from_int(0);
        let (b, s) = match tick.side {
            Some(TradeSide::Buy) => (tick.quantity, zero),
            Some(TradeSide::Sell) => (zero, tick.quantity),
            None => (zero, zero),
        };
        self.flow.update(tick.ts_micros, b, s);
    }

    /// Records bought and sold volume.
    pub fn update_fused(&mut self, ts: i64, buy_vol: N, sell_vol: N)
        requires
            i64::MIN <= ts - old(self)@.window <= i64::MAX,
        ensures
            final(self)@ == old(self)@.updated(ts, buy_vol, sell_vol),
    {
        self.flow.update(ts, buy_vol, sell_vol);
    }

    /// (buy - sell) / (buy + sell); 0 without volume.
    pub fn value(&self) -> (r: N)
        ensures
            r == flow_imbalance(self@),
    {
        let total = self.total_volume();
        let zero = N::from_int(0);
        if total.same(zero) {
            zero
        } else {
            self.flow.first().sub(self.flow.second()).div(total)
        }
    }

    /// buy / (buy + sell); one half without volume.
    pub fn buy_ratio(&self) -> (r: N)
        ensures
            r == flow_buy_ratio(self@),
    {
        let total = self.total_volume();
        if total.same(N::from_int(0)) {
            N::ratio(1, 2)
        } else {
            self.flow.first().div(total)
        }
    }

    /// Total volume observed in the window.
    pub fn total_volume(&self) -> (r: N)
        ensures
            r == flow_total(self@),
    {
        self.flow.first().add(self.flow.second())
    }
}

/// Order-flow features keep their ranges: on totals that are not negative, the imbalance
/// lies between -1 and 1 and the buy ratio between 0 and 1.
pub proof fn flow_features_keep_their_ranges<N: Number>(flow: SumsView<N>)
    requires
        is_monotone::<N>(),
        not_negative(flow.first),
        not_negative(flow.second),
    ensures
        is_between(N::of_int(-1), flow_imbalance(flow), N::of_int(1)),
        is_between(N::of_int(0), flow_buy_ratio(flow), N::of_int(1)),
{
    reveal(is_monotone);
    let (zero, one, minus) = (N::of_int(0), N::of_int(1), N::of_int(-1));
    assert(zero.is_below(one) && minus.is_below(zero));
    assert(is_between(zero, N::of_ratio(1, 2), one));
    let total = flow_total(flow);
    assert(not_negative(total));
    if !total.is_same(zero) {
        let gap = flow.first.difference(flow.second);
        assert(is_between(zero.difference(total), gap, total));
        assert(is_between(minus, gap.quotient(total), one));
        assert(!zero.is_below(zero.difference(total)));
        assert(is_between(zero.difference(total), flow.first, total));
        assert(is_between(minus, flow.first.quotient(total), one));
    }
}

/// A window whose amounts are all not negative.
pub open spec fn amounts_not_negative<N: Number>(entries: Seq<(i64, N, N)>) -> bool {
    forall|i: int|
        0 <= i < entries.len() ==> not_negative((#[trigger] entries[i]).1) && not_negative(
            entries[i].2,
        )
}

/// A window of amounts that are not negative stays one when such amounts are recorded.
pub proof fn recording_keeps_amounts_not_negative<N: Number>(
    flow: SumsView<N>,
    ts: i64,
    a: N,
    b: N,
)
    requires
        amounts_not_negative(flow.entries),
        not_negative(a),
        not_negative(b),
    ensures
        amounts_not_negative(flow.updated(ts, a, b).entries),
{
    let all = flow.entries.push((ts, a, b));
    let after = flow.updated(ts, a, b).entries;
    eviction_drops_the_stale_front(all, ts - flow.window);
    let k = stale_prefix(all, ts - flow.window) as int;
    assert forall|i: int| 0 <= i < after.len() implies not_negative((#[trigger] after[i]).1)
        && not_negative(after[i].2) by {
        assert(after[i] == all[i + k]);
        if i + k < flow.entries.len() {
            assert(all[i + k] == flow.entries[i + k]);
        }
    }
}

/// Totals that have not drifted are not negative where the amounts are not.
pub proof fn totals_are_not_negative<N: Number>(flow: SumsView<N>)
    requires
        is_monotone::<N>(),
        amounts_not_negative(flow.entries),
        flow.undrifted(),
    ensures
        not_negative(flow.first),
        not_negative(flow.second),
{
    folds_are_not_negative(flow.entries);
}

proof fn folds_are_not_negative<N: Number>(entries: Seq<(i64, N, N)>)
    requires
        is_monotone::<N>(),
        amounts_not_negative(entries),
    ensures
        not_negative(first_total(entries)),
        not_negative(second_total(entries)),
    decreases entries.len(),
{
    reveal(is_monotone);
    if entries.len() > 0 {
        let rest = entries.drop_last();
        assert forall|i: int| 0 <= i < rest.len() implies not_negative((#[trigger] rest[i]).1)
            && not_negative(rest[i].2) by {
            assert(rest[i] == entries[i]);
        }
        folds_are_not_negative(rest);
        assert(not_negative(entries[entries.len() - 1].1));
    }
}

} // verus!
