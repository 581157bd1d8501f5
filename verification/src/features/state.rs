//! The feature vector and the accumulators behind it.

use vstd::prelude::*;
use crate::bounds::has_bounds;
use crate::features::activity::{activity_ratio_of, tick_rate_of, ActivityRegime};
use crate::features::book::{
    fresh_full, fresh_microprice, fresh_pressure, fresh_spread, fresh_spread_usd, fresh_top5,
    fused_imbalances_keep_their_ranges, is_balanced, mean_of, weighted_mean_of, BookImbalance,
    BookImbalanceTracker, BookPressureTracker, BookQuote,
};
use crate::features::flow::{
    amounts_not_negative, flow_buy_ratio, flow_features_keep_their_ranges, flow_imbalance,
    flow_total, recording_keeps_amounts_not_negative, totals_are_not_negative, vwap_deviation_of,
    OrderFlowImbalance, RollingVwap, SessionVwap,
};
use crate::features::per_tick::{
    autocorrelation_keeps_its_range, is_tick_volatility, tick_return_recorded, TickReturns,
    TickReturnsView,
};
use crate::features::rsi::{rsi_averages_are_not_negative, rsi_keeps_its_range, Rsi, RsiState};
use crate::features::running::SumsView;
use crate::features::volatility::{
    is_volatility, return_over, return_recorded, volatility_recorded, RealisedVol, WindowedReturn,
};
use crate::number::{
    is_between, is_exp, is_ln, is_monotone, not_negative, zero_is_not_negative, Analytic, Number,
};
use crate::pick::picked;
use crate::price_fusion::{spread_fraction, FusedTick};
use crate::types::order_book::{
    best_of, book_volume, imbalance_keeps_its_range, imbalance_of, quantities_count,
    weighted_mid_of,
};
use crate::types::{BookSnapshot, Exchange};
use crate::window::fresh_suffix;

verus! {

/// All features at one fused-tick instant.
///
/// `None` means "accumulator not yet seeded": callers should fill with a sensible
/// default (e.g. 0 for signed features, 0.001 for volatility).
#[derive(Debug, Clone, Copy)]
pub struct FeatureVector<N> {
    pub ts_micros: i64,
    pub price: N,
    // Returns (time-horizon aligned)
    pub return_5s: Option<N>,
    pub return_30s: Option<N>,
    pub return_300s: Option<N>,
    // Volatility
    pub vol_30s: Option<N>,
    pub vol_300s: Option<N>,
    pub vol_1800s: Option<N>,
    /// vol_30s / vol_1800s: above 1 means volatility expansion.
    pub vol_ratio: Option<N>,
    // Order flow imbalance
    pub ofi_5s: N,
    pub ofi_30s: N,
    pub ofi_300s: N,
    /// ofi_5s - ofi_30s: positive when short-term flow is more aggressive than baseline.
    pub ofi_delta_30s: N,
    pub buy_ratio_30s: N,
    pub buy_ratio_300s: N,
    // VWAP deviation (z-scored by vol_1800s)
    pub vwap_dev_30s: Option<N>,
    pub vwap_dev_300s: Option<N>,
    /// volume_30s / volume_300s: above 1 indicates an unusually active recent window.
    pub volume_ratio: Option<N>,
    // Tick activity
    pub tick_velocity: N,
    pub activity_regime: N,
    /// Cross-exchange spread as a fraction of the price.
    pub spread_pct: N,
    // Order book features
    pub book_imbalance_5: Option<N>,
    pub book_imbalance_full: Option<N>,
    pub book_spread_pct: Option<N>,
    pub book_pressure: Option<N>,
    /// abs(return_300s) / vol_1800s: trend strength, regime-normalised.
    pub trend_strength: Option<N>,
    /// vol_300s / vol_1800s: above 1 means short-term vol above regime baseline.
    pub vol_regime: Option<N>,
    // Normalised (z-scored) returns
    pub zreturn_30s: Option<N>,
    pub zreturn_300s: Option<N>,
    /// Square of vol_1800s; 0 before there is one.
    pub vol_1800s_variance: N,
    // Inputs of the built-in models
    /// Wilder RSI over 14 fused ticks, between 0 and 100.
    pub rsi_14: Option<N>,
    /// (price - session VWAP) / session VWAP.
    pub vwap_deviation: Option<N>,
    /// (price now - price 30 s ago) / price 30 s ago.
    pub momentum_micro: Option<N>,
    /// (price now - price 300 s ago) / price 300 s ago.
    pub momentum_short: Option<N>,
    /// Exponentially weighted volatility per fused tick.
    pub ewma_vol_tick: Option<N>,
    /// Exponentially weighted variance per fused tick.
    pub ewma_variance: N,
    /// Lag-1 return autocorrelation, between -1 and 1.
    pub autocorr_lag1: Option<N>,
    /// Max - min last price per exchange (USD).
    pub inter_exchange_spread: N,
    /// The same as `vol_30s`.
    pub realised_vol_30s: Option<N>,
    /// The same as `book_imbalance_5`.
    pub book_imbalance_top5: Option<N>,
    /// Volume-weighted mid price of the books (USD).
    pub book_weighted_mid: Option<N>,
    /// Best bid-ask spread of the books (USD).
    pub book_spread_usd: Option<N>,
}

/// A value over a base; `None` unless both are there and the base is not 0.
pub open spec fn over<N: Number>(x: Option<N>, base: Option<N>) -> Option<N> {
    match (x, base) {
        (Some(x), Some(b)) => if b.is_same(N::of_int(0)) { None } else { Some(x.quotient(b)) },
        _ => None,
    }
}

fn divide<N: Number>(x: Option<N>, base: Option<N>) -> (r: Option<N>)
    ensures
        r == over(x, base),
{
    match (x, base) {
        (Some(x), Some(b)) => if b.same(N::from_int(0)) {
            None
        } else {
            Some(x.div(b))
        },
        _ => None,
    }
}

/// A log-return turned into a fraction.
pub open spec fn is_momentum<N: Analytic>(log_return: Option<N>, momentum: Option<N>) -> bool {
    match log_return {
        None => momentum is None,
        Some(r) => exists|e: N| #[trigger]
            is_exp(r, e) && momentum == Some(e.difference(N::of_int(1))),
    }
}

fn momentum<N: Analytic>(log_return: Option<N>) -> (m: Option<N>)
    ensures
        is_momentum(log_return, m),
{
    match log_return {
        None => None,
        Some(r) => {
            let e = r.exp();
            assert(is_exp(r, e));
            Some(e.sub(N::from_int(1)))
        },
    }
}

// ---------------------------------------------------------------------------
// Feature state
// ---------------------------------------------------------------------------
/// What a [`FeatureState`] has accumulated.
#[verifier::ext_equal]
pub struct FeatureView<N> {
    /// Log-prices over 5, 30 and 300 seconds.
    pub ret_5s: Seq<(i64, N)>,
    pub ret_30s: Seq<(i64, N)>,
    pub ret_300s: Seq<(i64, N)>,
    /// Log-returns and their squares over 30, 300 and 1800 seconds.
    pub vol_30: SumsView<N>,
    pub vol_300: SumsView<N>,
    pub vol_1800: SumsView<N>,
    /// The last fused tick's time and price.
    pub last: Option<(i64, N)>,
    /// Bought and sold volume over 5, 30 and 300 seconds.
    pub ofi_5: SumsView<N>,
    pub ofi_30: SumsView<N>,
    pub ofi_300: SumsView<N>,
    /// Price x volume and volume over 30 and 300 seconds.
    pub vwap_30: SumsView<N>,
    pub vwap_300: SumsView<N>,
    pub session: SessionVwap<N>,
    pub rsi: RsiState<N>,
    pub per_tick: TickReturnsView<N>,
    /// Fused-tick times over 30 and 1800 seconds.
    pub fast: Seq<i64>,
    pub slow: Seq<i64>,
    pub book_imbalance: BookImbalanceTracker<N>,
    pub book_pressure: BookPressureTracker<N>,
}

/// The accumulators that fused ticks feed.
#[derive(Debug)]
pub struct TickAccumulators<N> {
    ret_5s: WindowedReturn<N>,
    ret_30s: WindowedReturn<N>,
    ret_300s: WindowedReturn<N>,
    vol_30: RealisedVol<N>,
    vol_300: RealisedVol<N>,
    vol_1800: RealisedVol<N>,
    ofi_5: OrderFlowImbalance<N>,
    ofi_30: OrderFlowImbalance<N>,
    ofi_300: OrderFlowImbalance<N>,
    vwap_30: RollingVwap<N>,
    vwap_300: RollingVwap<N>,
    session: SessionVwap<N>,
    rsi: Rsi<N>,
    per_tick: TickReturns<N>,
    activity: ActivityRegime,
}

impl<N: Analytic> TickAccumulators<N> {
    /// What has been accumulated, beside some books.
    pub closed spec fn beside(
        self,
        book_imbalance: BookImbalanceTracker<N>,
        book_pressure: BookPressureTracker<N>,
    ) -> FeatureView<N> {
        FeatureView {
            ret_5s: self.ret_5s.entries(),
            ret_30s: self.ret_30s.entries(),
            ret_300s: self.ret_300s.entries(),
            vol_30: self.vol_30.moves(),
            vol_300: self.vol_300.moves(),
            vol_1800: self.vol_1800.moves(),
            last: self.vol_30.prev(),
            ofi_5: self.ofi_5@,
            ofi_30: self.ofi_30@,
            ofi_300: self.ofi_300@,
            vwap_30: self.vwap_30@,
            vwap_300: self.vwap_300@,
            session: self.session,
            rsi: self.rsi@,
            per_tick: self.per_tick@,
            fast: self.activity.fast_stamps(),
            slow: self.activity.slow_stamps(),
            book_imbalance,
            book_pressure,
        }
    }
}

/// Owns all incremental accumulators; updated on every accepted fused tick.
#[derive(Debug)]
pub struct FeatureState<N> {
    pub ticks: TickAccumulators<N>,
    pub book_imbalance: BookImbalanceTracker<N>,
    pub book_pressure: BookPressureTracker<N>,
}

impl<N: Analytic> View for FeatureState<N> {
    type V = FeatureView<N>;

    open spec fn view(&self) -> FeatureView<N> {
        FeatureView {
            book_imbalance: self.book_imbalance,
            book_pressure: self.book_pressure,
            ..self.ticks.beside(self.book_imbalance, self.book_pressure)
        }
    }
}

/// The windows have the lengths that their names say.
pub open spec fn windows_set<N>(f: FeatureView<N>) -> bool {
    &&& f.vol_30.window == 30_000_000
    &&& f.vol_300.window == 300_000_000
    &&& f.vol_1800.window == 1_800_000_000
    &&& f.ofi_5.window == 5_000_000
    &&& f.ofi_30.window == 30_000_000
    &&& f.ofi_300.window == 300_000_000
    &&& f.vwap_30.window == 30_000_000
    &&& f.vwap_300.window == 300_000_000
    &&& f.per_tick.pairs.window == 300_000_000
}

/// Nothing accumulated yet.
pub open spec fn is_unseeded<N: Number>(f: FeatureView<N>) -> bool {
    &&& f.ret_5s.len() == 0
    &&& f.ret_30s.len() == 0
    &&& f.ret_300s.len() == 0
    &&& f.vol_30 == SumsView::<N>::empty(30_000_000)
    &&& f.vol_300 == SumsView::<N>::empty(300_000_000)
    &&& f.vol_1800 == SumsView::<N>::empty(1_800_000_000)
    &&& f.last is None
    &&& f.ofi_5 == SumsView::<N>::empty(5_000_000)
    &&& f.ofi_30 == SumsView::<N>::empty(30_000_000)
    &&& f.ofi_300 == SumsView::<N>::empty(300_000_000)
    &&& f.vwap_30 == SumsView::<N>::empty(30_000_000)
    &&& f.vwap_300 == SumsView::<N>::empty(300_000_000)
    &&& f.session == SessionVwap::<N>::start()
    &&& f.rsi == RsiState::<N>::start()
    &&& f.per_tick == TickReturnsView::<N>::start()
    &&& f.fast.len() == 0
    &&& f.slow.len() == 0
    &&& forall|e: Exchange| #[trigger] f.book_imbalance.entry(e) is None
    &&& forall|e: Exchange| #[trigger] f.book_pressure.entry(e) is None
}

/// A flow window after a fused tick: its volume is split by its buy ratio; a tick
/// without side data leaves the window alone.
pub open spec fn flow_after<N: Number>(flow: SumsView<N>, fused: FusedTick<N>) -> SumsView<N> {
    match fused.buy_ratio {
        Some(b) => flow.updated(
            fused.ts_micros,
            fused.volume.product(b),
            fused.volume.product(N::of_int(1).difference(b)),
        ),
        None => flow,
    }
}

/// The accumulators after a fused tick.
pub open spec fn advanced<N: Analytic>(
    before: FeatureView<N>,
    fused: FusedTick<N>,
    after: FeatureView<N>,
) -> bool {
    let ts = fused.ts_micros;
    let price = fused.price;
    let pv = price.product(fused.volume);
    &&& return_recorded(before.ret_5s, after.ret_5s, ts, price, 5_000_000)
    &&& return_recorded(before.ret_30s, after.ret_30s, ts, price, 30_000_000)
    &&& return_recorded(before.ret_300s, after.ret_300s, ts, price, 300_000_000)
    &&& volatility_recorded(before.vol_30, before.last, ts, price, after.vol_30)
    &&& volatility_recorded(before.vol_300, before.last, ts, price, after.vol_300)
    &&& volatility_recorded(before.vol_1800, before.last, ts, price, after.vol_1800)
    &&& after.last == Some((ts, price))
    &&& after.ofi_5 == flow_after(before.ofi_5, fused)
    &&& after.ofi_30 == flow_after(before.ofi_30, fused)
    &&& after.ofi_300 == flow_after(before.ofi_300, fused)
    &&& after.vwap_30 == before.vwap_30.updated(ts, pv, fused.volume)
    &&& after.vwap_300 == before.vwap_300.updated(ts, pv, fused.volume)
    &&& after.session == before.session.with(price, fused.volume)
    &&& after.rsi == before.rsi.with(price)
    &&& tick_return_recorded(before.per_tick, ts, price, after.per_tick)
    &&& after.fast == fresh_suffix(before.fast.push(ts), ts - 30_000_000)
    &&& after.slow == fresh_suffix(before.slow.push(ts), ts - 1_800_000_000)
    &&& after.book_imbalance == before.book_imbalance
    &&& after.book_pressure == before.book_pressure
}

/// The return features are those of the tick's log-price; 0 stands in for the
/// logarithm of a price that is not positive.
pub open spec fn returns_described<N: Analytic>(
    f: FeatureView<N>,
    price: N,
    log_price: N,
    v: FeatureVector<N>,
) -> bool {
    &&& if N::of_int(0).is_below(price) {
        is_ln(price, log_price)
    } else {
        log_price == N::of_int(0)
    }
    &&& v.return_5s == return_over(f.ret_5s, 5_000_000, log_price)
    &&& v.return_30s == return_over(f.ret_30s, 30_000_000, log_price)
    &&& v.return_300s == return_over(f.ret_300s, 300_000_000, log_price)
}

/// `v` is the feature vector that the accumulators give for a fused tick.
pub open spec fn describes<N: Analytic>(
    f: FeatureView<N>,
    fused: FusedTick<N>,
    v: FeatureVector<N>,
) -> bool {
    let ts = fused.ts_micros;
    let price = fused.price;
    &&& v.ts_micros == ts
    &&& v.price == price
    &&& exists|lp: N| #[trigger] returns_described(f, price, lp, v)
    &&& is_volatility(f.vol_30, v.vol_30s)
    &&& is_volatility(f.vol_300, v.vol_300s)
    &&& is_volatility(f.vol_1800, v.vol_1800s)
    &&& v.vol_ratio == over(v.vol_30s, v.vol_1800s)
    &&& v.ofi_5s == flow_imbalance(f.ofi_5)
    &&& v.ofi_30s == flow_imbalance(f.ofi_30)
    &&& v.ofi_300s == flow_imbalance(f.ofi_300)
    &&& v.ofi_delta_30s == v.ofi_5s.difference(v.ofi_30s)
    &&& v.buy_ratio_30s == flow_buy_ratio(f.ofi_30)
    &&& v.buy_ratio_300s == flow_buy_ratio(f.ofi_300)
    &&& v.vwap_dev_30s == (match v.vol_1800s {
        Some(sigma) => vwap_deviation_of(f.vwap_30, price, sigma),
        None => None,
    })
    &&& v.vwap_dev_300s == (match v.vol_1800s {
        Some(sigma) => vwap_deviation_of(f.vwap_300, price, sigma),
        None => None,
    })
    &&& v.volume_ratio == over(Some(flow_total(f.ofi_30)), Some(flow_total(f.ofi_300)))
    &&& v.tick_velocity == tick_rate_of::<N>(f.fast)
    &&& v.activity_regime == activity_ratio_of::<N>(f.fast, f.slow)
    &&& v.spread_pct == spread_fraction(fused.cross_exchange_spread, price)
    &&& v.book_imbalance_5 == mean_of(picked(f.book_imbalance.entries(), fresh_top5(ts)))
    &&& v.book_imbalance_full == mean_of(picked(f.book_imbalance.entries(), fresh_full(ts)))
    &&& v.book_spread_pct == weighted_mean_of(picked(f.book_pressure.entries(), fresh_spread(ts)))
    &&& v.book_pressure == mean_of(picked(f.book_pressure.entries(), fresh_pressure(ts)))
    &&& v.trend_strength == over(
        match v.return_300s {
            Some(r) => Some(r.magnitude()),
            None => None,
        },
        v.vol_1800s,
    )
    &&& v.vol_regime == over(v.vol_300s, v.vol_1800s)
    &&& v.zreturn_30s == over(v.return_30s, v.vol_1800s)
    &&& v.zreturn_300s == over(v.return_300s, v.vol_1800s)
    &&& v.vol_1800s_variance == (match v.vol_1800s {
        Some(sigma) => sigma.product(sigma),
        None => N::of_int(0),
    })
    &&& v.rsi_14 == f.rsi.index()
    &&& v.vwap_deviation == f.session.deviation_of(price)
    &&& is_momentum(v.return_30s, v.momentum_micro)
    &&& is_momentum(v.return_300s, v.momentum_short)
    &&& is_tick_volatility(f.per_tick, v.ewma_vol_tick)
    &&& v.ewma_variance == f.per_tick.variance
    &&& v.autocorr_lag1 == f.per_tick.autocorrelation()
    &&& v.inter_exchange_spread == fused.cross_exchange_spread
    &&& v.realised_vol_30s == v.vol_30s
    &&& v.book_imbalance_top5 == v.book_imbalance_5
    &&& v.book_weighted_mid == mean_of(picked(f.book_pressure.entries(), fresh_microprice(ts)))
    &&& v.book_spread_usd == mean_of(picked(f.book_pressure.entries(), fresh_spread_usd(ts)))
}

/// Without order books the book features are `None`, and the rest of the vector is there
/// as ever.
pub proof fn no_books_no_book_features<N: Analytic>(
    f: FeatureView<N>,
    fused: FusedTick<N>,
    v: FeatureVector<N>,
)
    requires
        describes(f, fused, v),
        forall|e: Exchange| #[trigger] f.book_imbalance.entry(e) is None,
        forall|e: Exchange| #[trigger] f.book_pressure.entry(e) is None,
    ensures
        v.book_imbalance_5 is None,
        v.book_imbalance_full is None,
        v.book_spread_pct is None,
        v.book_pressure is None,
        v.book_imbalance_top5 is None,
        v.book_weighted_mid is None,
        v.book_spread_usd is None,
{
    assert(f.book_imbalance.entries() =~= Seq::empty());
    assert(f.book_pressure.entries() =~= Seq::empty());
}

/// The deviation of the micro-price from the mid price, as a fraction of the latter.
pub open spec fn microprice_deviation<N: Number>(microprice: N, mid: N) -> N {
    if N::of_int(0).is_below(mid) {
        microprice.difference(mid).quotient(mid)
    } else {
        N::of_int(0)
    }
}

/// The imbalances that a book shows; `None` if it lacks a side or volume.
pub open spec fn imbalance_shown<N: Number>(snap: BookSnapshot<N>) -> Option<BookImbalance<N>> {
    let depth = if snap.bids@.len() > snap.asks@.len() { snap.bids@.len() } else { snap.asks@.len() };
    match (imbalance_of(snap.bids@, snap.asks@, 5), imbalance_of(snap.bids@, snap.asks@, depth)) {
        (Some(top5), Some(full)) => Some(BookImbalance { top5, full, ts_micros: snap.ts_micros }),
        _ => None,
    }
}

/// The quote that a book shows; `None` if it lacks a side or volume.
pub open spec fn quote_shown<N: Number>(snap: BookSnapshot<N>) -> Option<BookQuote<N>> {
    match (best_of(snap.bids@), best_of(snap.asks@), weighted_mid_of(snap.bids@, snap.asks@, 5)) {
        (Some(bid), Some(ask), Some(microprice)) => {
            let mid = bid.sum(ask).quotient(N::of_int(2));
            Some(
                BookQuote {
                    spread_usd: ask.difference(bid),
                    microprice_dev: microprice_deviation(microprice, mid),
                    mid,
                    microprice,
                    volume: book_volume(snap.bids@, snap.asks@, 5),
                    ts_micros: snap.ts_micros,
                },
            )
        },
        _ => None,
    }
}

/// An entry that a book replaces if it shows something new.
pub open spec fn shown_or_kept<T>(shown: Option<T>, kept: Option<T>) -> Option<T> {
    if shown is Some { shown } else { kept }
}

/// The accumulators after an order book: its exchange's entries are replaced by what
/// it shows, and nothing else changes.
pub open spec fn book_taken<N: Number>(
    before: FeatureView<N>,
    snap: BookSnapshot<N>,
    after: FeatureView<N>,
) -> bool {
    &&& after == (FeatureView {
        book_imbalance: after.book_imbalance,
        book_pressure: after.book_pressure,
        ..before
    })
    &&& after.book_imbalance.entry(snap.exchange) == shown_or_kept(
        imbalance_shown(snap),
        before.book_imbalance.entry(snap.exchange),
    )
    &&& after.book_pressure.entry(snap.exchange) == shown_or_kept(
        quote_shown(snap),
        before.book_pressure.entry(snap.exchange),
    )
    &&& forall|e: Exchange|
        e != snap.exchange ==> #[trigger] after.book_imbalance.entry(e)
            == before.book_imbalance.entry(e)
    &&& forall|e: Exchange|
        e != snap.exchange ==> #[trigger] after.book_pressure.entry(e)
            == before.book_pressure.entry(e)
}

// ---------------------------------------------------------------------------
// Ranges over a history
// ---------------------------------------------------------------------------
/// A fused tick as trades make them: no negative volume, and a share of it bought.
pub open spec fn is_traded<N: Number>(fused: FusedTick<N>) -> bool {
    &&& not_negative(fused.volume)
    &&& fused.buy_ratio matches Some(b) ==> is_between(N::of_int(0), b, N::of_int(1))
}

/// An order book as exchanges make them: every quantity is there and not negative.
pub open spec fn is_sound_book<N: Number>(snap: BookSnapshot<N>) -> bool {
    quantities_count(snap.bids@) && quantities_count(snap.asks@)
}

/// What can come in.
pub enum Input<N> {
    Tick(FusedTick<N>),
    Book(BookSnapshot<N>),
}

/// Something has come in.
pub open spec fn taken_in<N: Analytic>(
    before: FeatureView<N>,
    input: Input<N>,
    after: FeatureView<N>,
) -> bool {
    match input {
        Input::Tick(fused) => advanced(before, fused, after),
        Input::Book(snap) => book_taken(before, snap, after),
    }
}

/// The accumulators along a history, from the start on.
pub open spec fn is_history<N: Analytic>(
    states: Seq<FeatureView<N>>,
    inputs: Seq<Input<N>>,
) -> bool {
    &&& states.len() == inputs.len() + 1
    &&& is_unseeded(states[0])
    &&& forall|i: int|
        0 <= i < inputs.len() ==> taken_in(states[i], #[trigger] inputs[i], states[i + 1])
}

/// All fused ticks of a history are as trades make them.
pub open spec fn ticks_are_traded<N: Number>(inputs: Seq<Input<N>>) -> bool {
    forall|i: int|
        0 <= i < inputs.len() ==> (#[trigger] inputs[i] matches Input::Tick(fused) ==> is_traded(
            fused,
        ))
}

/// All order books of a history are as exchanges make them.
pub open spec fn books_are_sound<N: Number>(inputs: Seq<Input<N>>) -> bool {
    forall|i: int|
        0 <= i < inputs.len() ==> (#[trigger] inputs[i] matches Input::Book(snap) ==> is_sound_book(
            snap,
        ))
}

/// The flow windows hold no negative volume.
pub open spec fn flows_not_negative<N: Number>(f: FeatureView<N>) -> bool {
    &&& amounts_not_negative(f.ofi_5.entries)
    &&& amounts_not_negative(f.ofi_30.entries)
    &&& amounts_not_negative(f.ofi_300.entries)
}

proof fn flow_stays_not_negative<N: Number>(flow: SumsView<N>, fused: FusedTick<N>)
    requires
        is_monotone::<N>(),
        is_traded(fused),
        amounts_not_negative(flow.entries),
    ensures
        amounts_not_negative(flow_after(flow, fused).entries),
{
    reveal(is_monotone);
    if let Some(b) = fused.buy_ratio {
        let one = N::of_int(1);
        assert(not_negative(one.difference(b)));
        let bought = fused.volume.product(b);
        let sold = fused.volume.product(one.difference(b));
        recording_keeps_amounts_not_negative(flow, fused.ts_micros, bought, sold);
    }
}

proof fn flows_stay_not_negative<N: Analytic>(
    states: Seq<FeatureView<N>>,
    inputs: Seq<Input<N>>,
    n: int,
)
    requires
        is_monotone::<N>(),
        is_history(states, inputs),
        ticks_are_traded(inputs),
        0 <= n < states.len(),
    ensures
        flows_not_negative(states[n]),
    decreases n,
{
    if n > 0 {
        flows_stay_not_negative(states, inputs, n - 1);
        let before = states[n - 1];
        assert(taken_in(before, inputs[n - 1], states[n]));
        if let Input::Tick(fused) = inputs[n - 1] {
            flow_stays_not_negative(before.ofi_5, fused);
            flow_stays_not_negative(before.ofi_30, fused);
            flow_stays_not_negative(before.ofi_300, fused);
        }
    }
}

/// Whatever fused ticks and books there have been, the order-flow features of the next
/// tick keep their ranges: the imbalances lie between -1 and 1 and the buy ratios between
/// 0 and 1. The running totals are taken to be those of their windows, as they are while
/// nothing is rounded.
pub proof fn flow_features_keep_their_ranges_over_a_history<N: Analytic>(
    states: Seq<FeatureView<N>>,
    inputs: Seq<Input<N>>,
    fused: FusedTick<N>,
    v: FeatureVector<N>,
)
    requires
        is_monotone::<N>(),
        is_history(states, inputs),
        ticks_are_traded(inputs),
        inputs.len() > 0,
        inputs.last() == Input::Tick(fused),
        describes(states.last(), fused, v),
        states.last().ofi_5.undrifted(),
        states.last().ofi_30.undrifted(),
        states.last().ofi_300.undrifted(),
    ensures
        is_between(N::of_int(-1), v.ofi_5s, N::of_int(1)),
        is_between(N::of_int(-1), v.ofi_30s, N::of_int(1)),
        is_between(N::of_int(-1), v.ofi_300s, N::of_int(1)),
        is_between(N::of_int(0), v.buy_ratio_30s, N::of_int(1)),
        is_between(N::of_int(0), v.buy_ratio_300s, N::of_int(1)),
        v.ofi_delta_30s == v.ofi_5s.difference(v.ofi_30s),
{
    let f = states.last();
    flows_stay_not_negative(states, inputs, states.len() - 1);
    totals_are_not_negative(f.ofi_5);
    totals_are_not_negative(f.ofi_30);
    totals_are_not_negative(f.ofi_300);
    flow_features_keep_their_ranges(f.ofi_5);
    flow_features_keep_their_ranges(f.ofi_30);
    flow_features_keep_their_ranges(f.ofi_300);
}

/// A window without order flow has an imbalance of 0 and a buy ratio of one half.
pub proof fn no_flow_is_balanced<N: Number>(flow: SumsView<N>)
    requires
        is_monotone::<N>(),
        flow.entries.len() == 0,
        flow.undrifted(),
    ensures
        flow_imbalance(flow) == N::of_int(0),
        flow_buy_ratio(flow) == N::of_ratio(1, 2),
{
    reveal(is_monotone);
    let zero = N::of_int(0);
    assert(flow_total(flow) == zero.sum(zero));
}

/// Whatever prices there have been, the RSI lies between 0 and 100 and the
/// autocorrelation between -1 and 1.
pub proof fn tick_features_keep_their_ranges_over_a_history<N: Analytic>(
    states: Seq<FeatureView<N>>,
    inputs: Seq<Input<N>>,
    fused: FusedTick<N>,
    v: FeatureVector<N>,
)
    requires
        is_monotone::<N>(),
        is_history(states, inputs),
        inputs.len() > 0,
        inputs.last() == Input::Tick(fused),
        describes(states.last(), fused, v),
    ensures
        v.rsi_14 matches Some(x) ==> is_between(N::of_int(0), x, N::of_int(100)),
        v.autocorr_lag1 matches Some(x) ==> is_between(N::of_int(-1), x, N::of_int(1)),
{
    averages_stay_not_negative(states, inputs, states.len() - 1);
    rsi_keeps_its_range(states.last().rsi);
    autocorrelation_keeps_its_range(states.last().per_tick);
}

proof fn averages_stay_not_negative<N: Analytic>(
    states: Seq<FeatureView<N>>,
    inputs: Seq<Input<N>>,
    n: int,
)
    requires
        is_monotone::<N>(),
        is_history(states, inputs),
        0 <= n < states.len(),
    ensures
        not_negative(states[n].rsi.avg_gain),
        not_negative(states[n].rsi.avg_loss),
    decreases n,
{
    zero_is_not_negative::<N>();
    if n > 0 {
        averages_stay_not_negative(states, inputs, n - 1);
        assert(taken_in(states[n - 1], inputs[n - 1], states[n]));
        if let Input::Tick(fused) = inputs[n - 1] {
            rsi_averages_are_not_negative(states[n - 1].rsi, fused.price);
        }
    }
}

/// Whatever sound books there have been, the book imbalances of the next tick lie between
/// -1 and 1.
pub proof fn book_features_keep_their_ranges_over_a_history<N: Analytic>(
    states: Seq<FeatureView<N>>,
    inputs: Seq<Input<N>>,
    fused: FusedTick<N>,
    v: FeatureVector<N>,
)
    requires
        has_bounds::<N>(),
        is_history(states, inputs),
        books_are_sound(inputs),
        inputs.len() > 0,
        inputs.last() == Input::Tick(fused),
        describes(states.last(), fused, v),
    ensures
        v.book_imbalance_5 matches Some(x) ==> is_between(N::of_int(-1), x, N::of_int(1)),
        v.book_imbalance_top5 matches Some(x) ==> is_between(N::of_int(-1), x, N::of_int(1)),
        v.book_imbalance_full matches Some(x) ==> is_between(N::of_int(-1), x, N::of_int(1)),
{
    let tracker = states.last().book_imbalance;
    books_stay_balanced(states, inputs, states.len() - 1);
    let entries = tracker.entries();
    assert forall|i: int| 0 <= i < entries.len() implies is_balanced(#[trigger] entries[i]) by {
        let b = entries[i];
        assert(tracker.entry(Exchange::Binance) == Some(b) || tracker.entry(Exchange::Coinbase)
            == Some(b) || tracker.entry(Exchange::Kraken) == Some(b) || tracker.entry(
            Exchange::Bitstamp,
        ) == Some(b));
    }
    fused_imbalances_keep_their_ranges(entries, fused.ts_micros);
}

proof fn books_stay_balanced<N: Analytic>(
    states: Seq<FeatureView<N>>,
    inputs: Seq<Input<N>>,
    n: int,
)
    requires
        has_bounds::<N>(),
        is_history(states, inputs),
        books_are_sound(inputs),
        0 <= n < states.len(),
    ensures
        forall|e: Exchange|
            (#[trigger] states[n].book_imbalance.entry(e)) matches Some(b) ==> is_balanced(b),
    decreases n,
{
    if n > 0 {
        books_stay_balanced(states, inputs, n - 1);
        let (before, after) = (states[n - 1], states[n]);
        assert(taken_in(before, inputs[n - 1], after));
        if let Input::Book(snap) = inputs[n - 1] {
            let depth = if snap.bids@.len() > snap.asks@.len() {
                snap.bids@.len()
            } else {
                snap.asks@.len()
            };
            assert(is_sound_book(snap));
            assert(is_monotone::<N>()) by {
                reveal(has_bounds);
            }
            imbalance_keeps_its_range(snap.bids@, snap.asks@, 5);
            imbalance_keeps_its_range(snap.bids@, snap.asks@, depth);
            assert forall|e: Exchange|
                (#[trigger] after.book_imbalance.entry(e)) matches Some(b) implies is_balanced(
                after.book_imbalance.entry(e)->0,
            ) by {
                if e != snap.exchange {
                    assert(after.book_imbalance.entry(e) == before.book_imbalance.entry(e));
                } else if imbalance_shown(snap) is None {
                    assert(after.book_imbalance.entry(e) == before.book_imbalance.entry(e));
                }
            }
        }
    }
}

impl<N: Analytic> FeatureState<N> {
    /// The windows have the lengths that their names say, and the volatilities have
    /// seen the same ticks.
    pub closed spec fn wf(self) -> bool {
        &&& windows_set(self@)
        &&& self.ticks.ret_5s.horizon() == 5_000_000
        &&& self.ticks.ret_30s.horizon() == 30_000_000
        &&& self.ticks.ret_300s.horizon() == 300_000_000
        &&& self.ticks.vol_300.prev() == self.ticks.vol_30.prev()
        &&& self.ticks.vol_1800.prev() == self.ticks.vol_30.prev()
        &&& self.ticks.activity.wf()
    }

    pub fn new() -> (r: Self)
        ensures
            r.wf(),
            is_unseeded(r@),
    {
        FeatureState {
            ticks: TickAccumulators {
                ret_5s: WindowedReturn::new(5),
                ret_30s: WindowedReturn::new(30),
                ret_300s: WindowedReturn::new(300),
                vol_30: RealisedVol::new(30),
                vol_300: RealisedVol::new(300),
                vol_1800: RealisedVol::new(1800),
                ofi_5: OrderFlowImbalance::new(5),
                ofi_30: OrderFlowImbalance::new(30),
                ofi_300: OrderFlowImbalance::new(300),
                vwap_30: RollingVwap::new(30),
                vwap_300: RollingVwap::new(300),
                session: SessionVwap::new(),
                rsi: Rsi::new(),
                per_tick: TickReturns::new(),
                activity: ActivityRegime::new(),
            },
            book_imbalance: BookImbalanceTracker::new(),
            book_pressure: BookPressureTracker::new(),
        }
    }

    fn accumulate(&mut self, fused: &FusedTick<N>)
        requires
            old(self).wf(),
            fused.ts_micros >= i64::MIN + 1_800_000_000,
        ensures
            final(self).wf(),
            advanced(old(self)@, *fused, final(self)@),
    {
        let price = fused.price;
        let ts: i64 = fused.ts_micros;
        let vol = fused.volume;
        self.ticks.vol_30.update_fused(ts, price);
        self.ticks.vol_300.update_fused(ts, price);
        self.ticks.vol_1800.update_fused(ts, price);
        self.ticks.ret_5s.update(ts, price);
        self.ticks.ret_30s.update(ts, price);
        self.ticks.ret_300s.update(ts, price);
        if let Some(buy_ratio) = fused.buy_ratio {
            let buy_vol = vol.mul(buy_ratio);
            let sell_vol = vol.mul(N::from_int(1).sub(buy_ratio));
            self.ticks.ofi_5.update_fused(ts, buy_vol, sell_vol);
            self.ticks.ofi_30.update_fused(ts, buy_vol, sell_vol);
            self.ticks.ofi_300.update_fused(ts, buy_vol, sell_vol);
        }
        self.ticks.vwap_30.update(ts, price, vol);
        self.ticks.vwap_300.update(ts, price, vol);
        self.ticks.session.update(price, vol);
        self.ticks.rsi.update(price);
        self.ticks.per_tick.update(ts, price);
        self.ticks.activity.update(ts);
    }

    fn describe(&self, fused: &FusedTick<N>) -> (v: FeatureVector<N>)
        requires
            self.wf(),
        ensures
            describes(self@, *fused, v),
    {
        let price = fused.price;
        let ts: i64 = fused.ts_micros;
        let zero = N::from_int(0);
        let lp = if zero.below(price) {
            price.ln()
        } else {
            zero
        };
        assert(zero.is_below(price) ==> is_ln(price, lp));
        let vol_30s = self.ticks.vol_30.value();
        let vol_300s = self.ticks.vol_300.value();
        let vol_1800s = self.ticks.vol_1800.value();
        let return_5s = self.ticks.ret_5s.value(lp);
        let return_30s = self.ticks.ret_30s.value(lp);
        let return_300s = self.ticks.ret_300s.value(lp);
        let book_imbalance_5 = self.book_imbalance.fused_top5(ts);
        let ofi_5s = self.ticks.ofi_5.value();
        let ofi_30s = self.ticks.ofi_30.value();
        let move_300s = match return_300s {
            Some(r) => Some(r.abs()),
            None => None,
        };
        let (vwap_dev_30s, vwap_dev_300s, variance) = match vol_1800s {
            Some(sigma) => (
                self.ticks.vwap_30.deviation_z(price, sigma),
                self.ticks.vwap_300.deviation_z(price, sigma),
                sigma.mul(sigma),
            ),
            None => (None, None, zero),
        };
        let v = FeatureVector {
            ts_micros: ts,
            price,
            return_5s,
            return_30s,
            return_300s,
            vol_30s,
            vol_300s,
            vol_1800s,
            vol_ratio: divide(vol_30s, vol_1800s),
            ofi_5s,
            ofi_30s,
            ofi_300s: self.ticks.ofi_300.value(),
            ofi_delta_30s: ofi_5s.sub(ofi_30s),
            buy_ratio_30s: self.ticks.ofi_30.buy_ratio(),
            buy_ratio_300s: self.ticks.ofi_300.buy_ratio(),
            vwap_dev_30s,
            vwap_dev_300s,
            volume_ratio: divide(
                Some(self.ticks.ofi_30.total_volume()),
                Some(self.ticks.ofi_300.total_volume()),
            ),
            tick_velocity: self.ticks.activity.fast_rate(),
            activity_regime: self.ticks.activity.ratio(),
            spread_pct: fused.spread_pct(),
            book_imbalance_5,
            book_imbalance_full: self.book_imbalance.fused_full(ts),
            book_spread_pct: self.book_pressure.spread_pct(ts),
            book_pressure: self.book_pressure.pressure(ts),
            trend_strength: divide(move_300s, vol_1800s),
            vol_regime: divide(vol_300s, vol_1800s),
            zreturn_30s: divide(return_30s, vol_1800s),
            zreturn_300s: divide(return_300s, vol_1800s),
            vol_1800s_variance: variance,
            rsi_14: self.ticks.rsi.value(),
            vwap_deviation: self.ticks.session.deviation(price),
            momentum_micro: momentum(return_30s),
            momentum_short: momentum(return_300s),
            ewma_vol_tick: self.ticks.per_tick.ewma_vol(),
            ewma_variance: self.ticks.per_tick.ewma_variance(),
            autocorr_lag1: self.ticks.per_tick.autocorr(),
            inter_exchange_spread: fused.cross_exchange_spread,
            realised_vol_30s: vol_30s,
            book_imbalance_top5: book_imbalance_5,
            book_weighted_mid: self.book_pressure.weighted_mid(ts),
            book_spread_usd: self.book_pressure.spread_usd(ts),
        };
        assert(returns_described(self@, price, lp, v));
        v
    }

    /// Primary hot-path update, called on every [`FusedTick`].
    pub fn update_from_fused(&mut self, fused: &FusedTick<N>) -> (v: FeatureVector<N>)
        requires
            old(self).wf(),
            fused.ts_micros >= i64::MIN + 1_800_000_000,
        ensures
            final(self).wf(),
            advanced(old(self)@, *fused, final(self)@),
            describes(final(self)@, *fused, v),
    {
        self.accumulate(fused);
        self.describe(fused)
    }

    /// Update book-derived features from a [`BookSnapshot`]; what the book does not
    /// show keeps its last value.
    ///
    /// Called by the pipeline's book stage; does not emit a [`FeatureVector`].
    pub fn update_book(&mut self, snap: &BookSnapshot<N>)
        requires
            old(self).wf(),
        ensures
            final(self).wf(),
            book_taken(old(self)@, *snap, final(self)@),
    {
        let ts: i64 = snap.ts_micros;
        let depth: usize = if snap.bids.len() > snap.asks.len() {
            snap.bids.len()
        } else {
            snap.asks.len()
        };
        if let (Some(i5), Some(ifull)) = (snap.imbalance(5), snap.imbalance(depth)) {
            self.book_imbalance.update(snap.exchange, i5, ifull, ts);
        }
        if let (Some(spread_usd), Some(mid), Some(microprice)) = (
            snap.spread_usd(),
            snap.mid_price(),
            snap.weighted_mid(5),
        ) {
            let zero = N::from_int(0);
            let dev = if zero.below(mid) {
                microprice.sub(mid).div(mid)
            } else {
                zero
            };
            let quote = BookQuote {
                spread_usd,
                microprice_dev: dev,
                mid,
                microprice,
                volume: snap.volume(5),
                ts_micros: ts,
            };
            self.book_pressure.record(snap.exchange, quote);
        }
    }
}

impl<N: Analytic> Default for FeatureState<N> {
    fn default() -> (r: Self)
        ensures
            r.wf(),
            is_unseeded(r@),
    {
        Self::new()
    }
}

} // verus!
