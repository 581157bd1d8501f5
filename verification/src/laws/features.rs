//! What the features of a tick say of the history before it.

use vstd::prelude::*;
use crate::features::activity::tick_rate_of;
use crate::features::flow::{flow_buy_ratio, flow_imbalance, flow_total};
use crate::features::rsi::rsi_after;
use crate::features::running::SumsView;
use crate::features::state::{describes, is_history, is_unseeded, taken_in, FeatureView, Input};
use crate::features::FeatureVector;
use crate::laws::decimal::{counts_in_decimals, is_near, quotient_is_near, units_in};
use crate::laws::windows::{
    adds_up, bulk, empty_window_adds_up, first_in, is_outlived, is_recent, is_window,
    recent_records_are_the_window, second_in, size, sums_follow_the_records, windows_stay_recent,
};
use crate::number::{Analytic, Fixed, Number, UNITS};
use crate::price_fusion::FusedTick;
use crate::window::in_order;

verus! {

/// The fused ticks of a history.
pub open spec fn ticks_of<N>(inputs: Seq<Input<N>>) -> Seq<FusedTick<N>>
    decreases inputs.len(),
{
    if inputs.len() == 0 {
        Seq::empty()
    } else {
        match inputs.last() {
            Input::Tick(fused) => ticks_of(inputs.drop_last()).push(fused),
            Input::Book(_) => ticks_of(inputs.drop_last()),
        }
    }
}

/// The prices of some ticks.
pub open spec fn prices_of<N>(ticks: Seq<FusedTick<N>>) -> Seq<N> {
    Seq::new(ticks.len(), |i: int| ticks[i].price)
}

/// The times of some ticks.
pub open spec fn times_of<N>(ticks: Seq<FusedTick<N>>) -> Seq<i64> {
    Seq::new(ticks.len(), |i: int| ticks[i].ts_micros)
}

/// Time, traded value and volume of some ticks.
pub open spec fn trades_of<N: Number>(ticks: Seq<FusedTick<N>>) -> Seq<(i64, N, N)> {
    Seq::new(
        ticks.len(),
        |i: int| (ticks[i].ts_micros, ticks[i].price.product(ticks[i].volume), ticks[i].volume),
    )
}

/// Time, bought and sold volume of those ticks that say how much of theirs was bought.
pub open spec fn flows_of<N: Number>(ticks: Seq<FusedTick<N>>) -> Seq<(i64, N, N)>
    decreases ticks.len(),
{
    if ticks.len() == 0 {
        Seq::empty()
    } else {
        let t = ticks.last();
        let before = flows_of(ticks.drop_last());
        match t.buy_ratio {
            Some(b) => before.push(
                (t.ts_micros, t.volume.product(b), t.volume.product(N::of_int(1).difference(b))),
            ),
            None => before,
        }
    }
}

/// The times of some ticks never go back.
pub open spec fn run_forward<N>(ticks: Seq<FusedTick<N>>) -> bool {
    forall|i: int, j: int|
        0 <= i <= j < ticks.len() ==> (#[trigger] ticks[i]).ts_micros <= (
        #[trigger] ticks[j]).ts_micros
}

/// A history without its last input.
pub proof fn shorter_history<N: Analytic>(states: Seq<FeatureView<N>>, inputs: Seq<Input<N>>)
    requires
        is_history(states, inputs),
        inputs.len() > 0,
    ensures
        is_history(states.drop_last(), inputs.drop_last()),
        states.drop_last().last() == states[states.len() - 2],
        taken_in(states[states.len() - 2], inputs.last(), states.last()),
{
    let (s, x) = (states.drop_last(), inputs.drop_last());
    assert forall|i: int| 0 <= i < x.len() implies taken_in(s[i], #[trigger] x[i], s[i + 1]) by {
        assert(inputs[i] == x[i]);
        assert(taken_in(states[i], inputs[i], states[i + 1]));
    }
    let n = inputs.len() - 1;
    assert(taken_in(states[n], inputs[n], states[n + 1]));
}

proof fn flows_are_ordered<N: Number>(ticks: Seq<FusedTick<N>>)
    requires
        run_forward(ticks),
    ensures
        in_order(flows_of(ticks)),
        flows_of(ticks).len() > 0 ==> ticks.len() > 0 && flows_of(ticks).last().0
            <= ticks.last().ts_micros,
    decreases ticks.len(),
{
    if ticks.len() > 0 {
        let rest = ticks.drop_last();
        assert forall|i: int, j: int| 0 <= i <= j < rest.len() implies (
        #[trigger] rest[i]).ts_micros <= (#[trigger] rest[j]).ts_micros by {
            assert(rest[i] == ticks[i] && rest[j] == ticks[j]);
        }
        flows_are_ordered(rest);
        if rest.len() > 0 {
            assert(ticks[ticks.len() - 2].ts_micros <= ticks[ticks.len() - 1].ts_micros);
        }
        let (a, b) = (flows_of(rest), flows_of(ticks));
        assert forall|i: int, j: int| 0 <= i <= j < b.len() implies (#[trigger] b[i]).0 <= (
        #[trigger] b[j]).0 by {
            if j < a.len() {
                assert(b[i] == a[i] && b[j] == a[j]);
                assert(a[i].0 <= a[j].0);
            } else if i < a.len() {
                assert(a[i].0 <= a[a.len() - 1].0);
            }
        }
        assert(in_order(b));
    }
}

/// The windows and the index of a history are those of its ticks.
pub open spec fn holds_the_history<N: Number>(f: FeatureView<N>, ticks: Seq<FusedTick<N>>) -> bool {
    &&& f.rsi == rsi_after(prices_of(ticks))
    &&& is_recent(times_of(ticks), 30_000_000, f.fast)
    &&& is_recent(times_of(ticks), 1_800_000_000, f.slow)
    &&& f.ofi_5.window == 5_000_000
    &&& f.ofi_30.window == 30_000_000
    &&& f.ofi_300.window == 300_000_000
    &&& f.vwap_30.window == 30_000_000
    &&& f.vwap_300.window == 300_000_000
    &&& is_recent(flows_of(ticks), 5_000_000, f.ofi_5.entries)
    &&& is_recent(flows_of(ticks), 30_000_000, f.ofi_30.entries)
    &&& is_recent(flows_of(ticks), 300_000_000, f.ofi_300.entries)
    &&& is_recent(trades_of(ticks), 30_000_000, f.vwap_30.entries)
    &&& is_recent(trades_of(ticks), 300_000_000, f.vwap_300.entries)
    &&& f.last == (if ticks.len() == 0 {
        None
    } else {
        Some((ticks.last().ts_micros, ticks.last().price))
    })
}

/// Whatever fused ticks and books there have been, in whatever order their times come: the
/// relative strength index has taken in every price, and each window holds what is recent.
pub proof fn accumulators_hold_the_history<N: Analytic>(
    states: Seq<FeatureView<N>>,
    inputs: Seq<Input<N>>,
)
    requires
        is_history(states, inputs),
    ensures
        holds_the_history(states.last(), ticks_of(inputs)),
    decreases inputs.len(),
{
    let ticks = ticks_of(inputs);
    if inputs.len() == 0 {
        assert(states.last() == states[0]);
        assert(is_unseeded(states[0]));
        assert(ticks.len() == 0);
        assert(prices_of(ticks) =~= Seq::empty());
    } else {
        shorter_history(states, inputs);
        let before = states.drop_last().last();
        let rest = ticks_of(inputs.drop_last());
        let after = states.last();
        if let Input::Tick(fused) = inputs.last() {
            assert(ticks == rest.push(fused));
            accumulators_hold_the_history(states.drop_last(), inputs.drop_last());
            assert(ticks.drop_last() =~= rest);
            let ts = fused.ts_micros;
            assert(prices_of(ticks).drop_last() =~= prices_of(rest));
            let (times, trades) = (times_of(ticks), trades_of(ticks));
            assert(times =~= times_of(rest).push(ts));
            let trade = (ts, fused.price.product(fused.volume), fused.volume);
            assert(trades =~= trades_of(rest).push(trade));
            windows_stay_recent(times_of(rest), 30_000_000, before.fast, ts);
            windows_stay_recent(times_of(rest), 1_800_000_000, before.slow, ts);
            windows_stay_recent(trades_of(rest), 30_000_000, before.vwap_30.entries, trade);
            windows_stay_recent(trades_of(rest), 300_000_000, before.vwap_300.entries, trade);
            if let Some(b) = fused.buy_ratio {
                let flow = (
                    ts,
                    fused.volume.product(b),
                    fused.volume.product(N::of_int(1).difference(b)),
                );
                assert(flows_of(ticks) == flows_of(rest).push(flow));
                windows_stay_recent(flows_of(rest), 5_000_000, before.ofi_5.entries, flow);
                windows_stay_recent(flows_of(rest), 30_000_000, before.ofi_30.entries, flow);
                windows_stay_recent(flows_of(rest), 300_000_000, before.ofi_300.entries, flow);
            }
            assert(ticks.last() == fused);
        } else {
            accumulators_hold_the_history(states.drop_last(), inputs.drop_last());
        }
    }
}

/// As long as time does not go back, each window holds exactly the ticks of its time, up to
/// the last one.
pub proof fn windows_hold_their_time<N: Analytic>(
    states: Seq<FeatureView<N>>,
    inputs: Seq<Input<N>>,
)
    requires
        is_history(states, inputs),
        run_forward(ticks_of(inputs)),
    ensures
        ({
            let f = states.last();
            let ticks = ticks_of(inputs);
            &&& is_window(times_of(ticks), 30_000_000, f.fast)
            &&& is_window(times_of(ticks), 1_800_000_000, f.slow)
            &&& is_window(flows_of(ticks), 5_000_000, f.ofi_5.entries)
            &&& is_window(flows_of(ticks), 30_000_000, f.ofi_30.entries)
            &&& is_window(flows_of(ticks), 300_000_000, f.ofi_300.entries)
            &&& is_window(trades_of(ticks), 30_000_000, f.vwap_30.entries)
            &&& is_window(trades_of(ticks), 300_000_000, f.vwap_300.entries)
        }),
{
    accumulators_hold_the_history(states, inputs);
    let f = states.last();
    let ticks = ticks_of(inputs);
    let (times, trades) = (times_of(ticks), trades_of(ticks));
    assert forall|i: int, j: int| 0 <= i <= j < times.len() implies times[i] <= times[j] by {
        assert(ticks[i].ts_micros <= ticks[j].ts_micros);
    }
    assert(in_order(times));
    assert forall|i: int, j: int| 0 <= i <= j < trades.len() implies (#[trigger] trades[i]).0 <= (
    #[trigger] trades[j]).0 by {
        assert(ticks[i].ts_micros <= ticks[j].ts_micros);
    }
    assert(in_order(trades));
    flows_are_ordered(ticks);
    recent_records_are_the_window(times, 30_000_000, f.fast);
    recent_records_are_the_window(times, 1_800_000_000, f.slow);
    recent_records_are_the_window(flows_of(ticks), 5_000_000, f.ofi_5.entries);
    recent_records_are_the_window(flows_of(ticks), 30_000_000, f.ofi_30.entries);
    recent_records_are_the_window(flows_of(ticks), 300_000_000, f.ofi_300.entries);
    recent_records_are_the_window(trades, 30_000_000, f.vwap_30.entries);
    recent_records_are_the_window(trades, 300_000_000, f.vwap_300.entries);
}

/// The running totals of a history are those of its windows.
pub open spec fn totals_add_up<N: Number>(d: spec_fn(N) -> Fixed, f: FeatureView<N>) -> bool {
    &&& adds_up(d, f.ofi_5)
    &&& adds_up(d, f.ofi_30)
    &&& adds_up(d, f.ofi_300)
    &&& adds_up(d, f.vwap_30)
    &&& adds_up(d, f.vwap_300)
}

/// In exact decimals nothing drifts: while the history's amounts together stay in range,
/// the running totals are those of the windows, and the session's those of all ticks.
pub proof fn totals_follow_the_history<N: Analytic>(
    d: spec_fn(N) -> Fixed,
    states: Seq<FeatureView<N>>,
    inputs: Seq<Input<N>>,
)
    requires
        counts_in_decimals(d),
        is_history(states, inputs),
        bulk(d, flows_of(ticks_of(inputs))) <= i64::MAX,
        bulk(d, trades_of(ticks_of(inputs))) <= i64::MAX,
    ensures
        totals_add_up(d, states.last()),
        units_in(d, states.last().session.pv_sum) == first_in(d, trades_of(ticks_of(inputs))),
        units_in(d, states.last().session.vol_sum) == second_in(d, trades_of(ticks_of(inputs))),
    decreases inputs.len(),
{
    let ticks = ticks_of(inputs);
    if inputs.len() == 0 {
        assert(states.last() == states[0]);
        assert(is_unseeded(states[0]));
        empty_window_adds_up::<N>(d, 5_000_000);
        empty_window_adds_up::<N>(d, 30_000_000);
        empty_window_adds_up::<N>(d, 300_000_000);
        assert(trades_of(ticks).len() == 0);
        reveal(counts_in_decimals);
        assert(Fixed::of_int(0).units == 0);
    } else {
        shorter_history(states, inputs);
        let before = states.drop_last().last();
        let rest = ticks_of(inputs.drop_last());
        let after = states.last();
        if let Input::Tick(fused) = inputs.last() {
            assert(ticks == rest.push(fused));
            assert(ticks.drop_last() =~= rest);
            let ts = fused.ts_micros;
            let (pv, vol) = (fused.price.product(fused.volume), fused.volume);
            let trade = (ts, pv, vol);
            let old_trades = trades_of(rest);
            let trades = trades_of(ticks);
            assert(trades =~= old_trades.push(trade));
            assert(trades.drop_last() =~= old_trades);
            let old_flows = flows_of(rest);
            if let Some(b) = fused.buy_ratio {
                let (x, y) = (
                    fused.volume.product(b),
                    fused.volume.product(N::of_int(1).difference(b)),
                );
                assert(flows_of(ticks) == old_flows.push((ts, x, y)));
                assert(flows_of(ticks).drop_last() =~= old_flows);
            }
            totals_follow_the_history(d, states.drop_last(), inputs.drop_last());
            accumulators_hold_the_history(states.drop_last(), inputs.drop_last());
            sums_follow_the_records(d, old_trades, 30_000_000, before.vwap_30, ts, pv, vol);
            sums_follow_the_records(d, old_trades, 300_000_000, before.vwap_300, ts, pv, vol);
            if let Some(b) = fused.buy_ratio {
                let (x, y) = (
                    fused.volume.product(b),
                    fused.volume.product(N::of_int(1).difference(b)),
                );
                sums_follow_the_records(d, old_flows, 5_000_000, before.ofi_5, ts, x, y);
                sums_follow_the_records(d, old_flows, 30_000_000, before.ofi_30, ts, x, y);
                sums_follow_the_records(d, old_flows, 300_000_000, before.ofi_300, ts, x, y);
            }
            crate::laws::windows::bulk_bounds(d, trades);
            reveal(counts_in_decimals);
        } else {
            totals_follow_the_history(d, states.drop_last(), inputs.drop_last());
        }
    }
}

// ---------------------------------------------------------------------------
// Order flow
// ---------------------------------------------------------------------------
/// An imbalance: bought less sold over both together; 0 where nothing was traded.
pub open spec fn tells_imbalance<N: Number>(
    d: spec_fn(N) -> Fixed,
    kept: Seq<(i64, N, N)>,
    x: N,
) -> bool {
    let (b, s) = (first_in(d, kept), second_in(d, kept));
    if b + s == 0 {
        units_in(d, x) == 0
    } else {
        &&& is_near(units_in(d, x), (b - s) * UNITS, b + s)
        &&& b >= s ==> units_in(d, x) >= 0
        &&& b <= s ==> units_in(d, x) <= 0
    }
}

/// A buy ratio: bought over bought and sold together; one half where nothing was traded.
pub open spec fn tells_bought_part<N: Number>(
    d: spec_fn(N) -> Fixed,
    kept: Seq<(i64, N, N)>,
    x: N,
) -> bool {
    let (b, s) = (first_in(d, kept), second_in(d, kept));
    if b + s == 0 {
        2 * units_in(d, x) == UNITS
    } else {
        is_near(units_in(d, x), b * UNITS, b + s)
    }
}

/// No amount is negative.
pub open spec fn are_amounts<N: Number>(d: spec_fn(N) -> Fixed, xs: Seq<(i64, N, N)>) -> bool {
    forall|i: int|
        0 <= i < xs.len() ==> units_in(d, (#[trigger] xs[i]).1) >= 0 && units_in(d, xs[i].2) >= 0
}

proof fn amounts_add_up<N: Number>(d: spec_fn(N) -> Fixed, xs: Seq<(i64, N, N)>)
    requires
        are_amounts(d, xs),
    ensures
        first_in(d, xs) >= 0,
        second_in(d, xs) >= 0,
        bulk(d, xs) == first_in(d, xs) + second_in(d, xs),
    decreases xs.len(),
{
    if xs.len() > 0 {
        let rest = xs.drop_last();
        assert(xs[xs.len() - 1] == xs.last());
        assert forall|i: int| 0 <= i < rest.len() implies units_in(d, (#[trigger] rest[i]).1) >= 0
            && units_in(d, rest[i].2) >= 0 by {
            assert(rest[i] == xs[i]);
        }
        amounts_add_up(d, rest);
    }
}

proof fn window_of_amounts<N: Number>(
    d: spec_fn(N) -> Fixed,
    all: Seq<(i64, N, N)>,
    window: int,
    kept: Seq<(i64, N, N)>,
)
    requires
        are_amounts(d, all),
        is_recent(all, window, kept),
        bulk(d, all) <= i64::MAX,
    ensures
        first_in(d, kept) >= 0,
        second_in(d, kept) >= 0,
        first_in(d, kept) + second_in(d, kept) <= i64::MAX,
{
    if all.len() > 0 {
        let k = choose|k: int|
            {
                &&& 0 <= k < all.len()
                &&& #[trigger] all.skip(k) == kept
                &&& all[k].0 >= all.last().0 - window
                &&& forall|i: int| 0 <= i < k ==> #[trigger] is_outlived(all, i, window)
            };
        assert forall|i: int| 0 <= i < kept.len() implies units_in(d, (#[trigger] kept[i]).1) >= 0
            && units_in(d, kept[i].2) >= 0 by {
            assert(kept[i] == all[i + k]);
        }
        amounts_add_up(d, kept);
        crate::laws::windows::part_is_no_bulkier(d, all, k);
    } else {
        assert(kept =~= Seq::empty());
    }
}

proof fn flow_is_told<N: Number>(d: spec_fn(N) -> Fixed, flow: SumsView<N>)
    requires
        counts_in_decimals(d),
        adds_up(d, flow),
        first_in(d, flow.entries) >= 0,
        second_in(d, flow.entries) >= 0,
        first_in(d, flow.entries) + second_in(d, flow.entries) <= i64::MAX,
    ensures
        tells_imbalance(d, flow.entries, flow_imbalance(flow)),
        tells_bought_part(d, flow.entries, flow_buy_ratio(flow)),
        units_in(d, flow_total(flow)) == first_in(d, flow.entries) + second_in(d, flow.entries),
{
    reveal(counts_in_decimals);
    let u = UNITS as int;
    assert(u == 100_000_000);
    let (b, s) = (first_in(d, flow.entries), second_in(d, flow.entries));
    assert(Fixed::of_int(0).units == 0 && Fixed::of_ratio(1, 2).units == 50_000_000);
    let total = d(flow_total(flow));
    assert(total.units == b + s);
    if b + s > 0 {
        let gap = d(flow.first).difference(d(flow.second));
        assert(gap.units == b - s);
        let t = b + s;
        assert(i64::MIN * t <= (b - s) * u <= i64::MAX * t && i64::MIN * t <= b * u <= i64::MAX * t)
            by (nonlinear_arith)
            requires
                b >= 0,
                s >= 0,
                t == b + s,
                u == 100_000_000,
        ;
        quotient_is_near(gap, total);
        quotient_is_near(d(flow.first), total);
    }
}

/// The order-flow features tell what was bought and sold in the last 5, 30 and 300
/// seconds.
pub proof fn flow_features_tell_what_was_bought<N: Analytic>(
    d: spec_fn(N) -> Fixed,
    states: Seq<FeatureView<N>>,
    inputs: Seq<Input<N>>,
    fused: FusedTick<N>,
    v: FeatureVector<N>,
)
    requires
        counts_in_decimals(d),
        is_history(states, inputs),
        are_amounts(d, flows_of(ticks_of(inputs))),
        bulk(d, flows_of(ticks_of(inputs))) <= i64::MAX,
        bulk(d, trades_of(ticks_of(inputs))) <= i64::MAX,
        describes(states.last(), fused, v),
    ensures
        ({
            let f = states.last();
            let all = flows_of(ticks_of(inputs));
            &&& is_recent(all, 5_000_000, f.ofi_5.entries)
            &&& is_recent(all, 30_000_000, f.ofi_30.entries)
            &&& is_recent(all, 300_000_000, f.ofi_300.entries)
            &&& run_forward(ticks_of(inputs)) ==> {
                &&& is_window(all, 5_000_000, f.ofi_5.entries)
                &&& is_window(all, 30_000_000, f.ofi_30.entries)
                &&& is_window(all, 300_000_000, f.ofi_300.entries)
            }
            &&& tells_imbalance(d, f.ofi_5.entries, v.ofi_5s)
            &&& tells_imbalance(d, f.ofi_30.entries, v.ofi_30s)
            &&& tells_imbalance(d, f.ofi_300.entries, v.ofi_300s)
            &&& units_in(d, v.ofi_delta_30s) == units_in(d, v.ofi_5s) - units_in(d, v.ofi_30s)
            &&& tells_bought_part(d, f.ofi_30.entries, v.buy_ratio_30s)
            &&& tells_bought_part(d, f.ofi_300.entries, v.buy_ratio_300s)
            &&& is_ratio_of(
                d,
                first_in(d, f.ofi_30.entries) + second_in(d, f.ofi_30.entries),
                first_in(d, f.ofi_300.entries) + second_in(d, f.ofi_300.entries),
                v.volume_ratio,
            )
        }),
{
    let f = states.last();
    let all = flows_of(ticks_of(inputs));
    accumulators_hold_the_history(states, inputs);
    totals_follow_the_history(d, states, inputs);
    if run_forward(ticks_of(inputs)) {
        windows_hold_their_time(states, inputs);
    }
    window_of_amounts(d, all, 5_000_000, f.ofi_5.entries);
    window_of_amounts(d, all, 30_000_000, f.ofi_30.entries);
    window_of_amounts(d, all, 300_000_000, f.ofi_300.entries);
    flow_is_told(d, f.ofi_5);
    flow_is_told(d, f.ofi_30);
    flow_is_told(d, f.ofi_300);
    imbalance_is_small(d, f.ofi_5.entries, v.ofi_5s);
    imbalance_is_small(d, f.ofi_30.entries, v.ofi_30s);
    assert(units_in(d, v.ofi_delta_30s) == units_in(d, v.ofi_5s) - units_in(d, v.ofi_30s)) by {
        reveal(counts_in_decimals);
    }
    ratio_is_near(d, flow_total(f.ofi_30), flow_total(f.ofi_300));
}

proof fn imbalance_is_small<N: Number>(d: spec_fn(N) -> Fixed, kept: Seq<(i64, N, N)>, x: N)
    requires
        tells_imbalance(d, kept, x),
        first_in(d, kept) >= 0,
        second_in(d, kept) >= 0,
    ensures
        -UNITS <= units_in(d, x) <= UNITS,
{
    let (b, s, y, u) = (first_in(d, kept), second_in(d, kept), units_in(d, x), UNITS as int);
    if b + s > 0 {
        let t = b + s;
        assert(-u <= y <= u) by (nonlinear_arith)
            requires
                (b - s) * u - t < y * t < (b - s) * u + t,
                b >= 0,
                s >= 0,
                t == b + s,
                t > 0,
                u > 0,
        ;
    }
}

// ---------------------------------------------------------------------------
// Ratios
// ---------------------------------------------------------------------------
/// A ratio of two numbers of units: none by 0, and else their quotient, up to a unit.
pub open spec fn is_ratio_of<N: Number>(
    d: spec_fn(N) -> Fixed,
    x: int,
    base: int,
    r: Option<N>,
) -> bool {
    if base == 0 {
        r is None
    } else {
        &&& r is Some
        &&& base > 0 && i64::MIN * base <= x * UNITS <= i64::MAX * base ==> is_near(
            units_in(d, r->0),
            x * UNITS,
            base,
        ) && (x >= 0 ==> units_in(d, r->0) >= 0) && (x <= 0 ==> units_in(d, r->0) <= 0)
    }
}

/// A ratio of two optional numbers: there where both are there and the base is not 0.
pub open spec fn is_ratio<N: Number>(
    d: spec_fn(N) -> Fixed,
    x: Option<N>,
    base: Option<N>,
    r: Option<N>,
) -> bool {
    match (x, base) {
        (Some(x), Some(b)) => is_ratio_of(d, units_in(d, x), units_in(d, b), r),
        _ => r is None,
    }
}

proof fn ratio_is_near<N: Number>(d: spec_fn(N) -> Fixed, x: N, b: N)
    requires
        counts_in_decimals(d),
    ensures
        is_ratio_of(
            d,
            units_in(d, x),
            units_in(d, b),
            crate::features::state::over(Some(x), Some(b)),
        ),
{
    reveal(counts_in_decimals);
    assert(Fixed::of_int(0).units == 0);
    let base = d(b);
    let p = units_in(d, x) * UNITS;
    if base.units > 0 && i64::MIN * base.units <= p <= i64::MAX * base.units {
        quotient_is_near(d(x), base);
    }
}

proof fn optional_ratio_is_near<N: Number>(d: spec_fn(N) -> Fixed, x: Option<N>, b: Option<N>)
    requires
        counts_in_decimals(d),
    ensures
        is_ratio(d, x, b, crate::features::state::over(x, b)),
{
    if let (Some(x), Some(b)) = (x, b) {
        ratio_is_near(d, x, b);
    }
}

/// The ratio features are ratios of the features that they are named after, and the
/// others that repeat one are equal to it.
pub proof fn ratio_features_are_ratios<N: Analytic>(
    d: spec_fn(N) -> Fixed,
    f: FeatureView<N>,
    fused: FusedTick<N>,
    v: FeatureVector<N>,
)
    requires
        counts_in_decimals(d),
        describes(f, fused, v),
    ensures
        is_ratio(d, v.vol_30s, v.vol_1800s, v.vol_ratio),
        is_ratio(d, v.vol_300s, v.vol_1800s, v.vol_regime),
        is_ratio(d, v.return_30s, v.vol_1800s, v.zreturn_30s),
        is_ratio(d, v.return_300s, v.vol_1800s, v.zreturn_300s),
        v.vol_1800s is Some && v.return_300s is Some && units_in(d, v.return_300s->0) > i64::MIN
            ==> is_ratio_of(
            d,
            size(units_in(d, v.return_300s->0)),
            units_in(d, v.vol_1800s->0),
            v.trend_strength,
        ),
        v.vol_1800s is None || v.return_300s is None ==> v.trend_strength is None,
        v.vol_1800s is None ==> units_in(d, v.vol_1800s_variance) == 0,
        v.vol_1800s matches Some(s) ==> (units_in(d, s) * units_in(d, s) <= i64::MAX * UNITS
            ==> is_near(
            units_in(d, v.vol_1800s_variance),
            units_in(d, s) * units_in(d, s),
            UNITS as int,
        )),
        units_in(d, fused.price) <= 0 ==> units_in(d, v.spread_pct) == 0,
        units_in(d, fused.price) > 0 ==> is_ratio_of(
            d,
            units_in(d, fused.cross_exchange_spread),
            units_in(d, fused.price),
            Some(v.spread_pct),
        ),
        v.price == fused.price,
        v.ts_micros == fused.ts_micros,
        v.inter_exchange_spread == fused.cross_exchange_spread,
        v.realised_vol_30s == v.vol_30s,
        v.book_imbalance_top5 == v.book_imbalance_5,
{
    optional_ratio_is_near(d, v.vol_30s, v.vol_1800s);
    optional_ratio_is_near(d, v.vol_300s, v.vol_1800s);
    optional_ratio_is_near(d, v.return_30s, v.vol_1800s);
    optional_ratio_is_near(d, v.return_300s, v.vol_1800s);
    if let (Some(r), Some(s)) = (v.return_300s, v.vol_1800s) {
        ratio_is_near(d, r.magnitude(), s);
        reveal(counts_in_decimals);
    }
    if let Some(s) = v.vol_1800s {
        let x = units_in(d, s);
        assert(0 <= x * x) by (nonlinear_arith);
        if x * x <= i64::MAX * UNITS {
            crate::laws::decimal::product_is_near(d(s), d(s));
        }
        reveal(counts_in_decimals);
    }
    ratio_is_near(d, fused.cross_exchange_spread, fused.price);
    reveal(counts_in_decimals);
    assert(Fixed::of_int(0).units == 0);
}

// ---------------------------------------------------------------------------
// Activity
// ---------------------------------------------------------------------------
/// A rate of events a second: one less than the events over the time that they took; 0 of
/// fewer than two, or where they took no time.
pub open spec fn tells_rate<N: Number>(d: spec_fn(N) -> Fixed, times: Seq<i64>, x: N) -> bool {
    if times.len() < 2 || times.last() == times.first() {
        units_in(d, x) == 0
    } else {
        is_near(
            units_in(d, x),
            (times.len() - 1) * UNITS * 1_000_000,
            times.last() - times.first(),
        )
    }
}

proof fn rate_is_told<N: Number>(d: spec_fn(N) -> Fixed, times: Seq<i64>)
    requires
        counts_in_decimals(d),
        times.len() > 0 ==> 0 <= times.last() - times.first() <= 90_000_000_000,
        times.len() <= 90_000,
    ensures
        tells_rate(d, times, tick_rate_of::<N>(times)),
        units_in(d, tick_rate_of::<N>(times)) >= 0,
{
    reveal(counts_in_decimals);
    let u = UNITS as int;
    assert(u == 100_000_000);
    assert(Fixed::of_int(0).units == 0);
    if times.len() >= 2 {
        let gap = times.last() - times.first();
        let n = times.len() as int;
        let span = Fixed::of_int(gap).quotient(Fixed::of_int(1_000_000));
        assert(Fixed::of_int(gap).units == gap * u);
        assert(Fixed::of_int(1_000_000).units == 1_000_000 * u);
        crate::laws::decimal::whole_part_is_near(Fixed::of_int(gap), 1_000_000);
        assert((gap * u) / 1_000_000 == gap * 100);
        assert(span.units == gap * 100);
        let count = Fixed::of_int(n).difference(Fixed::of_int(1));
        assert(count.units == (n - 1) * u);
        if gap > 0 {
            let x = count.units * u;
            assert(0 <= x <= i64::MAX * (gap * 100)) by (nonlinear_arith)
                requires
                    x == count.units * u,
                    count.units == (n - 1) * u,
                    u == 100_000_000,
                    1 <= n <= 90_000,
                    gap >= 1,
            ;
            quotient_is_near(count, span);
            let r = count.quotient(span).units as int;
            assert(x == 100 * ((n - 1) * u * 1_000_000)) by (nonlinear_arith)
                requires
                    x == count.units * u,
                    count.units == (n - 1) * u,
                    u == 100_000_000,
            ;
            assert(r * (gap * 100) == 100 * (r * gap)) by (nonlinear_arith);
        }
    }
}

/// The tick velocity is the rate of fused ticks over the last 30 seconds, and the activity
/// regime its ratio to that of the last half hour; 1 while there is none.
pub proof fn activity_tells_how_fast_ticks_come<N: Analytic>(
    d: spec_fn(N) -> Fixed,
    states: Seq<FeatureView<N>>,
    inputs: Seq<Input<N>>,
    fused: FusedTick<N>,
    v: FeatureVector<N>,
)
    requires
        counts_in_decimals(d),
        is_history(states, inputs),
        run_forward(ticks_of(inputs)),
        states.last().slow.len() <= 90_000,
        states.last().fast.len() <= 90_000,
        describes(states.last(), fused, v),
    ensures
        ({
            let f = states.last();
            let all = times_of(ticks_of(inputs));
            let rate = units_in(d, tick_rate_of::<N>(f.slow));
            &&& is_window(all, 30_000_000, f.fast)
            &&& is_window(all, 1_800_000_000, f.slow)
            &&& tells_rate(d, f.fast, v.tick_velocity)
            &&& tells_rate(d, f.slow, tick_rate_of::<N>(f.slow))
            &&& rate == 0 ==> units_in(d, v.activity_regime) == UNITS
            &&& rate > 0 ==> is_ratio_of(
                d,
                units_in(d, v.tick_velocity),
                rate,
                Some(v.activity_regime),
            )
        }),
{
    let f = states.last();
    let all = times_of(ticks_of(inputs));
    windows_hold_their_time(states, inputs);
    window_spans(all, 30_000_000, f.fast);
    window_spans(all, 1_800_000_000, f.slow);
    rate_is_told::<N>(d, f.fast);
    rate_is_told::<N>(d, f.slow);
    ratio_is_near(d, v.tick_velocity, tick_rate_of::<N>(f.slow));
    reveal(counts_in_decimals);
    assert(Fixed::of_int(0).units == 0 && Fixed::of_int(1).units == UNITS);
}

proof fn window_spans(all: Seq<i64>, window: int, kept: Seq<i64>)
    requires
        is_window(all, window, kept),
        window >= 0,
        forall|i: int, j: int| 0 <= i <= j < all.len() ==> all[i] <= all[j],
    ensures
        kept.len() > 0 ==> 0 <= kept.last() - kept.first() <= window,
{
    if kept.len() > 0 {
        let k = choose|k: int|
            {
                &&& 0 <= k <= all.len()
                &&& #[trigger] all.skip(k) == kept
                &&& forall|i: int| 0 <= i < k ==> #[trigger] all[i] < all.last() - window
                &&& forall|i: int| k <= i < all.len() ==> #[trigger] all[i] >= all.last() - window
            };
        assert(kept.first() == all[k]);
        assert(kept.last() == all[all.len() - 1]);
        assert(all.last() == all[all.len() - 1]);
    }
}

} // verus!
