//! What returns, volatilities and average prices say of the history before a tick.

use vstd::prelude::*;
use crate::features::flow::vwap_deviation_of;
use crate::features::per_tick::{is_tick_volatility, TickReturnsView};
use crate::features::running::SumsView;
use crate::features::state::{
    describes, is_history, is_unseeded, returns_described, taken_in, FeatureView, Input,
};
use crate::features::volatility::{
    from_reference, horizon_entries, reference_is_a_horizon_old, return_over, return_recorded,
    sample_variance, volatility_recorded, without_ancient,
};
use crate::features::FeatureVector;
use crate::laws::decimal::{
    counts_in_decimals, division_is_near, is_near, product_is_near, quotient_is_near, units_in,
    whole_part_is_near,
};
use crate::laws::features::{
    accumulators_hold_the_history, flows_of, run_forward, shorter_history, ticks_of,
    totals_follow_the_history, trades_of, windows_hold_their_time,
};
use crate::laws::windows::{
    adds_up, bulk, empty_window_adds_up, first_in, is_recent, is_window,
    recent_records_are_the_window, second_in, sums_follow_the_records, windows_stay_recent,
};
use crate::number::{is_exp, is_ln, is_sqrt, towards_zero, Analytic, Fixed, Number, UNITS};
use crate::price_fusion::FusedTick;
use crate::window::in_order;

verus! {

// ---------------------------------------------------------------------------
// Returns
// ---------------------------------------------------------------------------
/// `logs` are the times and log-prices of the ticks that have a positive price.
pub open spec fn are_logs<N: Analytic>(ticks: Seq<FusedTick<N>>, logs: Seq<(i64, N)>) -> bool
    decreases ticks.len(),
{
    if ticks.len() == 0 {
        logs.len() == 0
    } else if N::of_int(0).is_below(ticks.last().price) {
        &&& logs.len() > 0
        &&& logs.last().0 == ticks.last().ts_micros
        &&& is_ln(ticks.last().price, logs.last().1)
        &&& are_logs(ticks.drop_last(), logs.drop_last())
    } else {
        are_logs(ticks.drop_last(), logs)
    }
}

/// The `k`-th log-price is the reference of a horizon at a time: the latest one that is at
/// least a horizon old and not more than twice as old (or the newest one of all); where
/// there is none, the first one that is younger.
pub open spec fn is_reference<N>(logs: Seq<(i64, N)>, ts: int, horizon: int, k: int) -> bool {
    &&& 0 <= k < logs.len()
    &&& forall|i: int| k < i < logs.len() ==> (#[trigger] logs[i]).0 > ts - horizon
    &&& if logs[k].0 <= ts - horizon {
        logs[k].0 >= ts - 2 * horizon || k == logs.len() - 1
    } else {
        k == 0 || logs[k - 1].0 < ts - 2 * horizon
    }
}

/// What a horizon keeps: the log-prices from the reference on.
pub open spec fn keeps_from_reference<N>(
    logs: Seq<(i64, N)>,
    ts: int,
    horizon: int,
    kept: Seq<(i64, N)>,
) -> bool {
    if logs.len() == 0 {
        kept.len() == 0
    } else {
        exists|k: int| #[trigger] is_reference(logs, ts, horizon, k) && kept == logs.skip(k)
    }
}

/// The times of some log-prices never go back.
pub open spec fn logs_in_order<N>(logs: Seq<(i64, N)>) -> bool {
    forall|i: int, j: int|
        0 <= i <= j < logs.len() ==> (#[trigger] logs[i]).0 <= (#[trigger] logs[j]).0
}

proof fn reference_moves<N>(
    logs: Seq<(i64, N)>,
    horizon: int,
    ts: int,
    k: int,
)
    requires
        logs_in_order(logs),
        horizon >= 0,
        0 <= k < logs.len(),
        k > 0 ==> logs[k - 1].0 < ts - 2 * horizon || logs[k].0 <= ts - horizon,
    ensures
        exists|m: int| #[trigger]
            is_reference(logs, ts, horizon, m) && horizon_entries(logs.skip(k), ts, horizon)
                == logs.skip(m),
{
    let kept = logs.skip(k);
    let limit = ts - horizon;
    let cutoff = ts - horizon * 2;
    assert(kept.len() > 0);
    if kept[0].0 <= limit {
        let m = last_at(kept, limit, 0);
        assert forall|i: int, j: int| 0 <= i <= j < kept.len() implies kept[i].0 <= kept[j].0 by {
            assert(kept[i] == logs[i + k] && kept[j] == logs[j + k]);
        }
        reference_is_a_horizon_old(kept, limit, m);
        let from = from_reference(kept, limit);
        assert(from =~= logs.skip(k + m));
        assert(from[0] == logs[k + m]);
        assert forall|i: int| k + m < i < logs.len() implies (#[trigger] logs[i]).0 > limit by {
            assert(kept[i - k] == logs[i]);
        }
        assert(kept[m] == logs[k + m]);
        if from.len() > 1 && from[0].0 < cutoff {
            let next = from.drop_first();
            assert(next =~= logs.skip(k + m + 1));
            assert(next[0] == logs[k + m + 1]);
            assert(logs[k + m + 1].0 > limit);
            assert(without_ancient(from, cutoff) == without_ancient(next, cutoff));
            assert(without_ancient(next, cutoff) == next);
            assert(is_reference(logs, ts, horizon, k + m + 1)) by {
                assert(logs[(k + m + 1) - 1] == logs[k + m]);
            }
        } else {
            assert(without_ancient(from, cutoff) == from);
            assert(is_reference(logs, ts, horizon, k + m));
        }
    } else {
        assert(kept[0] == logs[k]);
        if kept.len() > 1 {
            assert(kept[1] == logs[k + 1]);
            assert(logs[k].0 <= logs[k + 1].0);
        }
        assert(from_reference(kept, limit) == kept);
        assert(without_ancient(kept, cutoff) == kept);
        assert forall|i: int| k < i < logs.len() implies (#[trigger] logs[i]).0 > limit by {
            assert(logs[k].0 <= logs[i].0);
        }
        assert(is_reference(logs, ts, horizon, k));
    }
}

proof fn last_at<N>(xs: Seq<(i64, N)>, limit: int, from: int) -> (m: int)
    requires
        0 <= from < xs.len(),
        xs[from].0 <= limit,
        forall|i: int, j: int| 0 <= i <= j < xs.len() ==> xs[i].0 <= xs[j].0,
    ensures
        0 <= m < xs.len(),
        xs[m].0 <= limit,
        forall|i: int| m < i < xs.len() ==> (#[trigger] xs[i]).0 > limit,
    decreases xs.len() - from,
{
    if from + 1 < xs.len() && xs[from + 1].0 <= limit {
        last_at(xs, limit, from + 1)
    } else {
        if from + 1 < xs.len() {
            assert forall|i: int| from < i < xs.len() implies (#[trigger] xs[i]).0 > limit by {
                assert(xs[from + 1].0 <= xs[i].0);
            }
        }
        from
    }
}

/// A choice of one of the horizons.
pub open spec fn tracks_returns<N: Analytic>(
    pick: spec_fn(FeatureView<N>) -> Seq<(i64, N)>,
    horizon: int,
    states: Seq<FeatureView<N>>,
    inputs: Seq<Input<N>>,
) -> bool {
    &&& pick(states[0]).len() == 0
    &&& forall|i: int|
        0 <= i < inputs.len() ==> match #[trigger] inputs[i] {
            Input::Tick(t) => return_recorded(
                pick(states[i]),
                pick(states[i + 1]),
                t.ts_micros,
                t.price,
                horizon,
            ),
            Input::Book(_) => pick(states[i + 1]) == pick(states[i]),
        }
}

proof fn returns_are_tracked<N: Analytic>(
    pick: spec_fn(FeatureView<N>) -> Seq<(i64, N)>,
    horizon: int,
    states: Seq<FeatureView<N>>,
    inputs: Seq<Input<N>>,
) -> (logs: Seq<(i64, N)>)
    requires
        horizon >= 0,
        states.len() == inputs.len() + 1,
        tracks_returns(pick, horizon, states, inputs),
        run_forward(ticks_of(inputs)),
    ensures
        are_logs(ticks_of(inputs), logs),
        logs_in_order(logs),
        logs.len() > 0 ==> ticks_of(inputs).len() > 0 && logs.last().0
            <= ticks_of(inputs).last().ts_micros && keeps_from_reference(
            logs,
            ticks_of(inputs).last().ts_micros as int,
            horizon,
            pick(states.last()),
        ),
        logs.len() == 0 ==> pick(states.last()).len() == 0,
    decreases inputs.len(),
{
    let ticks = ticks_of(inputs);
    if inputs.len() == 0 {
        assert(states.last() == states[0]);
        Seq::empty()
    } else {
        let (s, x) = (states.drop_last(), inputs.drop_last());
        let n = inputs.len() - 1;
        let rest = ticks_of(x);
        let (before, after) = (states[n], states[n + 1]);
        assert(tracks_returns(pick, horizon, s, x)) by {
            assert forall|i: int| 0 <= i < x.len() implies match #[trigger] x[i] {
                Input::Tick(t) => return_recorded(
                    pick(s[i]),
                    pick(s[i + 1]),
                    t.ts_micros,
                    t.price,
                    horizon,
                ),
                Input::Book(_) => pick(s[i + 1]) == pick(s[i]),
            } by {
                assert(inputs[i] == x[i]);
            }
        }
        assert(inputs[n] == inputs.last());
        match inputs.last() {
            Input::Tick(t) => {
                assert(ticks == rest.push(t));
                assert(ticks.drop_last() =~= rest);
                assert forall|i: int, j: int| 0 <= i <= j < rest.len() implies (
                #[trigger] rest[i]).ts_micros <= (#[trigger] rest[j]).ts_micros by {
                    assert(rest[i] == ticks[i] && rest[j] == ticks[j]);
                }
                let old_logs = returns_are_tracked(pick, horizon, s, x);
                assert(s.last() == before);
                let ts = t.ts_micros as int;
                if rest.len() > 0 {
                    assert(ticks[n_of(rest)].ts_micros <= ticks[n_of(rest) + 1].ts_micros);
                    assert(ticks[n_of(rest)] == rest.last());
                    assert(ticks[n_of(rest) + 1] == t);
                }
                let k = if old_logs.len() > 0 {
                    let k = choose|k: int| #[trigger]
                        is_reference(old_logs, rest.last().ts_micros as int, horizon, k) && pick(
                            before,
                        ) == old_logs.skip(k);
                    k
                } else {
                    0
                };
                if N::of_int(0).is_below(t.price) {
                    let lp = choose|lp: N| #[trigger]
                        is_ln(t.price, lp) && pick(after) == horizon_entries(
                            pick(before).push((t.ts_micros, lp)),
                            ts,
                            horizon,
                        );
                    let logs = old_logs.push((t.ts_micros, lp));
                    assert(logs.drop_last() =~= old_logs);
                    assert(logs_in_order(logs)) by {
                        assert forall|i: int, j: int| 0 <= i <= j < logs.len() implies (
                        #[trigger] logs[i]).0 <= (#[trigger] logs[j]).0 by {
                            if j < old_logs.len() {
                                assert(logs[i] == old_logs[i] && logs[j] == old_logs[j]);
                            } else if i < j {
                                assert(old_logs[i].0 <= old_logs[old_logs.len() - 1].0);
                                assert(logs[i] == old_logs[i]);
                            }
                        }
                    }
                    assert(pick(before).push((t.ts_micros, lp)) =~= logs.skip(k));
                    if k > 0 {
                        assert(logs[k - 1] == old_logs[k - 1] && logs[k] == old_logs[k]);
                    }
                    reference_moves(logs, horizon, ts, k);
                    logs
                } else {
                    if old_logs.len() > 0 {
                        reference_moves(old_logs, horizon, ts, k);
                    } else {
                        assert(pick(before) =~= Seq::empty());
                    }
                    old_logs
                }
            },
            Input::Book(_) => {
                let logs = returns_are_tracked(pick, horizon, s, x);
                assert(s.last() == before);
                logs
            },
        }
    }
}

spec fn n_of<T>(xs: Seq<T>) -> int {
    xs.len() - 1
}

/// A return over a horizon: from the reference price's logarithm to that of the price now;
/// none before the kept prices span half the horizon.
pub open spec fn tells_return<N: Analytic>(
    logs: Seq<(i64, N)>,
    ts: int,
    horizon: int,
    k: int,
    log_price: N,
    r: Option<N>,
) -> bool {
    if logs.len() == 0 {
        r is None
    } else {
        &&& is_reference(logs, ts, horizon, k)
        &&& if 2 * (logs.last().0 - logs[k].0) < horizon {
            r is None
        } else {
            r == Some(log_price.difference(logs[k].1))
        }
    }
}

/// The returns of a tick go from the prices 5, 30 and 300 seconds ago to its own.
pub proof fn returns_span_their_horizons<N: Analytic>(
    states: Seq<FeatureView<N>>,
    inputs: Seq<Input<N>>,
    fused: FusedTick<N>,
    v: FeatureVector<N>,
) -> (r: (N, (Seq<(i64, N)>, int), (Seq<(i64, N)>, int), (Seq<(i64, N)>, int)))
    requires
        is_history(states, inputs),
        inputs.len() > 0,
        inputs.last() == Input::Tick(fused),
        run_forward(ticks_of(inputs)),
        describes(states.last(), fused, v),
    ensures
        N::of_int(0).is_below(fused.price) ==> is_ln(fused.price, r.0),
        !N::of_int(0).is_below(fused.price) ==> r.0 == N::of_int(0),
        are_logs(ticks_of(inputs), r.1.0),
        are_logs(ticks_of(inputs), r.2.0),
        are_logs(ticks_of(inputs), r.3.0),
        tells_return(r.1.0, fused.ts_micros as int, 5_000_000, r.1.1, r.0, v.return_5s),
        tells_return(r.2.0, fused.ts_micros as int, 30_000_000, r.2.1, r.0, v.return_30s),
        tells_return(r.3.0, fused.ts_micros as int, 300_000_000, r.3.1, r.0, v.return_300s),
{
    let f = states.last();
    let lp = choose|lp: N| #[trigger] returns_described(f, fused.price, lp, v);
    let ts = fused.ts_micros as int;
    let (p5, p30, p300) = (
        |f: FeatureView<N>| f.ret_5s,
        |f: FeatureView<N>| f.ret_30s,
        |f: FeatureView<N>| f.ret_300s,
    );
    assert(is_unseeded(states[0]));
    assert forall|i: int| 0 <= i < inputs.len() implies taken_in(
        states[i],
        #[trigger] inputs[i],
        states[i + 1],
    ) by {}
    assert(tracks_returns(p5, 5_000_000, states, inputs));
    assert(tracks_returns(p30, 30_000_000, states, inputs));
    assert(tracks_returns(p300, 300_000_000, states, inputs));
    let a = returns_are_tracked(p5, 5_000_000, states, inputs);
    let b = returns_are_tracked(p30, 30_000_000, states, inputs);
    let c = returns_are_tracked(p300, 300_000_000, states, inputs);
    assert(ticks_of(inputs).last() == fused);
    (
        lp,
        (a, reference_of(a, ts, 5_000_000, f.ret_5s, lp)),
        (b, reference_of(b, ts, 30_000_000, f.ret_30s, lp)),
        (c, reference_of(c, ts, 300_000_000, f.ret_300s, lp)),
    )
}

proof fn reference_of<N: Analytic>(
    logs: Seq<(i64, N)>,
    ts: int,
    horizon: int,
    kept: Seq<(i64, N)>,
    lp: N,
) -> (k: int)
    requires
        keeps_from_reference(logs, ts, horizon, kept),
        horizon > 0,
        horizon % 2 == 0,
    ensures
        tells_return(logs, ts, horizon, k, lp, return_over(kept, horizon, lp)),
{
    if logs.len() == 0 {
        0
    } else {
        let k = choose|k: int| #[trigger]
            is_reference(logs, ts, horizon, k) && kept == logs.skip(k);
        assert(kept.last() == logs.last() && kept[0] == logs[k]);
        k
    }
}

proof fn reference_drops<N>(xs: Seq<(i64, N)>, limit: int) -> (k: int)
    ensures
        0 <= k,
        xs.len() > 0 ==> k < xs.len(),
        xs.len() == 0 ==> k == 0,
        from_reference(xs, limit) == xs.skip(k),
        forall|i: int| 0 < i <= k ==> (#[trigger] xs[i]).0 <= limit,
        k + 1 < xs.len() ==> xs[k + 1].0 > limit,
    decreases xs.len(),
{
    if xs.len() > 1 && xs[1].0 <= limit {
        let rest = xs.drop_first();
        let k = reference_drops(rest, limit);
        assert(rest.skip(k) =~= xs.skip(k + 1));
        assert forall|i: int| 0 < i <= k + 1 implies (#[trigger] xs[i]).0 <= limit by {
            if i > 1 {
                assert(rest[i - 1] == xs[i]);
            }
        }
        if k + 2 < xs.len() {
            assert(rest[k + 1] == xs[k + 2]);
        }
        k + 1
    } else {
        assert(xs.skip(0) =~= xs);
        0
    }
}

proof fn ancient_drops<N>(xs: Seq<(i64, N)>, cutoff: int) -> (k: int)
    ensures
        0 <= k,
        xs.len() > 0 ==> k < xs.len(),
        xs.len() == 0 ==> k == 0,
        without_ancient(xs, cutoff) == xs.skip(k),
        forall|i: int| 0 <= i < k ==> (#[trigger] xs[i]).0 < cutoff,
        k + 1 < xs.len() ==> xs[k].0 >= cutoff,
    decreases xs.len(),
{
    if xs.len() > 1 && xs[0].0 < cutoff {
        let rest = xs.drop_first();
        let k = ancient_drops(rest, cutoff);
        assert(rest.skip(k) =~= xs.skip(k + 1));
        assert forall|i: int| 0 <= i < k + 1 implies (#[trigger] xs[i]).0 < cutoff by {
            if i > 0 {
                assert(rest[i - 1] == xs[i]);
            }
        }
        if k + 2 < xs.len() {
            assert(rest[k] == xs[k + 1]);
        }
        k + 1
    } else {
        assert(xs.skip(0) =~= xs);
        0
    }
}

/// In whatever order the times come, a horizon loses a price only to a later one that is
/// at least a horizon old, or because it is more than two horizons old; the newest price
/// always stays. A positive price is recorded by its logarithm, any other is passed over.
pub proof fn horizons_lose_only_old_prices<N: Analytic>(
    before: Seq<(i64, N)>,
    after: Seq<(i64, N)>,
    ts: i64,
    price: N,
    horizon: int,
) -> (r: (Seq<(i64, N)>, int, int))
    requires
        return_recorded(before, after, ts, price, horizon),
    ensures
        ({
            let (all, k, m) = r;
            &&& N::of_int(0).is_below(price) ==> all.len() == before.len() + 1 && all.drop_last()
                == before && all.last().0 == ts && is_ln(price, all.last().1)
            &&& !N::of_int(0).is_below(price) ==> all == before
            &&& 0 <= k
            &&& 0 <= m
            &&& all.len() > 0 ==> k + m < all.len()
            &&& after == all.skip(k + m)
            &&& forall|i: int| 0 < i <= k ==> (#[trigger] all[i]).0 <= ts - horizon
            &&& k + 1 < all.len() ==> all[k + 1].0 > ts - horizon
            &&& forall|i: int| k <= i < k + m ==> (#[trigger] all[i]).0 < ts - 2 * horizon
            &&& k + m + 1 < all.len() ==> all[k + m].0 >= ts - 2 * horizon
        }),
{
    let all = if N::of_int(0).is_below(price) {
        let lp = choose|lp: N| #[trigger]
            is_ln(price, lp) && after == horizon_entries(
                before.push((ts, lp)),
                ts as int,
                horizon,
            );
        before.push((ts, lp))
    } else {
        before
    };
    if N::of_int(0).is_below(price) {
        assert(all.drop_last() =~= before);
    }
    let k = reference_drops(all, ts - horizon);
    let rest = all.skip(k);
    let m = ancient_drops(rest, ts - horizon * 2);
    assert(rest.skip(m) =~= all.skip(k + m));
    assert forall|i: int| k <= i < k + m implies (#[trigger] all[i]).0 < ts - 2 * horizon by {
        assert(rest[i - k] == all[i]);
    }
    if k + m + 1 < all.len() {
        assert(rest[m] == all[k + m]);
    }
    (all, k, m)
}

/// The momentum of a horizon is the exponential of its return less one, and there exactly
/// when the return is.
pub proof fn momentum_is_the_return_as_a_fraction<N: Analytic>(
    d: spec_fn(N) -> Fixed,
    f: FeatureView<N>,
    fused: FusedTick<N>,
    v: FeatureVector<N>,
) -> (r: (N, N))
    requires
        counts_in_decimals(d),
        describes(f, fused, v),
    ensures
        v.momentum_micro is Some <==> v.return_30s is Some,
        v.momentum_short is Some <==> v.return_300s is Some,
        v.return_30s matches Some(x) ==> is_exp(x, r.0) && (units_in(d, r.0) >= 0 ==> units_in(
            d,
            v.momentum_micro->0,
        ) == units_in(d, r.0) - UNITS),
        v.return_300s matches Some(x) ==> is_exp(x, r.1) && (units_in(d, r.1) >= 0 ==> units_in(
            d,
            v.momentum_short->0,
        ) == units_in(d, r.1) - UNITS),
{
    reveal(counts_in_decimals);
    assert(Fixed::of_int(1).units == UNITS);
    let a = if v.return_30s is Some {
        choose|e: N| #[trigger]
            is_exp(v.return_30s->0, e) && v.momentum_micro == Some(e.difference(N::of_int(1)))
    } else {
        N::of_int(0)
    };
    let b = if v.return_300s is Some {
        choose|e: N| #[trigger]
            is_exp(v.return_300s->0, e) && v.momentum_short == Some(e.difference(N::of_int(1)))
    } else {
        N::of_int(0)
    };
    assert(d(N::of_int(1)) == Fixed::of_int(1));
    assert(d(a.difference(N::of_int(1))) == d(a).difference(d(N::of_int(1))));
    assert(d(b.difference(N::of_int(1))) == d(b).difference(d(N::of_int(1))));
    (a, b)
}

// ---------------------------------------------------------------------------
// Volatility
// ---------------------------------------------------------------------------
/// `moves` are the times, log-returns and squared log-returns from each tick to the next,
/// where both have a positive price.
pub open spec fn are_moves<N: Analytic>(ticks: Seq<FusedTick<N>>, moves: Seq<(i64, N, N)>) -> bool
    decreases ticks.len(),
{
    if ticks.len() < 2 {
        moves.len() == 0
    } else {
        let (prev, t) = (ticks[ticks.len() - 2], ticks.last());
        if N::of_int(0).is_below(prev.price) && N::of_int(0).is_below(t.price) {
            &&& moves.len() > 0
            &&& moves.last().0 == t.ts_micros
            &&& is_ln(t.price.quotient(prev.price), moves.last().1)
            &&& moves.last().2 == moves.last().1.product(moves.last().1)
            &&& are_moves(ticks.drop_last(), moves.drop_last())
        } else {
            are_moves(ticks.drop_last(), moves)
        }
    }
}

/// A choice of one of the volatility windows.
pub open spec fn tracks_moves<N: Analytic>(
    pick: spec_fn(FeatureView<N>) -> SumsView<N>,
    window: int,
    states: Seq<FeatureView<N>>,
    inputs: Seq<Input<N>>,
) -> bool {
    &&& pick(states[0]) == SumsView::<N>::empty(window)
    &&& forall|i: int|
        0 <= i < inputs.len() ==> match #[trigger] inputs[i] {
            Input::Tick(t) => volatility_recorded(
                pick(states[i]),
                states[i].last,
                t.ts_micros,
                t.price,
                pick(states[i + 1]),
            ),
            Input::Book(_) => pick(states[i + 1]) == pick(states[i]),
        }
}

proof fn moves_are_tracked<N: Analytic>(
    d: spec_fn(N) -> Fixed,
    pick: spec_fn(FeatureView<N>) -> SumsView<N>,
    window: int,
    states: Seq<FeatureView<N>>,
    inputs: Seq<Input<N>>,
) -> (moves: Seq<(i64, N, N)>)
    requires
        counts_in_decimals(d),
        window >= 0,
        is_history(states, inputs),
        tracks_moves(pick, window, states, inputs),
    ensures
        are_moves(ticks_of(inputs), moves),
        pick(states.last()).window == window,
        is_recent(moves, window, pick(states.last()).entries),
        bulk(d, moves) <= i64::MAX ==> adds_up(d, pick(states.last())),
    decreases inputs.len(),
{
    let ticks = ticks_of(inputs);
    if inputs.len() == 0 {
        assert(states.last() == states[0]);
        empty_window_adds_up::<N>(d, window);
        Seq::empty()
    } else {
        shorter_history(states, inputs);
        let (s, x) = (states.drop_last(), inputs.drop_last());
        let n = inputs.len() - 1;
        let rest = ticks_of(x);
        let (before, after) = (states[n], states[n + 1]);
        assert(s.last() == before);
        assert(tracks_moves(pick, window, s, x)) by {
            assert forall|i: int| 0 <= i < x.len() implies match #[trigger] x[i] {
                Input::Tick(t) => volatility_recorded(
                    pick(s[i]),
                    s[i].last,
                    t.ts_micros,
                    t.price,
                    pick(s[i + 1]),
                ),
                Input::Book(_) => pick(s[i + 1]) == pick(s[i]),
            } by {
                assert(inputs[i] == x[i]);
            }
        }
        assert(inputs[n] == inputs.last());
        match inputs.last() {
            Input::Tick(t) => {
                assert(ticks == rest.push(t));
                assert(ticks.drop_last() =~= rest);
                let old_moves = moves_are_tracked(d, pick, window, s, x);
                accumulators_hold_the_history(s, x);
                let zero = N::of_int(0);
                if rest.len() > 0 {
                    assert(ticks[ticks.len() - 2] == rest.last());
                }
                if rest.len() > 0 && zero.is_below(rest.last().price) && zero.is_below(t.price) {
                    let r = choose|r: N| #[trigger]
                        is_ln(t.price.quotient(rest.last().price), r) && pick(after) == pick(
                            before,
                        ).updated(t.ts_micros, r, r.product(r));
                    let e = (t.ts_micros, r, r.product(r));
                    let moves = old_moves.push(e);
                    assert(moves.drop_last() =~= old_moves);
                    windows_stay_recent(old_moves, window, pick(before).entries, e);
                    if bulk(d, moves) <= i64::MAX {
                        sums_follow_the_records(
                            d,
                            old_moves,
                            window,
                            pick(before),
                            t.ts_micros,
                            r,
                            r.product(r),
                        );
                    }
                    moves
                } else {
                    assert(pick(after) == pick(before));
                    old_moves
                }
            },
            Input::Book(_) => {
                let moves = moves_are_tracked(d, pick, window, s, x);
                moves
            },
        }
    }
}

proof fn moves_run_forward<N: Analytic>(ticks: Seq<FusedTick<N>>, moves: Seq<(i64, N, N)>)
    requires
        are_moves(ticks, moves),
        run_forward(ticks),
    ensures
        in_order(moves),
        moves.len() > 0 ==> ticks.len() > 0 && moves.last().0 <= ticks.last().ts_micros,
    decreases ticks.len(),
{
    if ticks.len() >= 2 {
        let rest = ticks.drop_last();
        assert forall|i: int, j: int| 0 <= i <= j < rest.len() implies (
        #[trigger] rest[i]).ts_micros <= (#[trigger] rest[j]).ts_micros by {
            assert(rest[i] == ticks[i] && rest[j] == ticks[j]);
        }
        assert(ticks[ticks.len() - 2].ts_micros <= ticks[ticks.len() - 1].ts_micros);
        assert(rest.last() == ticks[ticks.len() - 2]);
        if N::of_int(0).is_below(ticks[ticks.len() - 2].price) && N::of_int(0).is_below(
            ticks.last().price,
        ) {
            let old_moves = moves.drop_last();
            moves_run_forward(rest, old_moves);
            assert forall|i: int, j: int| 0 <= i <= j < moves.len() implies (
            #[trigger] moves[i]).0 <= (#[trigger] moves[j]).0 by {
                if j < old_moves.len() {
                    assert(moves[i] == old_moves[i] && moves[j] == old_moves[j]);
                    assert(old_moves[i].0 <= old_moves[j].0);
                } else if i < j {
                    assert(old_moves[i].0 <= old_moves[old_moves.len() - 1].0);
                    assert(moves[i] == old_moves[i]);
                }
            }
            assert(in_order(moves));
        } else {
            moves_run_forward(rest, moves);
        }
    }
}

/// `x` is the sample variance of `n` values, given their sum and the sum of their squares
/// in units, up to what exact decimals drop.
pub open spec fn is_variance(x: int, n: int, sum: int, squares: int) -> bool {
    let u = UNITS as int;
    let exact = n * u * squares - sum * sum;
    let slack = u + n * u + n * u * (n - 1);
    exact - slack <= n * u * (n - 1) * x <= exact + slack
}

proof fn variance_is_near<N: Number>(d: spec_fn(N) -> Fixed, n: int, sum: N, squares: N)
    requires
        counts_in_decimals(d),
        2 <= n <= 1_000_000,
        units_in(d, sum) * units_in(d, sum) <= 4_000_000_000_000_000_000 * UNITS,
        0 <= units_in(d, squares) <= 4_000_000_000_000_000_000,
    ensures
        is_variance(
            units_in(d, sample_variance(n as nat, sum, squares)),
            n,
            units_in(d, sum),
            units_in(d, squares),
        ),
{
    reveal(counts_in_decimals);
    let u = UNITS as int;
    assert(u == 100_000_000);
    let (s, a) = (units_in(d, sum), units_in(d, squares));
    let ss = s * s;
    assert(ss >= 0) by (nonlinear_arith)
        requires
            ss == s * s,
    ;
    product_is_near(d(sum), d(sum));
    division_is_near(ss, u);
    let q = d(sum).product(d(sum)).units as int;
    assert(ss - u < q * u <= ss && q >= 0);
    let whole = Fixed::of_int(n);
    whole_part_is_near(d(sum).product(d(sum)), n);
    let q2 = d(sum).product(d(sum)).quotient(whole).units as int;
    assert(q - n < q2 * n <= q && 0 <= q2 <= q) by {
        division_is_near(q, n);
    }
    assert(q <= 4_000_000_000_000_000_000) by (nonlinear_arith)
        requires
            q * u <= ss,
            ss <= 4_000_000_000_000_000_000 * u,
            u == 100_000_000,
    ;
    let gap = a - q2;
    let diff = d(squares).difference(d(sum).product(d(sum)).quotient(whole));
    assert(diff.units == gap);
    assert(whole.difference(Fixed::of_int(1)) == Fixed::of_int(n - 1));
    whole_part_is_near(diff, n - 1);
    let x = diff.quotient(Fixed::of_int(n - 1)).units as int;
    assert(units_in(d, sample_variance(n as nat, sum, squares)) == x);
    let m = n - 1;
    assert(gap - m < x * m < gap + m);
    // n u m x is n u gap up to n u m; n u q2 is u q up to n u; u q is the square up to u.
    let nu = n * u;
    assert(nu * gap - nu * m <= nu * (x * m) <= nu * gap + nu * m) by (nonlinear_arith)
        requires
            gap - m < x * m < gap + m,
            nu > 0,
    ;
    assert(u * q - nu <= u * (q2 * n) <= u * q) by (nonlinear_arith)
        requires
            q - n < q2 * n <= q,
            nu == n * u,
            u == 100_000_000,
    ;
    assert(nu * gap == nu * a - u * (q2 * n)) by (nonlinear_arith)
        requires
            gap == a - q2,
            nu == n * u,
    ;
    assert(u * q == q * u) by (nonlinear_arith);
    assert(n * u * (n - 1) * x == nu * (x * m)) by (nonlinear_arith)
        requires
            nu == n * u,
            m == n - 1,
    ;
    assert(n * u * (n - 1) == nu * m) by (nonlinear_arith)
        requires
            nu == n * u,
            m == n - 1,
    ;
}

/// A volatility: the square root of the sample variance of a window's returns, taken from
/// two returns on, where a variance below 0 counts as 0.
pub open spec fn tells_volatility<N: Analytic>(
    d: spec_fn(N) -> Fixed,
    kept: Seq<(i64, N, N)>,
    radicand: N,
    variance: int,
    v: Option<N>,
) -> bool {
    match v {
        None => kept.len() < 2,
        Some(sigma) => {
            &&& kept.len() >= 2
            &&& is_sqrt(radicand, sigma)
            &&& units_in(d, radicand) == (if variance > 0 { variance } else { 0 })
            &&& is_variance(variance, kept.len() as int, first_in(d, kept), second_in(d, kept))
        },
    }
}

/// A window that exact decimals can take the variance of.
pub open spec fn is_small_window<N: Number>(d: spec_fn(N) -> Fixed, kept: Seq<(i64, N, N)>) -> bool {
    &&& kept.len() <= 1_000_000
    &&& first_in(d, kept) * first_in(d, kept) <= 4_000_000_000_000_000_000 * UNITS
    &&& 0 <= second_in(d, kept) <= 4_000_000_000_000_000_000
}

/// One volatility feature: the returns of its window are those of the history, and the
/// feature is their deviation.
pub proof fn volatility_tells_how_prices_move<N: Analytic>(
    d: spec_fn(N) -> Fixed,
    states: Seq<FeatureView<N>>,
    inputs: Seq<Input<N>>,
    fused: FusedTick<N>,
    v: FeatureVector<N>,
    secs: int,
) -> (r: (Seq<(i64, N, N)>, N, int))
    requires
        counts_in_decimals(d),
        is_history(states, inputs),
        describes(states.last(), fused, v),
        secs == 30 || secs == 300 || secs == 1_800,
    ensures
        ({
            let f = states.last();
            let (sums, sigma) = if secs == 30 {
                (f.vol_30, v.vol_30s)
            } else if secs == 300 {
                (f.vol_300, v.vol_300s)
            } else {
                (f.vol_1800, v.vol_1800s)
            };
            &&& are_moves(ticks_of(inputs), r.0)
            &&& is_recent(r.0, secs * 1_000_000, sums.entries)
            &&& run_forward(ticks_of(inputs)) ==> is_window(r.0, secs * 1_000_000, sums.entries)
            &&& sigma is Some <==> sums.entries.len() >= 2
            &&& bulk(d, r.0) <= i64::MAX && is_small_window(d, sums.entries) ==> tells_volatility(
                d,
                sums.entries,
                r.1,
                r.2,
                sigma,
            )
        }),
{
    let pick = if secs == 30 {
        |f: FeatureView<N>| f.vol_30
    } else if secs == 300 {
        |f: FeatureView<N>| f.vol_300
    } else {
        |f: FeatureView<N>| f.vol_1800
    };
    let f = states.last();
    assert(is_unseeded(states[0]));
    assert forall|i: int| 0 <= i < inputs.len() implies taken_in(
        states[i],
        #[trigger] inputs[i],
        states[i + 1],
    ) by {}
    assert(tracks_moves(pick, secs * 1_000_000, states, inputs));
    let moves = moves_are_tracked(d, pick, secs * 1_000_000, states, inputs);
    let sums = pick(f);
    if run_forward(ticks_of(inputs)) {
        moves_run_forward(ticks_of(inputs), moves);
        recent_records_are_the_window(moves, secs * 1_000_000, sums.entries);
    }
    let n = sums.entries.len();
    let variance = sample_variance(n, sums.first, sums.second);
    let radicand = variance.larger(N::of_int(0));
    if bulk(d, moves) <= i64::MAX && is_small_window(d, sums.entries) && n >= 2 {
        variance_is_near(d, n as int, sums.first, sums.second);
        reveal(counts_in_decimals);
        assert(Fixed::of_int(0).units == 0);
    }
    (moves, radicand, units_in(d, variance))
}

// ---------------------------------------------------------------------------
// Average prices
// ---------------------------------------------------------------------------
/// The average price of some trades in units, rounded down.
pub open spec fn average_in<N: Number>(d: spec_fn(N) -> Fixed, kept: Seq<(i64, N, N)>) -> int {
    (first_in(d, kept) * UNITS) / second_in(d, kept)
}

/// Trades whose average exact decimals hold.
pub open spec fn has_average<N: Number>(d: spec_fn(N) -> Fixed, kept: Seq<(i64, N, N)>) -> bool {
    &&& first_in(d, kept) >= 0
    &&& first_in(d, kept) * UNITS <= i64::MAX * second_in(d, kept)
}

proof fn average_is_exact<N: Number>(d: spec_fn(N) -> Fixed, pv: N, vol: N)
    requires
        counts_in_decimals(d),
        units_in(d, pv) >= 0,
        units_in(d, vol) > 0,
        units_in(d, pv) * UNITS <= i64::MAX * units_in(d, vol),
    ensures
        units_in(d, pv.quotient(vol)) == (units_in(d, pv) * UNITS) / units_in(d, vol),
        units_in(d, pv.quotient(vol)) >= 0,
{
    reveal(counts_in_decimals);
    let (p, v, u) = (units_in(d, pv), units_in(d, vol), UNITS as int);
    let a = (p * u) / v;
    assert(0 <= a <= i64::MAX && p * u >= 0) by (nonlinear_arith)
        requires
            p >= 0,
            v > 0,
            u > 0,
            p * u <= i64::MAX * v,
            a == (p * u) / v,
    ;
}

/// A distance from an average: price less average over a scale; on the average's side.
pub open spec fn tells_distance(price: int, average: int, scale: int, x: int) -> bool {
    scale > 0 && i64::MIN * scale <= (price - average) * UNITS <= i64::MAX * scale ==> {
        &&& is_near(x, (price - average) * UNITS, scale)
        &&& price >= average ==> x >= 0
        &&& price <= average ==> x <= 0
    }
}

/// The deviation features measure the price's distance from the average price: those of
/// the last 30 and 300 seconds in volatilities of the price, that of the session as a
/// fraction of the average. Without volume, or where there is no volatility, there is none.
pub proof fn deviations_measure_the_distance_from_the_average<N: Analytic>(
    d: spec_fn(N) -> Fixed,
    states: Seq<FeatureView<N>>,
    inputs: Seq<Input<N>>,
    fused: FusedTick<N>,
    v: FeatureVector<N>,
)
    requires
        counts_in_decimals(d),
        is_history(states, inputs),
        bulk(d, flows_of(ticks_of(inputs))) <= i64::MAX,
        bulk(d, trades_of(ticks_of(inputs))) <= i64::MAX,
        describes(states.last(), fused, v),
        units_in(d, fused.price) >= 0,
    ensures
        ({
            let f = states.last();
            let all = trades_of(ticks_of(inputs));
            let price = units_in(d, fused.price);
            &&& is_recent(all, 30_000_000, f.vwap_30.entries)
            &&& is_recent(all, 300_000_000, f.vwap_300.entries)
            &&& run_forward(ticks_of(inputs)) ==> {
                &&& is_window(all, 30_000_000, f.vwap_30.entries)
                &&& is_window(all, 300_000_000, f.vwap_300.entries)
            }
            &&& is_deviation(d, f.vwap_30.entries, fused.price, v.vol_1800s, v.vwap_dev_30s)
            &&& is_deviation(d, f.vwap_300.entries, fused.price, v.vol_1800s, v.vwap_dev_300s)
            &&& second_in(d, all) <= 0 ==> v.vwap_deviation is None
            &&& second_in(d, all) > 0 && has_average(d, all) ==> {
                &&& v.vwap_deviation is None <==> average_in(d, all) == 0
                &&& v.vwap_deviation matches Some(x) ==> tells_distance(
                    price,
                    average_in(d, all),
                    average_in(d, all),
                    units_in(d, x),
                )
            }
        }),
{
    accumulators_hold_the_history(states, inputs);
    totals_follow_the_history(d, states, inputs);
    if run_forward(ticks_of(inputs)) {
        windows_hold_their_time(states, inputs);
    }
    let f = states.last();
    let all = trades_of(ticks_of(inputs));
    deviation_is_told(d, f.vwap_30, fused.price, v.vol_1800s);
    deviation_is_told(d, f.vwap_300, fused.price, v.vol_1800s);
    let (pv, vol) = (f.session.pv_sum, f.session.vol_sum);
    if second_in(d, all) > 0 && has_average(d, all) {
        average_is_exact(d, pv, vol);
        let average = pv.quotient(vol);
        distance_is_told(d, fused.price, average, average);
    }
    reveal(counts_in_decimals);
    assert(Fixed::of_int(0).units == 0);
}

/// A deviation from the average of some trades, in volatilities of a price.
pub open spec fn is_deviation<N: Number>(
    d: spec_fn(N) -> Fixed,
    kept: Seq<(i64, N, N)>,
    price: N,
    sigma: Option<N>,
    x: Option<N>,
) -> bool {
    &&& sigma is None || second_in(d, kept) <= 0 ==> x is None
    &&& sigma is Some && second_in(d, kept) > 0 && has_average(d, kept) ==> {
        &&& x is None <==> average_in(d, kept) == 0 || units_in(d, sigma->0) == 0
        &&& x matches Some(z) ==> {
            let scale = units_in(d, (sigma->0).product(price));
            &&& units_in(d, sigma->0) * units_in(d, price) <= i64::MAX * UNITS && units_in(
                d,
                sigma->0,
            ) >= 0 ==> is_near(
                scale,
                units_in(d, sigma->0) * units_in(d, price),
                UNITS as int,
            )
            &&& tells_distance(units_in(d, price), average_in(d, kept), scale, units_in(d, z))
        }
    }
}

proof fn distance_is_told<N: Number>(d: spec_fn(N) -> Fixed, price: N, average: N, scale: N)
    requires
        counts_in_decimals(d),
        units_in(d, price) >= 0,
        units_in(d, average) >= 0,
    ensures
        tells_distance(
            units_in(d, price),
            units_in(d, average),
            units_in(d, scale),
            units_in(d, price.difference(average).quotient(scale)),
        ),
{
    reveal(counts_in_decimals);
    let gap = d(price).difference(d(average));
    assert(gap.units == units_in(d, price) - units_in(d, average));
    let s = units_in(d, scale);
    if s > 0 && i64::MIN * s <= gap.units * UNITS <= i64::MAX * s {
        quotient_is_near(gap, d(scale));
    }
}

proof fn deviation_is_told<N: Number>(
    d: spec_fn(N) -> Fixed,
    flow: SumsView<N>,
    price: N,
    sigma: Option<N>,
)
    requires
        counts_in_decimals(d),
        adds_up(d, flow),
        units_in(d, price) >= 0,
    ensures
        is_deviation(
            d,
            flow.entries,
            price,
            sigma,
            match sigma {
                Some(s) => vwap_deviation_of(flow, price, s),
                None => None,
            },
        ),
{
    if let Some(s) = sigma {
        let (x, y) = (units_in(d, s), units_in(d, price));
        if second_in(d, flow.entries) > 0 && has_average(d, flow.entries) {
            average_is_exact(d, flow.first, flow.second);
            let average = flow.first.quotient(flow.second);
            let scale = s.product(price);
            distance_is_told(d, price, average, scale);
            assert(x >= 0 ==> x * y >= 0) by (nonlinear_arith)
                requires
                    y >= 0,
            ;
            if x >= 0 && x * y <= i64::MAX * UNITS {
                product_is_near(d(s), d(price));
            }
        }
        reveal(counts_in_decimals);
        assert(Fixed::of_int(0).units == 0);
    }
}

// ---------------------------------------------------------------------------
// Returns from tick to tick
// ---------------------------------------------------------------------------
/// Each return from one tick to the next moves the smoothed variance a hundredth of the
/// way to its square, and its pair with the return before is recorded for five minutes;
/// a tick without a price breaks the chain.
pub proof fn each_return_moves_the_variance<N: Analytic>(
    d: spec_fn(N) -> Fixed,
    from: FeatureView<N>,
    fused: FusedTick<N>,
    to: FeatureView<N>,
    before: TickReturnsView<N>,
    after: TickReturnsView<N>,
    ts: i64,
    price: N,
    all: Seq<(i64, N, N)>,
) -> (r: N)
    requires
        counts_in_decimals(d),
        taken_in(from, Input::Tick(fused), to),
        before == from.per_tick,
        after == to.per_tick,
        ts == fused.ts_micros,
        price == fused.price,
        units_in(d, before.variance) >= 0,
        before.pairs.window == 300_000_000,
        is_recent(all, 300_000_000, before.pairs.entries),
    ensures
        after.price == Some(price),
        ({
            let zero = N::of_int(0);
            let chained = before.price is Some && zero.is_below(before.price->0) && zero.is_below(
                price,
            );
            &&& chained ==> {
                let square = units_in(d, r.product(r));
                let (old, new) = (units_in(d, before.variance), units_in(d, after.variance));
                &&& is_ln(price.quotient(before.price->0), r)
                &&& after.last == Some(r)
                &&& after.seeded
                &&& square >= 0 ==> is_near(new - old, square - old, 100)
                &&& before.last matches Some(q) ==> is_recent(
                    all.push(
                        (
                            ts,
                            q.product(r).sum(q.product(r)),
                            q.product(q).sum(r.product(r)),
                        ),
                    ),
                    300_000_000,
                    after.pairs.entries,
                )
                &&& before.last is None ==> after.pairs == before.pairs
            }
            &&& !chained ==> {
                &&& after.variance == before.variance
                &&& after.last is None
                &&& after.pairs == before.pairs
                &&& after.seeded == before.seeded
            }
        }),
{
    let zero = N::of_int(0);
    if before.price is Some && zero.is_below(before.price->0) && zero.is_below(price) {
        let r = choose|r: N| #[trigger]
            is_ln(price.quotient(before.price->0), r) && after == before.with_return(ts, price, r);
        if let Some(q) = before.last {
            let e = (ts, q.product(r).sum(q.product(r)), q.product(q).sum(r.product(r)));
            windows_stay_recent(all, 300_000_000, before.pairs.entries, e);
        }
        let square = units_in(d, r.product(r));
        if square >= 0 {
            reveal(counts_in_decimals);
            let old = units_in(d, before.variance);
            let gap = d(r.product(r)).difference(d(before.variance));
            assert(gap.units == square - old);
            assert(Fixed::of_ratio(1, 100).units == 1_000_000);
            let x = 1_000_000 * gap.units;
            division_is_near(x, UNITS as int);
            let step = towards_zero(x, UNITS as int);
            assert(d(after.variance) == d(before.variance).sum(
                Fixed::of_ratio(1, 100).product(gap),
            ));
            assert(Fixed::of_ratio(1, 100).product(gap).units == step);
            assert(old + step >= 0) by {
                assert(gap.units >= -old);
            }
        }
        r
    } else {
        zero
    }
}

/// Along a history, the returns from tick to tick start at a variance of a millionth, have
/// seen the last tick's price, and have seen a return exactly when two neighbouring ticks
/// had a positive price; the pairs of returns that count are of the last five minutes and
/// add up.
pub proof fn tick_returns_follow_the_history<N: Analytic>(
    d: spec_fn(N) -> Fixed,
    states: Seq<FeatureView<N>>,
    inputs: Seq<Input<N>>,
) -> (r: (Seq<(i64, N, N)>, Seq<(i64, N, N)>))
    requires
        counts_in_decimals(d),
        is_history(states, inputs),
    ensures
        ({
            let (moves, pairs) = r;
            let acc = states.last().per_tick;
            let ticks = ticks_of(inputs);
            &&& are_moves(ticks, moves)
            &&& acc.price == (if ticks.len() == 0 { None } else { Some(ticks.last().price) })
            &&& acc.seeded == (moves.len() > 0)
            &&& moves.len() == 0 ==> units_in(d, acc.variance) == 100
            &&& acc.last matches Some(x) ==> moves.len() > 0 && moves.last().1 == x
                && moves.last().0 == ticks.last().ts_micros
            &&& acc.last is None <==> !ends_in_a_move(ticks)
            &&& are_pairs(ticks, moves, pairs)
            &&& acc.pairs.window == 300_000_000
            &&& is_recent(pairs, 300_000_000, acc.pairs.entries)
            &&& bulk(d, pairs) <= i64::MAX ==> adds_up(d, acc.pairs)
        }),
    decreases inputs.len(),
{
    let ticks = ticks_of(inputs);
    if inputs.len() == 0 {
        assert(states.last() == states[0]);
        assert(is_unseeded(states[0]));
        empty_window_adds_up::<N>(d, 300_000_000);
        reveal(counts_in_decimals);
        assert(Fixed::of_ratio(1, 1_000_000).units == 100);
        (Seq::empty(), Seq::empty())
    } else {
        shorter_history(states, inputs);
        let (s, x) = (states.drop_last(), inputs.drop_last());
        let rest = ticks_of(x);
        let (before, after) = (s.last().per_tick, states.last().per_tick);
        match inputs.last() {
            Input::Tick(t) => {
                assert(ticks == rest.push(t));
                assert(ticks.drop_last() =~= rest);
                let (old_moves, old_pairs) = tick_returns_follow_the_history(d, s, x);
                let zero = N::of_int(0);
                if rest.len() > 0 {
                    assert(ticks[ticks.len() - 2] == rest.last());
                }
                if rest.len() > 0 && zero.is_below(rest.last().price) && zero.is_below(t.price) {
                    let r = choose|r: N| #[trigger]
                        is_ln(t.price.quotient(rest.last().price), r) && after
                            == before.with_return(t.ts_micros, t.price, r);
                    let moves = old_moves.push((t.ts_micros, r, r.product(r)));
                    assert(moves.drop_last() =~= old_moves);
                    if let Some(q) = before.last {
                        let (p, n) = (
                            q.product(r).sum(q.product(r)),
                            q.product(q).sum(r.product(r)),
                        );
                        let e = (t.ts_micros, p, n);
                        let pairs = old_pairs.push(e);
                        assert(pairs.drop_last() =~= old_pairs);
                        windows_stay_recent(old_pairs, 300_000_000, before.pairs.entries, e);
                        if bulk(d, pairs) <= i64::MAX {
                            sums_follow_the_records(
                                d,
                                old_pairs,
                                300_000_000,
                                before.pairs,
                                t.ts_micros,
                                p,
                                n,
                            );
                        }
                        (moves, pairs)
                    } else {
                        (moves, old_pairs)
                    }
                } else {
                    assert(after == before.without_return(t.price));
                    (old_moves, old_pairs)
                }
            },
            Input::Book(_) => {
                let out = tick_returns_follow_the_history(d, s, x);
                out
            },
        }
    }
}

/// The last two ticks both have a positive price.
pub open spec fn ends_in_a_move<N: Number>(ticks: Seq<FusedTick<N>>) -> bool {
    &&& ticks.len() >= 2
    &&& N::of_int(0).is_below(ticks[ticks.len() - 2].price)
    &&& N::of_int(0).is_below(ticks.last().price)
}

/// `pairs` are the pairs of returns that follow each other: time, twice their product, and
/// the sum of their squares.
pub open spec fn are_pairs<N: Number>(
    ticks: Seq<FusedTick<N>>,
    moves: Seq<(i64, N, N)>,
    pairs: Seq<(i64, N, N)>,
) -> bool
    decreases ticks.len(),
{
    if ticks.len() < 2 {
        pairs.len() == 0
    } else if ends_in_a_move(ticks) {
        if ends_in_a_move(ticks.drop_last()) && moves.len() >= 2 {
            let (q, r) = (moves[moves.len() - 2].1, moves.last().1);
            &&& pairs.len() > 0
            &&& pairs.last() == (
                ticks.last().ts_micros,
                q.product(r).sum(q.product(r)),
                q.product(q).sum(r.product(r)),
            )
            &&& are_pairs(ticks.drop_last(), moves.drop_last(), pairs.drop_last())
        } else {
            are_pairs(ticks.drop_last(), moves.drop_last(), pairs)
        }
    } else {
        are_pairs(ticks.drop_last(), moves, pairs)
    }
}

/// The autocorrelation is twice the products of neighbouring returns over the sum of their
/// squares, held between -1 and 1; the volatility per tick is the root of the smoothed
/// variance once there has been a return.
pub proof fn autocorrelation_compares_neighbours<N: Analytic>(
    d: spec_fn(N) -> Fixed,
    acc: TickReturnsView<N>,
    sigma: Option<N>,
) -> (r: N)
    requires
        counts_in_decimals(d),
        adds_up(d, acc.pairs),
        is_tick_volatility(acc, sigma),
        units_in(d, acc.variance) >= 0,
    ensures
        ({
            let (p, q) = (first_in(d, acc.pairs.entries), second_in(d, acc.pairs.entries));
            let x = acc.autocorrelation();
            &&& x is Some <==> q > 0
            &&& q > 0 && p >= q ==> units_in(d, x->0) == UNITS
            &&& q > 0 && p <= -q ==> units_in(d, x->0) == -UNITS
            &&& q > 0 && -q < p < q ==> is_near(units_in(d, x->0), p * UNITS, q)
            &&& sigma is Some <==> acc.seeded
            &&& sigma matches Some(s) ==> is_sqrt(r, s) && units_in(d, r) == units_in(
                d,
                acc.variance,
            )
        }),
{
    reveal(counts_in_decimals);
    let u = UNITS as int;
    assert(u == 100_000_000);
    let (p, q) = (units_in(d, acc.pairs.first), units_in(d, acc.pairs.second));
    assert(Fixed::of_int(0).units == 0 && Fixed::of_int(1).units == u);
    assert(Fixed::of_int(-1).units == -u);
    if q > 0 {
        let x = p * u;
        division_is_near(x, q);
        let t = towards_zero(x, q);
        let y = acc.pairs.first.quotient(acc.pairs.second);
        assert(d(y).units == crate::number::saturated(t));
        assert((p >= q ==> t >= u) && (p <= -q ==> t <= -u) && (-q < p < q ==> -u <= t <= u))
            by (nonlinear_arith)
            requires
                x == p * u,
                x - q < t * q < x + q,
                x >= 0 ==> t * q <= x,
                x <= 0 ==> x <= t * q,
                q > 0,
                u == 100_000_000,
        ;
    }
    acc.variance.larger(N::of_int(0))
}

/// The features of the returns from tick to tick are those of their accumulator.
pub proof fn tick_features_are_those_of_the_returns<N: Analytic>(
    f: FeatureView<N>,
    fused: FusedTick<N>,
    v: FeatureVector<N>,
)
    requires
        describes(f, fused, v),
    ensures
        v.autocorr_lag1 == f.per_tick.autocorrelation(),
        v.ewma_variance == f.per_tick.variance,
        is_tick_volatility(f.per_tick, v.ewma_vol_tick),
        v.rsi_14 == f.rsi.index(),
{
}

} // verus!
