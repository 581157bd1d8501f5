//! What the filter remembers of a run of ticks, and which ticks it drops.

use vstd::prelude::*;
use crate::dedup::{
    arranged, arranged_is_a_sorted_permutation, median_of, near_duplicate, repeats, same_trade,
    FilterView, Verdict,
};
use crate::number::{fixed_is_ordered, Fixed, Number, UNITS};
use crate::types::Tick;
use crate::window::{
    eviction_drops_the_stale_front, eviction_keeps_the_window, in_order, stale_prefix,
};

verus! {

/// A filter along a run of ticks; the volatility estimate may be set at any time.
pub open spec fn is_run<N: Number>(states: Seq<FilterView<N>>, ticks: Seq<Tick<N>>) -> bool {
    &&& states.len() == ticks.len() + 1
    &&& states[0] == (FilterView {
        estimate: states[0].estimate,
        ..FilterView::start(states[0].config)
    })
    &&& forall|i: int|
        0 <= i < ticks.len() ==> states[i + 1] == (FilterView {
            estimate: states[i + 1].estimate,
            ..states[i].after(#[trigger] ticks[i])
        })
}

/// The prices of the accepted ones among the first `n` ticks of a run.
pub open spec fn accepted_prices<N: Number>(
    states: Seq<FilterView<N>>,
    ticks: Seq<Tick<N>>,
    n: int,
) -> Seq<N>
    decreases n,
{
    if n <= 0 {
        Seq::empty()
    } else if states[n - 1].verdict(ticks[n - 1]) is Accepted {
        accepted_prices(states, ticks, n - 1).push(ticks[n - 1].price)
    } else {
        accepted_prices(states, ticks, n - 1)
    }
}

/// How many of the first `n` ticks of a run met with a verdict.
pub open spec fn verdicts<N: Number>(
    states: Seq<FilterView<N>>,
    ticks: Seq<Tick<N>>,
    n: int,
    verdict: Verdict,
) -> int
    decreases n,
{
    if n <= 0 {
        0
    } else if states[n - 1].verdict(ticks[n - 1]) == verdict {
        verdicts(states, ticks, n - 1, verdict) + 1
    } else {
        verdicts(states, ticks, n - 1, verdict)
    }
}

/// The last `k` of some values, or all of them.
pub open spec fn last_of<T>(xs: Seq<T>, k: nat) -> Seq<T> {
    if xs.len() <= k {
        xs
    } else {
        xs.skip(xs.len() - k)
    }
}

/// After any run of ticks the price window is exactly the last accepted prices, in order,
/// as many as the median is taken of; each dropped tick has been counted as what it was.
pub proof fn window_holds_the_last_accepted_prices<N: Number>(
    states: Seq<FilterView<N>>,
    ticks: Seq<Tick<N>>,
    n: int,
)
    requires
        is_run(states, ticks),
        0 <= n <= ticks.len(),
        ticks.len() <= u64::MAX,
    ensures
        states[n].config == states[0].config,
        states[n].prices == last_of(
            accepted_prices(states, ticks, n),
            states[0].config.median_window as nat,
        ),
        states[n].dedup_count == verdicts(states, ticks, n, Verdict::Duplicate),
        states[n].outlier_count == verdicts(states, ticks, n, Verdict::Outlier),
        0 <= verdicts(states, ticks, n, Verdict::Duplicate) <= n,
        0 <= verdicts(states, ticks, n, Verdict::Outlier) <= n,
    decreases n,
{
    let w = states[0].config.median_window as nat;
    if n > 0 {
        window_holds_the_last_accepted_prices(states, ticks, n - 1);
        let before = accepted_prices(states, ticks, n - 1);
        let tick = ticks[n - 1];
        assert(states[n] == (FilterView {
            estimate: states[n].estimate,
            ..states[n - 1].after(tick)
        }));
        if states[n - 1].verdict(tick) is Accepted {
            let after = before.push(tick.price);
            let old_window = last_of(before, w);
            assert(states[n].prices =~= last_of(after, w));
        }
    }
}

// ---------------------------------------------------------------------------
// Duplicates
// ---------------------------------------------------------------------------
/// Two ticks report one trade: the same ID on the same exchange; or, on different
/// exchanges, price and quantity agree up to the tolerances.
pub open spec fn agree<N: Number>(a: Tick<N>, b: Tick<N>, price_tolerance: N, qty_tolerance: N) -> bool {
    if a.exchange == b.exchange {
        a.trade_id@ == b.trade_id@
    } else {
        &&& a.price.difference(b.price).magnitude().is_at_most(price_tolerance)
        &&& a.quantity.difference(b.quantity).magnitude().is_at_most(qty_tolerance)
    }
}

/// The times of a run never go back.
pub open spec fn runs_forward<N>(ticks: Seq<Tick<N>>) -> bool {
    forall|i: int, j: int|
        0 <= i <= j < ticks.len() ==> (#[trigger] ticks[i]).ts_micros <= (
        #[trigger] ticks[j]).ts_micros
}

/// The `j`-th tick of a run was not taken for a duplicate.
pub open spec fn is_original<N: Number>(
    states: Seq<FilterView<N>>,
    ticks: Seq<Tick<N>>,
    j: int,
) -> bool {
    !(states[j].verdict(ticks[j]) is Duplicate)
}

proof fn memory_of_a_run<N: Number>(states: Seq<FilterView<N>>, ticks: Seq<Tick<N>>, n: int)
    requires
        is_run(states, ticks),
        runs_forward(ticks),
        states[0].config.dedup_window_micros >= 0,
        0 <= n <= ticks.len(),
    ensures
        states[n].config == states[0].config,
        in_order(states[n].seen),
        forall|k: int|
            0 <= k < states[n].seen.len() ==> exists|j: int|
                0 <= j < n && #[trigger] is_original(states, ticks, j) && ticks[j]
                    == #[trigger] states[n].seen[k],
        forall|j: int|
            0 <= j < n && #[trigger] is_original(states, ticks, j) && ticks[n - 1].ts_micros
                - ticks[j].ts_micros <= states[0].config.dedup_window_micros
                ==> states[n].seen.contains(ticks[j]),
    decreases n,
{
    if n > 0 {
        memory_of_a_run(states, ticks, n - 1);
        let before = states[n - 1];
        let tick = ticks[n - 1];
        let w = states[0].config.dedup_window_micros;
        let cutoff = tick.ts_micros - w;
        assert(states[n] == (FilterView { estimate: states[n].estimate, ..before.after(tick) }));
        eviction_keeps_the_window(before.seen, cutoff);
        eviction_drops_the_stale_front(before.seen, cutoff);
        let drop = stale_prefix(before.seen, cutoff) as int;
        let kept = before.remembered(tick);
        let seen = states[n].seen;
        assert forall|k: int| 0 <= k < seen.len() implies exists|j: int|
            0 <= j < n && #[trigger] is_original(states, ticks, j) && ticks[j]
                == #[trigger] seen[k] by {
            if k < kept.len() {
                assert(seen[k] == kept[k] && kept[k] == before.seen[k + drop]);
                let j = choose|j: int|
                    0 <= j < n - 1 && #[trigger] is_original(states, ticks, j) && ticks[j]
                        == before.seen[k + drop];
                assert(is_original(states, ticks, j));
            } else {
                assert(is_original(states, ticks, n - 1));
            }
        }
        assert forall|j: int|
            0 <= j < n && #[trigger] is_original(states, ticks, j) && tick.ts_micros
                - ticks[j].ts_micros <= w implies seen.contains(ticks[j]) by {
            if j == n - 1 {
                assert(seen[kept.len() as int] == tick);
            } else {
                assert(ticks[n - 2].ts_micros <= ticks[n - 1].ts_micros);
                assert(ticks[n - 2].ts_micros - ticks[j].ts_micros <= w);
                assert(before.seen.contains(ticks[j]));
                let m = choose|m: int| 0 <= m < before.seen.len() && before.seen[m] == ticks[j];
                assert(m >= drop);
                assert(seen[m - drop] == ticks[j]);
            }
        }
        assert forall|a: int, b: int| 0 <= a <= b < seen.len() implies (
        #[trigger] seen[a]).ts_micros <= (#[trigger] seen[b]).ts_micros by {
            if b < kept.len() {
                assert(seen[a] == before.seen[a + drop] && seen[b] == before.seen[b + drop]);
                assert(before.seen[a + drop].ts_micros <= before.seen[b + drop].ts_micros);
            } else {
                let j = choose|j: int|
                    0 <= j < n && #[trigger] is_original(states, ticks, j) && ticks[j] == seen[a];
                assert(ticks[j].ts_micros <= ticks[n - 1].ts_micros);
            }
        }
        assert(in_order(seen));
    }
}

/// After a run whose times never go back, the next tick is a duplicate exactly when it
/// agrees with one that came at most a window earlier and was no duplicate itself.
pub proof fn duplicates_are_repetitions<N: Number>(
    states: Seq<FilterView<N>>,
    ticks: Seq<Tick<N>>,
    n: int,
)
    requires
        is_run(states, ticks),
        runs_forward(ticks),
        states[0].config.dedup_window_micros >= 0,
        0 <= n < ticks.len(),
    ensures
        states[n].verdict(ticks[n]) is Duplicate <==> exists|j: int|
            {
                &&& 0 <= j < n
                &&& #[trigger] is_original(states, ticks, j)
                &&& ticks[n].ts_micros - ticks[j].ts_micros
                    <= states[0].config.dedup_window_micros
                &&& agree(
                    ticks[j],
                    ticks[n],
                    states[0].config.price_tolerance_usd,
                    states[0].config.qty_tolerance_btc,
                )
            },
{
    memory_of_a_run(states, ticks, n);
    let (filter, tick, config) = (states[n], ticks[n], states[0].config);
    let w = config.dedup_window_micros;
    let cutoff = tick.ts_micros - w;
    eviction_keeps_the_window(filter.seen, cutoff);
    eviction_drops_the_stale_front(filter.seen, cutoff);
    let drop = stale_prefix(filter.seen, cutoff) as int;
    let kept = filter.remembered(tick);
    if repeats(config, kept, tick) {
        let k = choose|k: int|
            0 <= k < kept.len() && (same_trade(#[trigger] kept[k], tick) || near_duplicate(
                config,
                kept[k],
                tick,
            ));
        assert(kept[k] == filter.seen[k + drop]);
        let j = choose|j: int|
            0 <= j < n && #[trigger] is_original(states, ticks, j) && ticks[j]
                == filter.seen[k + drop];
        assert(is_original(states, ticks, j));
        assert(filter.seen[k + drop].ts_micros >= cutoff);
        assert(agree(
            ticks[j],
            tick,
            config.price_tolerance_usd,
            config.qty_tolerance_btc,
        ));
    }
    assert forall|j: int|
        0 <= j < n && #[trigger] is_original(states, ticks, j) && tick.ts_micros
            - ticks[j].ts_micros <= w && agree(
            ticks[j],
            tick,
            config.price_tolerance_usd,
            config.qty_tolerance_btc,
        ) implies repeats(config, kept, tick) by {
        assert(ticks[n - 1].ts_micros <= ticks[n].ts_micros);
        assert(filter.seen.contains(ticks[j]));
        let m = choose|m: int| 0 <= m < filter.seen.len() && filter.seen[m] == ticks[j];
        assert(m >= drop);
        assert(kept[m - drop] == ticks[j]);
        assert(ticks[j].ts_micros <= ticks[n].ts_micros);
    }
}

/// No tick after the `j`-th and up to the `n`-th is more than a window younger.
pub open spec fn stays_remembered<N>(ticks: Seq<Tick<N>>, j: int, n: int, window: int) -> bool {
    forall|i: int| j < i <= n ==> (#[trigger] ticks[i]).ts_micros - ticks[j].ts_micros <= window
}

proof fn memory_without_order<N: Number>(states: Seq<FilterView<N>>, ticks: Seq<Tick<N>>, n: int)
    requires
        is_run(states, ticks),
        0 <= n <= ticks.len(),
    ensures
        states[n].config == states[0].config,
        forall|k: int|
            0 <= k < states[n].seen.len() ==> exists|j: int|
                0 <= j < n && #[trigger] is_original(states, ticks, j) && ticks[j]
                    == #[trigger] states[n].seen[k],
        forall|j: int|
            0 <= j < n && #[trigger] is_original(states, ticks, j) && stays_remembered(
                ticks,
                j,
                n - 1,
                states[0].config.dedup_window_micros as int,
            ) ==> states[n].seen.contains(ticks[j]),
    decreases n,
{
    if n > 0 {
        memory_without_order(states, ticks, n - 1);
        let before = states[n - 1];
        let tick = ticks[n - 1];
        let w = states[0].config.dedup_window_micros as int;
        let cutoff = tick.ts_micros - w;
        assert(states[n] == (FilterView { estimate: states[n].estimate, ..before.after(tick) }));
        eviction_drops_the_stale_front(before.seen, cutoff);
        let drop = stale_prefix(before.seen, cutoff) as int;
        let kept = before.remembered(tick);
        let seen = states[n].seen;
        assert forall|k: int| 0 <= k < seen.len() implies exists|j: int|
            0 <= j < n && #[trigger] is_original(states, ticks, j) && ticks[j]
                == #[trigger] seen[k] by {
            if k < kept.len() {
                assert(seen[k] == kept[k] && kept[k] == before.seen[k + drop]);
                let j = choose|j: int|
                    0 <= j < n - 1 && #[trigger] is_original(states, ticks, j) && ticks[j]
                        == before.seen[k + drop];
                assert(is_original(states, ticks, j));
            } else {
                assert(is_original(states, ticks, n - 1));
            }
        }
        assert forall|j: int|
            0 <= j < n && #[trigger] is_original(states, ticks, j) && stays_remembered(
                ticks,
                j,
                n - 1,
                w,
            ) implies seen.contains(ticks[j]) by {
            if j == n - 1 {
                assert(seen[kept.len() as int] == tick);
            } else {
                assert(stays_remembered(ticks, j, n - 2, w));
                assert(before.seen.contains(ticks[j]));
                let m = choose|m: int| 0 <= m < before.seen.len() && before.seen[m] == ticks[j];
                assert(ticks[n - 1].ts_micros - ticks[j].ts_micros <= w);
                assert(m >= drop);
                assert(seen[m - drop] == ticks[j]);
            }
        }
    }
}

/// In whatever order the times come: a duplicate agrees with an earlier tick that was no
/// duplicate itself, at most a window apart where it came from another exchange; and a
/// tick that agrees with such a one is a duplicate if no tick since has outlived that one.
pub proof fn duplicates_repeat_an_earlier_tick<N: Number>(
    states: Seq<FilterView<N>>,
    ticks: Seq<Tick<N>>,
    n: int,
)
    requires
        is_run(states, ticks),
        0 <= n < ticks.len(),
    ensures
        ({
            let config = states[0].config;
            let w = config.dedup_window_micros as int;
            let repeats_tick = |j: int|
                {
                    let gap = ticks[j].ts_micros - ticks[n].ts_micros;
                    &&& agree(
                        ticks[j],
                        ticks[n],
                        config.price_tolerance_usd,
                        config.qty_tolerance_btc,
                    )
                    &&& ticks[j].exchange != ticks[n].exchange ==> -w <= gap <= w
                };
            &&& states[n].verdict(ticks[n]) is Duplicate ==> exists|j: int|
                0 <= j < n && #[trigger] is_original(states, ticks, j) && repeats_tick(j)
            &&& (exists|j: int|
                0 <= j < n && #[trigger] is_original(states, ticks, j) && repeats_tick(j)
                    && stays_remembered(ticks, j, n, w)) ==> states[n].verdict(
                ticks[n],
            ) is Duplicate
        }),
{
    memory_without_order(states, ticks, n);
    let (filter, tick, config) = (states[n], ticks[n], states[0].config);
    let w = config.dedup_window_micros as int;
    let cutoff = tick.ts_micros - w;
    eviction_drops_the_stale_front(filter.seen, cutoff);
    let drop = stale_prefix(filter.seen, cutoff) as int;
    let kept = filter.remembered(tick);
    if repeats(config, kept, tick) {
        let k = choose|k: int|
            0 <= k < kept.len() && (same_trade(#[trigger] kept[k], tick) || near_duplicate(
                config,
                kept[k],
                tick,
            ));
        assert(kept[k] == filter.seen[k + drop]);
        let j = choose|j: int|
            0 <= j < n && #[trigger] is_original(states, ticks, j) && ticks[j]
                == filter.seen[k + drop];
        assert(is_original(states, ticks, j));
    }
    assert forall|j: int|
        0 <= j < n && #[trigger] is_original(states, ticks, j) && agree(
            ticks[j],
            tick,
            config.price_tolerance_usd,
            config.qty_tolerance_btc,
        ) && (ticks[j].exchange != tick.exchange ==> -w <= ticks[j].ts_micros - tick.ts_micros <= w)
            && stays_remembered(ticks, j, n, w) implies repeats(config, kept, tick) by {
        assert(stays_remembered(ticks, j, n - 1, w));
        assert(filter.seen.contains(ticks[j]));
        let m = choose|m: int| 0 <= m < filter.seen.len() && filter.seen[m] == ticks[j];
        assert(ticks[n].ts_micros - ticks[j].ts_micros <= w);
        assert(m >= drop);
        assert(kept[m - drop] == ticks[j]);
    }
}

// ---------------------------------------------------------------------------
// Spikes
// ---------------------------------------------------------------------------
/// `m` is the median of some prices in exact decimals: sorted, the one in the middle, or
/// the mean of the two in the middle, rounded down.
pub open spec fn is_median(prices: Seq<Fixed>, m: int) -> bool {
    exists|sorted: Seq<Fixed>|
        {
            let n = prices.len() as int;
            &&& #[trigger] sorted.to_multiset() == prices.to_multiset()
            &&& sorted.len() == n
            &&& n > 0
            &&& forall|i: int, j: int|
                0 <= i <= j < n ==> (#[trigger] sorted[i]).units <= (#[trigger] sorted[j]).units
            &&& m == (sorted[(n - 1) / 2].units + sorted[n / 2].units) / 2
        }
}

/// Prices that exact decimals can add.
pub open spec fn are_prices(prices: Seq<Fixed>) -> bool {
    forall|i: int|
        0 <= i < prices.len() ==> 0 <= (#[trigger] prices[i]).units <= 4_000_000_000_000_000_000
}

/// The median is the middle of the sorted prices.
pub proof fn median_is_in_the_middle(prices: Seq<Fixed>)
    requires
        prices.len() > 0,
        are_prices(prices),
    ensures
        is_median(prices, median_of(prices).units as int),
{
    broadcast use vstd::seq_lib::group_to_multiset_ensures;

    fixed_is_ordered();
    arranged_is_a_sorted_permutation(prices);
    let sorted = arranged(prices);
    let n = prices.len() as int;
    assert forall|i: int| 0 <= i < n implies 0 <= (#[trigger] sorted[i]).units
        <= 4_000_000_000_000_000_000 by {
        assert(sorted.to_multiset().count(sorted[i]) > 0);
        assert(prices.contains(sorted[i]));
        let k = choose|k: int| 0 <= k < n && prices[k] == sorted[i];
        assert(0 <= prices[k].units);
    }
    assert forall|i: int, j: int| 0 <= i <= j < n implies (#[trigger] sorted[i]).units <= (
    #[trigger] sorted[j]).units by {
        assert(!sorted[j].is_below(sorted[i]));
    }
    if n % 2 == 0 {
        assert((n - 1) / 2 == n / 2 - 1);
        let total = sorted[n / 2 - 1].units + sorted[n / 2].units;
        assert(0 <= sorted[n / 2 - 1].units && 0 <= sorted[n / 2].units);
        assert((total * UNITS) / (2 * UNITS) == total / 2) by (nonlinear_arith)
            requires
                UNITS == 100_000_000,
        ;
    } else {
        assert((n - 1) / 2 == n / 2);
    }
    assert(sorted.to_multiset() == prices.to_multiset());
}

/// A tick that is no duplicate is an outlier when its price is further from the median of
/// the last accepted prices than `spike_k` volatilities of the price; and it is none when
/// there is no volatility estimate, no accepted price, or the price is not so far, up to
/// what exact decimals drop, and exactly so where they drop nothing.
pub proof fn spikes_are_far_from_the_median(
    states: Seq<FilterView<Fixed>>,
    ticks: Seq<Tick<Fixed>>,
    n: int,
) -> (m: int)
    requires
        is_run(states, ticks),
        0 <= n < ticks.len() <= u64::MAX,
        are_prices(accepted_prices(states, ticks, n)),
        0 <= ticks[n].price.units <= 4_000_000_000_000_000_000,
        states[0].config.spike_k.units >= 0,
        states[n].estimate.units >= 0,
        states[0].config.spike_k.units * (states[n].estimate.units * ticks[n].price.units)
            <= i64::MAX * (UNITS * UNITS),
        states[n].estimate.units * ticks[n].price.units <= i64::MAX * UNITS,
        !(states[n].verdict(ticks[n]) is Duplicate),
    ensures
        ({
            let recent = last_of(
                accepted_prices(states, ticks, n),
                states[0].config.median_window as nat,
            );
            let price = ticks[n].price.units as int;
            let (k, sigma) = (
                states[0].config.spike_k.units as int,
                states[n].estimate.units as int,
            );
            let distance = if price >= m { price - m } else { m - price };
            let u = UNITS as int;
            let outlier = states[n].verdict(ticks[n]) is Outlier;
            &&& recent.len() == 0 || sigma == 0 ==> !outlier
            &&& recent.len() > 0 ==> is_median(recent, m)
            &&& recent.len() > 0 && sigma > 0 && distance * (u * u) > k * (sigma * price)
                ==> outlier
            &&& outlier ==> distance * (u * u) > k * (sigma * price) - k * u - u * u
            &&& recent.len() > 0 && sigma > 0 && (sigma * price) % u == 0 && (k * ((sigma * price)
                / u)) % u == 0 ==> (outlier <==> distance * (u * u) > k * (sigma * price))
        }),
{
    window_holds_the_last_accepted_prices(states, ticks, n);
    let recent = states[n].prices;
    let all = accepted_prices(states, ticks, n);
    let median = median_of(recent);
    let price = ticks[n].price.units as int;
    let (k, sigma, u) = (
        states[0].config.spike_k.units as int,
        states[n].estimate.units as int,
        UNITS as int,
    );
    if recent.len() > 0 {
        assert forall|i: int| 0 <= i < recent.len() implies 0 <= (#[trigger] recent[i]).units
            <= 4_000_000_000_000_000_000 by {
            let skip = all.len() - recent.len();
            assert(recent[i] == all[i + skip]);
        }
        median_is_in_the_middle(recent);
        median_is_a_price(recent, median.units as int);
    }
    let x = sigma * price;
    assert(0 <= x) by (nonlinear_arith)
        requires
            x == sigma * price,
            sigma >= 0,
            price >= 0,
    ;
    let step = x / u;
    let y = k * step;
    assert(0 <= y && y * u <= k * x && k * x < y * u + k * u + 1) by (nonlinear_arith)
        requires
            k >= 0,
            x >= 0,
            step == x / u,
            y == k * step,
            u == 100_000_000,
    ;
    assert(step <= i64::MAX) by (nonlinear_arith)
        requires
            step == x / u,
            x <= i64::MAX * u,
            u == 100_000_000,
    ;
    let limit = y / u;
    assert(0 <= limit && limit * u <= y < limit * u + u) by (nonlinear_arith)
        requires
            y >= 0,
            limit == y / u,
            u == 100_000_000,
    ;
    assert(limit * (u * u) <= k * x && k * x - k * u - u * u < limit * (u * u)) by (nonlinear_arith)
        requires
            limit * u <= y < limit * u + u,
            y * u <= k * x,
            k * x < y * u + k * u + 1,
            u == 100_000_000,
    ;
    assert(limit <= i64::MAX) by (nonlinear_arith)
        requires
            limit * (u * u) <= k * x,
            k * x <= i64::MAX * (u * u),
            u == 100_000_000,
    ;
    if x % u == 0 && y % u == 0 {
        assert(x == step * u) by (nonlinear_arith)
            requires
                x % u == 0,
                step == x / u,
                u == 100_000_000,
        ;
        assert(y == limit * u) by (nonlinear_arith)
            requires
                y % u == 0,
                limit == y / u,
                u == 100_000_000,
        ;
        assert(k * x == limit * (u * u)) by (nonlinear_arith)
            requires
                x == step * u,
                y == k * step,
                y == limit * u,
        ;
    }
    let m = if recent.len() > 0 { median.units as int } else { 0 };
    let distance = if price >= m { price - m } else { m - price };
    assert(distance * (u * u) > limit * (u * u) <==> distance > limit) by (nonlinear_arith)
        requires
            u == 100_000_000,
    ;
    if distance > limit {
        assert(distance * (u * u) >= limit * (u * u) + u * u) by (nonlinear_arith)
            requires
                distance >= limit + 1,
                u == 100_000_000,
        ;
    }
    m
}

proof fn median_is_a_price(prices: Seq<Fixed>, m: int)
    requires
        is_median(prices, m),
        are_prices(prices),
    ensures
        0 <= m <= 4_000_000_000_000_000_000,
{
    broadcast use vstd::seq_lib::group_to_multiset_ensures;

    let n = prices.len() as int;
    let sorted = choose|sorted: Seq<Fixed>|
        {
            &&& #[trigger] sorted.to_multiset() == prices.to_multiset()
            &&& sorted.len() == n
            &&& n > 0
            &&& forall|i: int, j: int|
                0 <= i <= j < n ==> (#[trigger] sorted[i]).units <= (#[trigger] sorted[j]).units
            &&& m == (sorted[(n - 1) / 2].units + sorted[n / 2].units) / 2
        };
    assert forall|i: int| 0 <= i < n implies 0 <= (#[trigger] sorted[i]).units
        <= 4_000_000_000_000_000_000 by {
        assert(sorted.to_multiset().count(sorted[i]) > 0);
        assert(prices.contains(sorted[i]));
        let k = choose|k: int| 0 <= k < n && prices[k] == sorted[i];
        assert(0 <= prices[k].units);
    }
    assert(0 <= sorted[(n - 1) / 2].units && 0 <= sorted[n / 2].units);
}

} // verus!
