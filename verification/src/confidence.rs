//! Confidences are numbers: what the models publish where the features are numbers.

use vstd::prelude::*;
use crate::bounds::{
    bound_widens, clamped_number_is_bounded, difference_is_bounded, fraction_is_bounded, has_bounds,
    integer_is_bounded, is_analytic, is_bounded, product_is_bounded, quotient_is_a_number,
    sum_is_bounded, within, LARGEST_BOUND,
};
use crate::features::FeatureVector;
use crate::models::{
    blended, composite_score, conflict_dampening, crossover_confidence, ema_after, ema_spread,
    ema_weight, fused_signal, heuristic_signal, is_confidence, is_crossover, momentum_score,
    or_default, pair_after, rsi_score, scale_weight, signal_votes, trends_advanced, MultiScaleView,
};
use crate::number::{
    clamped, is_between, is_monotone, is_tanh, not_negative, Analytic, Number,
};
use crate::types::{TimeScale, TrendDirection, TrendSignal};
use crate::votes::Votes;

verus! {

/// The bound on prices.
pub const PRICE_BOUND: i64 = 100_000_000;

/// A confidence that is a number.
pub open spec fn is_definite<N: Number>(c: N) -> bool {
    c.is_number() && is_confidence(c)
}

/// An optional value that is bounded where it is there.
pub open spec fn is_bounded_if_there<N: Number>(x: Option<N>, k: int) -> bool {
    x matches Some(v) ==> is_bounded(v, k)
}

/// What the models read of a feature vector are numbers in their ranges.
pub open spec fn is_measured<N: Number>(f: FeatureVector<N>) -> bool {
    &&& is_bounded(f.price, PRICE_BOUND as int)
    &&& is_bounded_if_there(f.momentum_micro, 1_000_000)
    &&& is_bounded_if_there(f.momentum_short, 1_000_000)
    &&& is_bounded(f.ofi_30s, 1)
    &&& is_bounded(f.ofi_300s, 1)
    &&& f.vwap_deviation matches Some(x) ==> x.is_number()
    &&& is_bounded_if_there(f.rsi_14, 100)
    &&& is_bounded_if_there(f.autocorr_lag1, 1)
}

/// A pair of averages that are numbers, where they are there.
pub open spec fn pair_counts<N: Number>(pair: (Option<N>, Option<N>)) -> bool {
    is_bounded_if_there(pair.0, PRICE_BOUND as int) && is_bounded_if_there(
        pair.1,
        PRICE_BOUND as int,
    )
}

/// All moving averages are numbers, where they are there.
pub open spec fn averages_count<N: Number>(a: MultiScaleView<N>) -> bool {
    pair_counts(a.micro) && pair_counts(a.short) && pair_counts(a.medium) && pair_counts(a.broad)
}

/// All signals have a confidence that is a number.
pub open spec fn signals_are_definite<N: Number>(signals: Seq<TrendSignal<N>>) -> bool {
    forall|i: int| 0 <= i < signals.len() ==> is_definite((#[trigger] signals[i]).confidence)
}

proof fn definite_is_bounded<N: Number>(c: N)
    requires
        has_bounds::<N>(),
        is_definite(c),
    ensures
        is_bounded(c, 1),
        not_negative(c),
{
    reveal(has_bounds);
    reveal(is_monotone);
    let (minus, zero) = (N::of_int(-1), N::of_int(0));
    assert(minus.is_below(zero));
    if c.is_below(minus) {
        assert(c.is_below(zero));
    }
}

proof fn clamped_is_definite<N: Number>(x: N)
    requires
        has_bounds::<N>(),
        x.is_number(),
    ensures
        is_definite(clamped(x, N::of_int(0), N::of_int(1))),
{
    reveal(has_bounds);
    reveal(is_monotone);
    assert(N::of_int(0).is_below(N::of_int(1)));
}

// ---------------------------------------------------------------------------
// Moving averages and their crossovers
// ---------------------------------------------------------------------------
proof fn average_counts<N: Number>(value: Option<N>, period: int, p: N)
    requires
        has_bounds::<N>(),
        is_bounded_if_there(value, PRICE_BOUND as int),
        is_bounded(p, PRICE_BOUND as int),
        3 <= period <= 1_000,
    ensures
        is_bounded(ema_after(value, ema_weight::<N>(period), p), PRICE_BOUND as int),
{
    if let Some(v) = value {
        let alpha = ema_weight::<N>(period);
        bound_widens(v, PRICE_BOUND as int, LARGEST_BOUND as int);
        bound_widens(p, PRICE_BOUND as int, LARGEST_BOUND as int);
        fraction_is_bounded::<N>(2, period + 1, 1);
        reveal(has_bounds);
        reveal(is_monotone);
        assert(N::of_int(period).sum(N::of_int(1)) == N::of_int(period + 1));
        assert(alpha == N::of_ratio(2, period + 1));
        assert(is_between(N::of_int(0), alpha, N::of_ratio(1, 2)));
        let to = v.sum(alpha.product(p.difference(v)));
        let (low, high) = (N::of_int(-(PRICE_BOUND as int)), N::of_int(PRICE_BOUND as int));
        assert(to.is_number());
        assert(!p.is_below(v) || !v.is_below(p));
        assert(!to.is_below(low)) by {
            if to.is_below(low) {
                assert(to.is_below(v) || v.is_below(low));
                assert(to.is_below(p) || p.is_below(low));
            }
        }
        assert(!high.is_below(to)) by {
            if high.is_below(to) {
                assert(high.is_below(v) || v.is_below(to));
                assert(high.is_below(p) || p.is_below(to));
            }
        }
    }
}

proof fn spread_is_a_number<N: Number>(fast: N, slow: N)
    requires
        has_bounds::<N>(),
        is_bounded(fast, PRICE_BOUND as int),
        is_bounded(slow, PRICE_BOUND as int),
    ensures
        ema_spread(fast, slow).is_number(),
        ema_spread(fast, slow).magnitude().quotient(N::of_ratio(5, 1_000)).is_number(),
{
    difference_is_bounded(fast, PRICE_BOUND as int, slow, PRICE_BOUND as int);
    integer_is_bounded::<N>(0);
    if !slow.is_same(N::of_int(0)) {
        quotient_is_a_number(fast.difference(slow), slow, PRICE_BOUND as int);
    }
    let spread = ema_spread(fast, slow);
    fraction_is_bounded::<N>(5, 1_000, 1);
    let scale = N::of_ratio(5, 1_000);
    assert(spread.magnitude().is_number() && !scale.is_same(N::of_int(0))) by {
        reveal(has_bounds);
        reveal(is_monotone);
        assert(N::of_int(0).is_below(scale));
    }
    quotient_is_a_number(spread.magnitude(), scale, 1);
}

proof fn raised_confidence_is_definite<N: Number>(spread: N, raw: N, momentum: Option<N>)
    requires
        has_bounds::<N>(),
        is_bounded(raw, 1),
    ensures
        is_definite(crossover_confidence(spread, raw, momentum)),
{
    fraction_is_bounded::<N>(12, 10, 2);
    fraction_is_bounded::<N>(7, 10, 1);
    product_is_bounded(raw, 1, N::of_ratio(12, 10), 2);
    product_is_bounded(raw, 1, N::of_ratio(7, 10), 1);
    let one = N::of_int(1);
    integer_is_bounded::<N>(1);
    let up = raw.product(N::of_ratio(12, 10)).smaller(one);
    assert(up.is_number()) by {
        reveal(has_bounds);
        reveal(is_monotone);
        assert(up == raw.product(N::of_ratio(12, 10)) || up == one);
    }
    let c = match momentum {
        Some(m) => if N::of_int(0).is_below(spread) == N::of_int(0).is_below(m) {
            up
        } else {
            raw.product(N::of_ratio(7, 10))
        },
        None => raw,
    };
    clamped_is_definite(c);
}

/// A crossover of two averages that are numbers has a confidence that is a number.
pub proof fn crossover_confidence_is_a_number<N: Analytic>(
    fast: N,
    slow: N,
    momentum: Option<N>,
    scale: TimeScale,
    ts: i64,
    signal: TrendSignal<N>,
)
    requires
        has_bounds::<N>(),
        is_analytic::<N>(),
        is_bounded(fast, PRICE_BOUND as int),
        is_bounded(slow, PRICE_BOUND as int),
        is_crossover(fast, slow, momentum, scale, ts, signal),
    ensures
        is_definite(signal.confidence),
{
    spread_is_a_number(fast, slow);
    let spread = ema_spread(fast, slow);
    let x = spread.magnitude().quotient(N::of_ratio(5, 1_000));
    let raw = choose|raw: N| #[trigger]
        is_tanh(x, raw) && signal.confidence == crossover_confidence(spread, raw, momentum);
    assert(is_tanh(x, raw));
    raised_confidence_is_definite(spread, raw, momentum);
}

/// On features that are numbers, the moving averages stay numbers and the confidences of
/// their crossovers are numbers.
pub proof fn trend_confidences_are_numbers<N: Analytic>(
    before: MultiScaleView<N>,
    f: FeatureVector<N>,
    after: MultiScaleView<N>,
    signals: Seq<TrendSignal<N>>,
)
    requires
        has_bounds::<N>(),
        is_analytic::<N>(),
        is_measured(f),
        averages_count(before),
        trends_advanced(before, f, after, signals),
    ensures
        averages_count(after),
        signals_are_definite(signals),
{
    let p = f.price;
    average_counts(before.micro.0, 5, p);
    average_counts(before.micro.1, 20, p);
    average_counts(before.short.0, 12, p);
    average_counts(before.short.1, 60, p);
    average_counts(before.medium.0, 20, p);
    average_counts(before.medium.1, 200, p);
    average_counts(before.broad.0, 50, p);
    average_counts(before.broad.1, 500, p);
    let micro = pair_after(before.micro, 5, 20, p);
    let short = pair_after(before.short, 12, 60, p);
    let medium = pair_after(before.medium, 20, 200, p);
    let broad = pair_after(before.broad, 50, 500, p);
    let ts = f.ts_micros;
    crossover_confidence_is_a_number(
        micro.0,
        micro.1,
        f.momentum_micro,
        TimeScale::Micro,
        ts,
        signals[0],
    );
    crossover_confidence_is_a_number(
        short.0,
        short.1,
        f.momentum_short,
        TimeScale::Short,
        ts,
        signals[1],
    );
    crossover_confidence_is_a_number(
        medium.0,
        medium.1,
        f.momentum_short,
        TimeScale::Medium,
        ts,
        signals[2],
    );
    crossover_confidence_is_a_number(broad.0, broad.1, None, TimeScale::Broad, ts, signals[3]);
}

// ---------------------------------------------------------------------------
// The direction classifier
// ---------------------------------------------------------------------------
proof fn rsi_score_is_bounded<N: Number>(rsi: Option<N>)
    requires
        has_bounds::<N>(),
        is_bounded_if_there(rsi, 100),
    ensures
        is_bounded(rsi_score(rsi), 150),
{
    integer_is_bounded::<N>(0);
    bound_widens(N::of_int(0), 0, 150);
    fraction_is_bounded::<N>(-1, 2, 1);
    fraction_is_bounded::<N>(1, 2, 1);
    bound_widens(N::of_ratio(-1, 2), 1, 150);
    bound_widens(N::of_ratio(1, 2), 1, 150);
    if let Some(r) = rsi {
        let fifty = N::of_int(50);
        integer_is_bounded::<N>(50);
        difference_is_bounded(r, 100, fifty, 50);
        let d = r.difference(fifty);
        assert(!fifty.is_same(N::of_int(0)) && within(d.quotient(fifty), 150)) by {
            reveal(has_bounds);
            reveal(is_monotone);
            assert(N::of_int(0).is_below(fifty));
            assert(!fifty.is_below(N::of_int(1)));
        }
        quotient_is_a_number(d, fifty, 50);
    }
}

proof fn composite_is_a_number<N: Number>(f: FeatureVector<N>, scale: TimeScale)
    requires
        has_bounds::<N>(),
        is_measured(f),
    ensures
        composite_score(f, scale).is_number(),
{
    let zero = N::of_int(0);
    integer_is_bounded::<N>(0);
    integer_is_bounded::<N>(1);
    integer_is_bounded::<N>(100);
    let m = or_default(
        match scale {
            TimeScale::Micro | TimeScale::Short => f.momentum_micro,
            _ => f.momentum_short,
        },
        zero,
    );
    bound_widens(zero, 0, 1_000_000);
    product_is_bounded(m, 1_000_000, N::of_int(100), 100);
    clamped_number_is_bounded(m.product(N::of_int(100)), 1);
    let mom = momentum_score(f, scale);
    assert(is_bounded(mom, 1));
    let ofi = match scale {
        TimeScale::Micro => f.ofi_30s,
        _ => f.ofi_300s,
    };
    let dev = or_default(f.vwap_deviation, zero);
    let held = clamped(dev, N::of_ratio(-1, 100), N::of_ratio(1, 100));
    fraction_is_bounded::<N>(-1, 100, 1);
    fraction_is_bounded::<N>(1, 100, 1);
    held_deviation_is_bounded(dev);
    let vwap = held.product(N::of_int(100));
    product_is_bounded(held, 1, N::of_int(100), 100);
    let rho = or_default(f.autocorr_lag1, zero);
    bound_widens(zero, 0, 1);
    assert(is_bounded(mom.sign(), 1)) by {
        reveal(has_bounds);
    }
    let autocorr = rho.product(mom.sign());
    product_is_bounded(rho, 1, mom.sign(), 1);
    let rsi = rsi_score(f.rsi_14);
    rsi_score_is_bounded(f.rsi_14);
    fraction_is_bounded::<N>(25, 100, 1);
    fraction_is_bounded::<N>(30, 100, 1);
    fraction_is_bounded::<N>(10, 100, 1);
    fraction_is_bounded::<N>(8, 10, 1);
    let a = N::of_ratio(25, 100).product(rsi);
    let b = N::of_ratio(30, 100).product(mom);
    let c = N::of_ratio(25, 100).product(ofi);
    let d = N::of_ratio(10, 100).product(vwap);
    let e = N::of_ratio(10, 100).product(autocorr);
    product_is_bounded(N::of_ratio(25, 100), 1, rsi, 150);
    product_is_bounded(N::of_ratio(30, 100), 1, mom, 1);
    product_is_bounded(N::of_ratio(25, 100), 1, ofi, 1);
    product_is_bounded(N::of_ratio(10, 100), 1, vwap, 100);
    product_is_bounded(N::of_ratio(10, 100), 1, autocorr, 1);
    sum_is_bounded(a, 150, b, 1);
    sum_is_bounded(a.sum(b), 151, c, 1);
    sum_is_bounded(a.sum(b).sum(c), 152, d, 100);
    sum_is_bounded(a.sum(b).sum(c).sum(d), 252, e, 1);
    let total = a.sum(b).sum(c).sum(d).sum(e);
    product_is_bounded(total, 253, N::of_ratio(8, 10), 1);
    product_is_bounded(total, 253, N::of_int(1), 1);
}

proof fn held_deviation_is_bounded<N: Number>(dev: N)
    requires
        has_bounds::<N>(),
        dev.is_number(),
        is_bounded(N::of_ratio(-1, 100), 1),
        is_bounded(N::of_ratio(1, 100), 1),
    ensures
        is_bounded(clamped(dev, N::of_ratio(-1, 100), N::of_ratio(1, 100)), 1),
{
    reveal(has_bounds);
    reveal(is_monotone);
    let (low, high) = (N::of_ratio(-1, 100), N::of_ratio(1, 100));
    let (minus, one) = (N::of_int(-1), N::of_int(1));
    if !dev.is_below(low) && !high.is_below(dev) {
        if dev.is_below(minus) {
            assert(dev.is_below(low) || low.is_below(minus));
        }
        if one.is_below(dev) {
            assert(one.is_below(high) || high.is_below(dev));
        }
    }
}

/// On features that are numbers, the classifier's confidence is a number between 0 and 1.
pub proof fn heuristic_confidence_is_a_number<N: Number>(f: FeatureVector<N>, scale: TimeScale)
    requires
        has_bounds::<N>(),
        is_measured(f),
    ensures
        is_definite(heuristic_signal(f, scale).confidence),
{
    composite_is_a_number(f, scale);
    reveal(has_bounds);
    reveal(is_monotone);
    let c = composite_score(f, scale).magnitude();
    let one = N::of_int(1);
    assert(c.is_number() && not_negative(c));
    assert(c.smaller(one) == c || c.smaller(one) == one);
    assert(!one.is_below(c.smaller(one)));
    assert(N::of_int(0).is_below(one));
}

// ---------------------------------------------------------------------------
// Votes
// ---------------------------------------------------------------------------
/// A weight that counts: a number, not negative, and at most `k`.
pub open spec fn is_weight<N: Number>(w: N, k: int) -> bool {
    is_bounded(w, k) && not_negative(w)
}

/// Votes that count.
pub open spec fn votes_count<N: Number>(v: Votes<N>, k: int) -> bool {
    is_weight(v.bull, k) && is_weight(v.bear, k) && is_weight(v.side, k)
}

proof fn weight_widens<N: Number>(w: N, j: int, k: int)
    requires
        has_bounds::<N>(),
        is_weight(w, j),
        j <= k,
    ensures
        is_weight(w, k),
{
    bound_widens(w, j, k);
}

proof fn weights_add_up<N: Number>(a: N, j: int, b: N, k: int)
    requires
        has_bounds::<N>(),
        is_weight(a, j),
        is_weight(b, k),
        0 <= j <= 1_000,
        0 <= k <= 1_000,
    ensures
        is_weight(a.sum(b), j + k),
        !a.sum(b).is_below(a),
        !a.sum(b).is_below(b),
{
    sum_is_bounded(a, j, b, k);
    reveal(has_bounds);
    reveal(is_monotone);
}

proof fn weight_times_confidence<N: Number>(w: N, k: int, c: N)
    requires
        has_bounds::<N>(),
        is_weight(w, k),
        0 <= k <= 1_000,
        is_definite(c),
    ensures
        is_weight(w.product(c), k),
{
    definite_is_bounded(c);
    product_is_bounded(w, k, c, 1);
    reveal(has_bounds);
    reveal(is_monotone);
}

proof fn no_votes_count<N: Number>()
    requires
        has_bounds::<N>(),
    ensures
        votes_count(Votes::<N>::none(), 0),
{
    integer_is_bounded::<N>(0);
    reveal(has_bounds);
    reveal(is_monotone);
}

proof fn vote_counts<N: Number>(v: Votes<N>, j: int, direction: TrendDirection, w: N, k: int)
    requires
        has_bounds::<N>(),
        votes_count(v, j),
        is_weight(w, k),
        0 <= j <= 1_000,
        0 <= k <= 1_000,
    ensures
        votes_count(v.with(direction, w), j + k),
{
    weights_add_up(v.bull, j, w, k);
    weights_add_up(v.bear, j, w, k);
    weights_add_up(v.side, j, w, k);
    weight_widens(v.bull, j, j + k);
    weight_widens(v.bear, j, j + k);
    weight_widens(v.side, j, j + k);
}

proof fn share_is_bounded<N: Number>(v: Votes<N>, k: int)
    requires
        has_bounds::<N>(),
        votes_count(v, k),
        0 <= k <= 100,
        !v.weight().is_same(N::of_int(0)),
    ensures
        is_bounded(v.behind(v.leader()).quotient(v.weight()), 1),
{
    let part = v.behind(v.leader());
    weights_add_up(v.bull, k, v.bear, k);
    let two = v.bull.sum(v.bear);
    weights_add_up(two, 2 * k, v.side, k);
    let total = v.weight();
    quotient_is_a_number(part, total, 3 * k);
    reveal(has_bounds);
    reveal(is_monotone);
    let zero = N::of_int(0);
    assert(!total.is_below(part)) by {
        if total.is_below(part) {
            assert(total.is_below(two) || two.is_below(part));
        }
    }
    assert(!zero.is_below(zero.difference(total)));
    assert(!part.is_below(zero.difference(total))) by {
        if part.is_below(zero.difference(total)) {
            assert(part.is_below(zero) || zero.is_below(zero.difference(total)));
        }
    }
    assert(is_between(N::of_int(-1), part.quotient(total), N::of_int(1)));
}

/// Signals whose confidences are numbers blend into one whose confidence is a number.
pub proof fn blended_confidence_is_a_number<N: Number>(
    a: TrendSignal<N>,
    b: TrendSignal<N>,
    p: int,
    q: int,
)
    requires
        has_bounds::<N>(),
        is_definite(a.confidence),
        is_definite(b.confidence),
        0 <= p <= q <= 1_000_000,
        0 < q,
    ensures
        is_definite(blended(a, b, N::of_ratio(p, q)).confidence),
{
    let (zero, one, wa) = (N::of_int(0), N::of_int(1), N::of_ratio(p, q));
    fraction_is_bounded::<N>(p, q, 1);
    integer_is_bounded::<N>(1);
    integer_is_bounded::<N>(0);
    difference_is_bounded(one, 1, wa, 1);
    let wb = one.difference(wa);
    assert(not_negative(wa) && not_negative(wb) && is_definite(zero)) by {
        reveal(has_bounds);
        reveal(is_monotone);
        assert(is_between(zero, wa, one));
        assert(zero.is_below(one));
    }
    weight_times_confidence(wa, 1, a.confidence);
    weight_times_confidence(wb, 2, b.confidence);
    no_votes_count::<N>();
    let first = Votes::none().with(a.direction, wa.product(a.confidence));
    vote_counts(Votes::<N>::none(), 0, a.direction, wa.product(a.confidence), 1);
    vote_counts(first, 1, b.direction, wb.product(b.confidence), 2);
    let votes = first.with(b.direction, wb.product(b.confidence));
    if zero.is_below(votes.weight()) {
        assert(!votes.weight().is_same(zero)) by {
            reveal(has_bounds);
            reveal(is_monotone);
        }
        share_is_bounded(votes, 3);
        clamped_is_definite(votes.behind(votes.leader()).quotient(votes.weight()));
    }
}

/// Four signals whose confidences are numbers fuse into one whose confidence is a number.
pub proof fn fused_confidence_is_a_number<N: Number>(signals: Seq<TrendSignal<N>>)
    requires
        has_bounds::<N>(),
        signals.len() == 4,
        signals_are_definite(signals),
    ensures
        is_definite(fused_signal(signals).1),
{
    let votes = signal_votes(signals, 4);
    let zero = N::of_int(0);
    signal_votes_count(signals, 4);
    integer_is_bounded::<N>(1);
    assert(is_definite(zero)) by {
        reveal(has_bounds);
        reveal(is_monotone);
        assert(zero.is_below(N::of_int(1)));
    }
    if !votes.weight().is_same(zero) {
        share_is_bounded(votes, 4);
        let share = votes.behind(votes.leader()).quotient(votes.weight());
        fraction_is_bounded::<N>(6, 10, 1);
        fraction_is_bounded::<N>(85, 100, 1);
        product_is_bounded(share, 1, conflict_dampening(signals), 1);
        clamped_is_definite(share.product(conflict_dampening(signals)));
    }
}

proof fn signal_votes_count<N: Number>(signals: Seq<TrendSignal<N>>, n: nat)
    requires
        has_bounds::<N>(),
        n <= 4,
        n <= signals.len(),
        signals_are_definite(signals),
    ensures
        votes_count(signal_votes(signals, n), n as int),
    decreases n,
{
    if n == 0 {
        no_votes_count::<N>();
    } else {
        signal_votes_count(signals, (n - 1) as nat);
        let s = signals[n - 1];
        let w = scale_weight::<N>(n - 1);
        fraction_is_bounded::<N>(15, 100, 1);
        fraction_is_bounded::<N>(35, 100, 1);
        fraction_is_bounded::<N>(30, 100, 1);
        fraction_is_bounded::<N>(20, 100, 1);
        assert(not_negative(w)) by {
            reveal(has_bounds);
            reveal(is_monotone);
            let zero = N::of_int(0);
            assert(is_between(zero, N::of_ratio(15, 100), N::of_int(1)));
            assert(is_between(zero, N::of_ratio(35, 100), N::of_int(1)));
            assert(is_between(zero, N::of_ratio(30, 100), N::of_int(1)));
            assert(is_between(zero, N::of_ratio(20, 100), N::of_int(1)));
        }
        weight_times_confidence(w, 1, s.confidence);
        vote_counts(
            signal_votes(signals, (n - 1) as nat),
            n - 1,
            s.direction,
            w.product(s.confidence),
            1,
        );
    }
}

} // verus!
