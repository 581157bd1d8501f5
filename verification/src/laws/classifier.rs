//! What the direction classifier makes of a feature vector, in exact decimals.

use vstd::prelude::*;
use crate::features::FeatureVector;
use crate::laws::decimal::{is_near, product_is_near, whole_multiple_is_exact, whole_part_is_near};
use crate::models::{composite_score, heuristic_signal, momentum_score, rsi_score};
use crate::number::{Fixed, Number, UNITS};
use crate::types::TimeScale;

verus! {

/// `x`, or the end of the range from `-k` to `k` that it has passed.
pub open spec fn held(x: int, k: int) -> int {
    if x > k {
        k
    } else if x < -k {
        -k
    } else {
        x
    }
}

/// The score of an RSI: overbought counts against, oversold for, by one half; between 30
/// and 70 it is the distance from 50 over 50.
pub open spec fn scores_the_rsi(rsi: Option<Fixed>, score: int) -> bool {
    let u = UNITS as int;
    match rsi {
        None => score == 0,
        Some(x) => {
            &&& x.units > 70 * u ==> 2 * score == -u
            &&& x.units < 30 * u ==> 2 * score == u
            &&& 30 * u <= x.units <= 70 * u ==> is_near(score, x.units - 50 * u, 50)
        },
    }
}

/// An optional number of units; 0 where there is none.
pub open spec fn units_or_none(x: Option<Fixed>) -> int {
    match x {
        Some(x) => x.units as int,
        None => 0,
    }
}

/// Features whose scores exact decimals hold.
pub open spec fn is_scored(f: FeatureVector<Fixed>) -> bool {
    let (u, most) = (UNITS as int, 90_000_000_000_000_000int);
    &&& f.rsi_14 matches Some(x) ==> 0 <= x.units <= 100 * u
    &&& -most <= units_or_none(f.momentum_micro) <= most
    &&& -most <= units_or_none(f.momentum_short) <= most
    &&& -u <= f.ofi_30s.units <= u
    &&& -u <= f.ofi_300s.units <= u
    &&& -u <= units_or_none(f.autocorr_lag1) <= u
}

proof fn weighted(w: int, x: Fixed)
    requires
        0 <= w <= 100,
        -UNITS <= x.units <= UNITS,
    ensures
        is_near(Fixed::of_ratio(w, 100).product(x).units as int, w * x.units, 100),
        -UNITS <= Fixed::of_ratio(w, 100).product(x).units <= UNITS,
{
    let u = UNITS as int;
    assert(u == 100_000_000);
    let weight = Fixed::of_ratio(w, 100);
    assert(weight.units == w * 1_000_000);
    let (a, b) = (weight.units as int, x.units as int);
    assert(a * b == 1_000_000 * (w * b)) by (nonlinear_arith)
        requires
            a == w * 1_000_000,
    ;
    assert(-(u * u) <= a * b <= u * u) by (nonlinear_arith)
        requires
            0 <= a <= u,
            -u <= b <= u,
    ;
    product_is_near(weight, x);
    let y = weight.product(x).units as int;
    assert(-u <= y <= u) by (nonlinear_arith)
        requires
            a * b - u < y * u < a * b + u,
            -(u * u) <= a * b <= u * u,
            u == 100_000_000,
    ;
}

/// What becomes of a raw score: it counts for four fifths where the exchanges are more
/// than fifty dollars apart.
pub open spec fn is_dampened(raw: int, spread: int, composite: int) -> bool {
    if spread > 50 * UNITS {
        is_near(composite, 8 * raw, 10)
    } else {
        composite == raw
    }
}

/// The classifier weighs five scores: RSI and order flow by a quarter each, momentum by
/// three tenths, the distance from the average price and the autocorrelation in the
/// direction of the momentum by a tenth each. Beyond a tenth the sum tells the direction,
/// and its size, at most one, the confidence.
pub proof fn classifier_weighs_five_scores(f: FeatureVector<Fixed>, scale: TimeScale) -> (r: (
    int,
    int,
    int,
))
    requires
        is_scored(f),
    ensures
        ({
            let u = UNITS as int;
            let (rsi, raw, composite) = r;
            let signal = heuristic_signal(f, scale);
            let fast = scale is Micro || scale is Short;
            let momentum = held(
                100 * units_or_none(if fast { f.momentum_micro } else { f.momentum_short }),
                u,
            );
            let flow = if scale is Micro { f.ofi_30s.units as int } else { f.ofi_300s.units as int };
            let average = 100 * held(units_or_none(f.vwap_deviation), u / 100);
            let echo = if momentum < 0 {
                -units_or_none(f.autocorr_lag1)
            } else {
                units_or_none(f.autocorr_lag1)
            };
            let sum = 25 * rsi + 30 * momentum + 25 * flow + 10 * average + 10 * echo;
            &&& scores_the_rsi(f.rsi_14, rsi)
            &&& sum - 500 < 100 * raw < sum + 500
            &&& is_dampened(raw, f.inter_exchange_spread.units as int, composite)
            &&& signal.direction is Bullish <==> 10 * composite > u
            &&& signal.direction is Bearish <==> 10 * composite < -u
            &&& signal.confidence.units == held(
                if composite >= 0 { composite } else { -composite },
                u,
            )
            &&& signal.scale == scale
            &&& signal.computed_at == f.ts_micros
        }),
{
    let u = UNITS as int;
    assert(u == 100_000_000);
    let zero = Fixed::of_int(0);
    let rsi = rsi_score(f.rsi_14);
    rsi_is_scored(f.rsi_14);
    let mom = momentum_score(f, scale);
    momentum_is_scored(f, scale);
    let ofi = match scale {
        TimeScale::Micro => f.ofi_30s,
        _ => f.ofi_300s,
    };
    let dev = match f.vwap_deviation {
        Some(x) => x,
        None => zero,
    };
    let near = crate::number::clamped(dev, Fixed::of_ratio(-1, 100), Fixed::of_ratio(1, 100));
    average_is_scored(dev);
    let vwap = near.product(Fixed::of_int(100));
    let ac = match f.autocorr_lag1 {
        Some(x) => x,
        None => zero,
    };
    let echo = ac.product(mom.sign());
    signed_echo(ac, mom);
    let raw = weighted_sum(rsi, mom, ofi, vwap, echo);
    sum_is_near(rsi, mom, ofi, vwap, echo);
    let composite = composite_score(f, scale);
    let spread = f.inter_exchange_spread.units as int;
    assert(Fixed::of_int(50).units == 50 * u);
    let dampen = if Fixed::of_int(50).is_below(f.inter_exchange_spread) {
        Fixed::of_ratio(8, 10)
    } else {
        Fixed::of_int(1)
    };
    assert(composite == raw.product(dampen));
    dampening_is_near(raw);
    assert(Fixed::of_ratio(1, 10).units == 10_000_000);
    assert(Fixed::of_ratio(-1, 10).units == -10_000_000);
    assert(Fixed::of_int(1).units == u);
    (rsi.units as int, raw.units as int, composite.units as int)
}

spec fn weighted_sum(rsi: Fixed, mom: Fixed, ofi: Fixed, vwap: Fixed, echo: Fixed) -> Fixed {
    Fixed::of_ratio(25, 100).product(rsi).sum(Fixed::of_ratio(30, 100).product(mom)).sum(
        Fixed::of_ratio(25, 100).product(ofi),
    ).sum(Fixed::of_ratio(10, 100).product(vwap)).sum(Fixed::of_ratio(10, 100).product(echo))
}

proof fn sum_is_near(rsi: Fixed, mom: Fixed, ofi: Fixed, vwap: Fixed, echo: Fixed)
    requires
        -UNITS <= rsi.units <= UNITS,
        -UNITS <= mom.units <= UNITS,
        -UNITS <= ofi.units <= UNITS,
        -UNITS <= vwap.units <= UNITS,
        -UNITS <= echo.units <= UNITS,
    ensures
        ({
            let sum = 25 * rsi.units + 30 * mom.units + 25 * ofi.units + 10 * vwap.units + 10
                * echo.units;
            let raw = weighted_sum(rsi, mom, ofi, vwap, echo).units;
            &&& sum - 500 < 100 * raw < sum + 500
            &&& -5 * UNITS <= raw <= 5 * UNITS
        }),
{
    weighted(25, rsi);
    weighted(30, mom);
    weighted(25, ofi);
    weighted(10, vwap);
    weighted(10, echo);
    let (a, b, c, d, e) = (
        Fixed::of_ratio(25, 100).product(rsi),
        Fixed::of_ratio(30, 100).product(mom),
        Fixed::of_ratio(25, 100).product(ofi),
        Fixed::of_ratio(10, 100).product(vwap),
        Fixed::of_ratio(10, 100).product(echo),
    );
    plain_sum(a, b, c, d, e);
}

proof fn plain_sum(a: Fixed, b: Fixed, c: Fixed, d: Fixed, e: Fixed)
    requires
        -UNITS <= a.units <= UNITS,
        -UNITS <= b.units <= UNITS,
        -UNITS <= c.units <= UNITS,
        -UNITS <= d.units <= UNITS,
        -UNITS <= e.units <= UNITS,
    ensures
        a.sum(b).sum(c).sum(d).sum(e).units == a.units + b.units + c.units + d.units + e.units,
{
}

proof fn rsi_is_scored(rsi: Option<Fixed>)
    requires
        rsi matches Some(x) ==> 0 <= x.units <= 100 * UNITS,
    ensures
        scores_the_rsi(rsi, rsi_score(rsi).units as int),
        -UNITS <= rsi_score(rsi).units <= UNITS,
{
    let u = UNITS as int;
    assert(u == 100_000_000);
    assert(Fixed::of_int(70).units == 70 * u && Fixed::of_int(30).units == 30 * u);
    assert(Fixed::of_int(50).units == 50 * u && Fixed::of_int(0).units == 0);
    assert(Fixed::of_ratio(1, 2).units == 50_000_000);
    assert(Fixed::of_ratio(-1, 2).units == -50_000_000);
    if let Some(x) = rsi {
        whole_part_is_near(x.difference(Fixed::of_int(50)), 50);
    }
}

proof fn momentum_is_scored(f: FeatureVector<Fixed>, scale: TimeScale)
    requires
        is_scored(f),
    ensures
        momentum_score(f, scale).units == held(
            100 * units_or_none(
                if scale is Micro || scale is Short { f.momentum_micro } else { f.momentum_short },
            ),
            UNITS as int,
        ),
{
    let u = UNITS as int;
    assert(Fixed::of_int(1).units == u && Fixed::of_int(-1).units == -u);
    assert(Fixed::of_int(0).units == 0);
    let m = match scale {
        TimeScale::Micro | TimeScale::Short => f.momentum_micro,
        _ => f.momentum_short,
    };
    multiple_is_exact(
        match m {
            Some(x) => x,
            None => Fixed::of_int(0),
        },
    );
}

proof fn average_is_scored(dev: Fixed)
    ensures
        crate::number::clamped(
            dev,
            Fixed::of_ratio(-1, 100),
            Fixed::of_ratio(1, 100),
        ).product(Fixed::of_int(100)).units == 100 * held(dev.units as int, UNITS / 100),
{
    assert(Fixed::of_ratio(1, 100).units == 1_000_000);
    assert(Fixed::of_ratio(-1, 100).units == -1_000_000);
    multiple_is_exact(
        crate::number::clamped(dev, Fixed::of_ratio(-1, 100), Fixed::of_ratio(1, 100)),
    );
}

proof fn dampening_is_near(raw: Fixed)
    requires
        -5 * UNITS <= raw.units <= 5 * UNITS,
    ensures
        is_near(raw.product(Fixed::of_ratio(8, 10)).units as int, 8 * raw.units, 10),
        raw.product(Fixed::of_int(1)).units == raw.units,
        -5 * UNITS <= raw.product(Fixed::of_ratio(8, 10)).units <= 5 * UNITS,
{
    let u = UNITS as int;
    assert(u == 100_000_000);
    assert(Fixed::of_ratio(8, 10).units == 80_000_000);
    let x = raw.units as int;
    assert(raw.units * 80_000_000 == 10_000_000 * (8 * x));
    product_is_near(raw, Fixed::of_ratio(8, 10));
    whole_multiple_is_exact(raw, 1);
}

proof fn multiple_is_exact(x: Fixed)
    requires
        -90_000_000_000_000_000 <= x.units <= 90_000_000_000_000_000,
    ensures
        x.product(Fixed::of_int(100)).units == 100 * x.units,
{
    whole_multiple_is_exact(x, 100);
}

proof fn signed_echo(ac: Fixed, mom: Fixed)
    requires
        -UNITS <= ac.units <= UNITS,
    ensures
        ac.product(mom.sign()).units == (if mom.units < 0 { -ac.units } else { ac.units as int }),
{
    let (a, u) = (ac.units as int, UNITS as int);
    assert(u == 100_000_000);
    if mom.units < 0 {
        assert(mom.sign().units == -100_000_000);
        assert(ac.units * mom.sign().units == (-a) * 100_000_000) by (nonlinear_arith)
            requires
                a == ac.units,
                mom.sign().units == -100_000_000,
        ;
        let b = -a;
        assert((b * 100_000_000) / 100_000_000 == b);
    } else {
        assert(mom.sign().units == 100_000_000);
        assert(ac.units * mom.sign().units == a * 100_000_000) by (nonlinear_arith)
            requires
                a == ac.units,
                mom.sign().units == 100_000_000,
        ;
        assert((a * 100_000_000) / 100_000_000 == a);
    }
}

} // verus!
