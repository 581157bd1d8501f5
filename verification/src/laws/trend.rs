//! Which way the trend signals point.

use vstd::prelude::*;
use crate::features::FeatureVector;
use crate::laws::decimal::{counts_in_decimals, division_is_near, is_near, units_in};
use crate::laws::sign::keeps_signs;
use crate::models::{ema_spread, is_crossover, trends_advanced, MultiScaleView};
use crate::number::{is_tanh, saturated, towards_zero, Analytic, Fixed, Number, UNITS};
use crate::types::{TimeScale, TrendDirection, TrendSignal};

verus! {

/// A signal points up only if the fast average lies above the slow one, and down only if
/// it lies below: a falling market is never read as a rising one.
pub proof fn crossover_points_the_right_way<N: Analytic>(
    fast: N,
    slow: N,
    momentum: Option<N>,
    scale: TimeScale,
    ts: i64,
    signal: TrendSignal<N>,
)
    requires
        keeps_signs::<N>(),
        N::of_int(0).is_below(slow),
        is_crossover(fast, slow, momentum, scale, ts, signal),
    ensures
        signal.direction is Bullish ==> slow.is_below(fast),
        signal.direction is Bearish ==> fast.is_below(slow),
{
    reveal(keeps_signs);
    let zero = N::of_int(0);
    let gap = fast.difference(slow);
    let spread = ema_spread(fast, slow);
    assert(N::of_ratio(-2, 10_000).is_below(zero));
    assert(zero.is_below(N::of_ratio(2, 10_000)));
}

/// A signal is Bullish exactly when the fast average exceeds a positive slow one by more
/// than 0.02 % of it, and Bearish exactly when it falls short of it by more, counted in
/// units; otherwise it is Sideways.
pub proof fn crossover_counts_beyond_its_threshold<N: Analytic>(
    d: spec_fn(N) -> Fixed,
    fast: N,
    slow: N,
    momentum: Option<N>,
    scale: TimeScale,
    ts: i64,
    signal: TrendSignal<N>,
)
    requires
        counts_in_decimals(d),
        units_in(d, slow) > 0,
        units_in(d, fast) >= 0,
        is_crossover(fast, slow, momentum, scale, ts, signal),
    ensures
        ({
            let lead = units_in(d, fast) - units_in(d, slow);
            let step = 20_001 * units_in(d, slow);
            &&& signal.direction is Bullish <==> lead * UNITS >= step
            &&& signal.direction is Bearish <==> lead * UNITS <= -step
        }),
{
    reveal(counts_in_decimals);
    let (f, s) = (d(fast), d(slow));
    let lead = f.units - s.units;
    assert(d(fast.difference(slow)) == f.difference(s));
    assert(f.difference(s).units == lead);
    let spread = ema_spread(fast, slow);
    assert(d(N::of_int(0)) == Fixed::of_int(0));
    assert(spread == fast.difference(slow).quotient(slow));
    assert(d(spread) == f.difference(s).quotient(s));
    let (x, v) = (lead * UNITS, s.units as int);
    division_is_near(x, v);
    let t = towards_zero(x, v);
    assert(d(spread).units == saturated(t));
    assert(Fixed::of_ratio(-2, 10_000).units == -20_000);
    assert(Fixed::of_ratio(2, 10_000).units == 20_000);
    assert(d(N::of_ratio(-2, 10_000)).units == -20_000);
    assert(d(N::of_ratio(2, 10_000)).units == 20_000);
    let step = 20_001 * v;
    assert((t >= 20_001 <==> x >= step) && (t <= -20_001 <==> x <= -step)) by (nonlinear_arith)
        requires
            v > 0,
            step == 20_001 * v,
            x - v < t * v < x + v,
            x >= 0 ==> 0 <= t && t * v <= x,
            x <= 0 ==> t <= 0 && x <= t * v,
    ;
}

/// The opposite direction.
pub open spec fn opposite(direction: TrendDirection) -> TrendDirection {
    match direction {
        TrendDirection::Bullish => TrendDirection::Bearish,
        TrendDirection::Bearish => TrendDirection::Bullish,
        TrendDirection::Sideways => TrendDirection::Sideways,
    }
}

/// Exchanging rise and fall exchanges Bullish and Bearish: where one fast average leads by
/// as much as another trails, their signals are opposite.
pub proof fn opposite_leads_give_opposite_signals<N: Analytic>(
    d: spec_fn(N) -> Fixed,
    leads: N,
    trails: N,
    slow: N,
    momenta: (Option<N>, Option<N>),
    scale: TimeScale,
    ts: i64,
    a: TrendSignal<N>,
    b: TrendSignal<N>,
)
    requires
        counts_in_decimals(d),
        units_in(d, slow) > 0,
        units_in(d, leads) >= 0,
        units_in(d, trails) >= 0,
        units_in(d, leads) - units_in(d, slow) == units_in(d, slow) - units_in(d, trails),
        is_crossover(leads, slow, momenta.0, scale, ts, a),
        is_crossover(trails, slow, momenta.1, scale, ts, b),
    ensures
        b.direction == opposite(a.direction),
{
    crossover_counts_beyond_its_threshold(d, leads, slow, momenta.0, scale, ts, a);
    crossover_counts_beyond_its_threshold(d, trails, slow, momenta.1, scale, ts, b);
    let lead = units_in(d, leads) - units_in(d, slow);
    assert((-lead) * UNITS == -(lead * UNITS));
}

/// A moving average of a period goes from `old` towards a price by two parts in the period
/// and one, up to what exact decimals drop, and never the other way.
pub open spec fn moves_towards(old: int, price: int, new: int, period: int) -> bool {
    let (gap, way, parts, u) = (price - old, new - old, period + 1, UNITS as int);
    if gap >= 0 {
        2 * u * gap - parts * (gap + u) <= parts * way * u <= 2 * u * gap && way >= 0
    } else {
        2 * u * gap <= parts * way * u <= 2 * u * gap + parts * (u - gap) && way <= 0
    }
}

/// An average has taken in a price: the first one starts it, later ones move it.
pub open spec fn has_followed<N: Number>(
    d: spec_fn(N) -> Fixed,
    before: Option<N>,
    after: Option<N>,
    price: N,
    period: int,
) -> bool {
    match (before, after) {
        (None, Some(a)) => a == price,
        (Some(b), Some(a)) => moves_towards(
            units_in(d, b),
            units_in(d, price),
            units_in(d, a),
            period,
        ),
        _ => false,
    }
}

/// An average that is there is not negative.
pub open spec fn counts_up<N: Number>(d: spec_fn(N) -> Fixed, pair: (Option<N>, Option<N>)) -> bool {
    &&& pair.0 matches Some(x) ==> units_in(d, x) >= 0
    &&& pair.1 matches Some(x) ==> units_in(d, x) >= 0
}

proof fn average_follows<N: Number>(d: spec_fn(N) -> Fixed, before: Option<N>, price: N, period: int)
    requires
        counts_in_decimals(d),
        units_in(d, price) >= 0,
        before matches Some(x) ==> units_in(d, x) >= 0,
        2 <= period <= 1_000,
    ensures
        has_followed(
            d,
            before,
            Some(crate::models::ema_after(before, crate::models::ema_weight::<N>(period), price)),
            price,
            period,
        ),
{
    if let Some(v) = before {
        let u = UNITS as int;
        assert(u == 100_000_000);
        let parts = period + 1;
        let weight = crate::models::ema_weight::<N>(period);
        let alpha = (2 * u) / parts;
        assert(d(weight).units == alpha) by {
            reveal(counts_in_decimals);
            let one = Fixed::of_int(1);
            assert(d(weight) == Fixed::of_int(2).quotient(Fixed::of_int(period).sum(one)));
            assert(Fixed::of_int(period).sum(one).units == parts * u);
            assert(((2 * u) * u) / (parts * u) == (2 * u) / parts) by (nonlinear_arith)
                requires
                    parts > 0,
                    u == 100_000_000,
            ;
        }
        let (old, p) = (units_in(d, v), units_in(d, price));
        let gap = p - old;
        let after = crate::models::ema_after(before, weight, price);
        assert(0 <= alpha <= u && alpha * parts <= 2 * u < alpha * parts + parts)
            by (nonlinear_arith)
            requires
                alpha == (2 * u) / parts,
                parts >= 3,
                u == 100_000_000,
        ;
        crate::number::scaled_step_is_no_longer(alpha, gap);
        let way = towards_zero(alpha * gap, u);
        assert(d(after).units == old + way) by {
            reveal(counts_in_decimals);
            assert(d(price.difference(v)) == d(price).difference(d(v)));
            assert(d(weight.product(price.difference(v))) == d(weight).product(
                d(price.difference(v)),
            ));
        }
        division_is_near(alpha * gap, u);
        assert((gap >= 0 ==> alpha * gap >= 0) && (gap <= 0 ==> alpha * gap <= 0))
            by (nonlinear_arith)
            requires
                alpha >= 0,
        ;
        step_has_its_weight(alpha, parts, gap, way);
    }
}

proof fn step_has_its_weight(alpha: int, parts: int, gap: int, way: int)
    requires
        parts > 0,
        0 <= alpha <= UNITS,
        alpha * parts <= 2 * UNITS < alpha * parts + parts,
        is_near(way, alpha * gap, UNITS as int),
        gap >= 0 ==> way * UNITS <= alpha * gap,
        gap <= 0 ==> alpha * gap <= way * UNITS,
    ensures
        ({
            let u = UNITS as int;
            &&& gap >= 0 ==> 2 * u * gap - parts * (gap + u) <= parts * way * u <= 2 * u * gap
            &&& gap < 0 ==> 2 * u * gap <= parts * way * u <= 2 * u * gap + parts * (u - gap)
        }),
{
    let u = UNITS as int;
    let (x, ag, wu) = (alpha * parts, alpha * gap, way * u);
    assert(parts * way * u == parts * wu) by (nonlinear_arith)
        requires
            wu == way * u,
    ;
    assert(parts * ag == x * gap) by (nonlinear_arith)
        requires
            ag == alpha * gap,
            x == alpha * parts,
    ;
    assert(parts * ag - parts * u <= parts * wu <= parts * ag + parts * u) by (nonlinear_arith)
        requires
            parts > 0,
            ag - u < wu < ag + u,
    ;
    if gap >= 0 {
        assert(parts * wu <= parts * ag) by (nonlinear_arith)
            requires
                parts > 0,
                wu <= ag,
        ;
        assert(x * gap <= 2 * u * gap && 2 * u * gap - parts * gap <= x * gap) by (nonlinear_arith)
            requires
                gap >= 0,
                x <= 2 * u,
                2 * u < x + parts,
        ;
        assert(parts * (gap + u) == parts * gap + parts * u) by (nonlinear_arith);
    } else {
        assert(parts * ag <= parts * wu) by (nonlinear_arith)
            requires
                parts > 0,
                ag <= wu,
        ;
        assert(2 * u * gap <= x * gap && x * gap <= 2 * u * gap - parts * gap) by (nonlinear_arith)
            requires
                gap < 0,
                x <= 2 * u,
                2 * u < x + parts,
        ;
        assert(parts * (u - gap) == parts * u - parts * gap) by (nonlinear_arith);
    }
}

/// Each price moves the averages of the four scales over their own periods: 5 and 20, 12
/// and 60, 20 and 200, 50 and 500; the first price starts them all.
pub proof fn averages_follow_the_price<N: Analytic>(
    d: spec_fn(N) -> Fixed,
    before: MultiScaleView<N>,
    f: FeatureVector<N>,
    after: MultiScaleView<N>,
    signals: Seq<TrendSignal<N>>,
)
    requires
        counts_in_decimals(d),
        trends_advanced(before, f, after, signals),
        units_in(d, f.price) >= 0,
        counts_up(d, before.micro),
        counts_up(d, before.short),
        counts_up(d, before.medium),
        counts_up(d, before.broad),
    ensures
        has_followed(d, before.micro.0, after.micro.0, f.price, 5),
        has_followed(d, before.micro.1, after.micro.1, f.price, 20),
        has_followed(d, before.short.0, after.short.0, f.price, 12),
        has_followed(d, before.short.1, after.short.1, f.price, 60),
        has_followed(d, before.medium.0, after.medium.0, f.price, 20),
        has_followed(d, before.medium.1, after.medium.1, f.price, 200),
        has_followed(d, before.broad.0, after.broad.0, f.price, 50),
        has_followed(d, before.broad.1, after.broad.1, f.price, 500),
{
    average_follows(d, before.micro.0, f.price, 5);
    average_follows(d, before.micro.1, f.price, 20);
    average_follows(d, before.short.0, f.price, 12);
    average_follows(d, before.short.1, f.price, 60);
    average_follows(d, before.medium.0, f.price, 20);
    average_follows(d, before.medium.1, f.price, 200);
    average_follows(d, before.broad.0, f.price, 50);
    average_follows(d, before.broad.1, f.price, 500);
}

/// A direction says that one average exceeds the other by more than 0.02 %.
pub open spec fn tells_the_lead<N: Number>(
    d: spec_fn(N) -> Fixed,
    pair: (Option<N>, Option<N>),
    signal: TrendSignal<N>,
) -> bool {
    match pair {
        (Some(fast), Some(slow)) => units_in(d, slow) > 0 ==> {
            let lead = units_in(d, fast) - units_in(d, slow);
            let step = 20_001 * units_in(d, slow);
            &&& signal.direction is Bullish <==> lead * UNITS >= step
            &&& signal.direction is Bearish <==> lead * UNITS <= -step
        },
        _ => false,
    }
}

/// The four signals are those of the four scales, in order, and each tells which of its
/// scale's averages leads.
pub proof fn signals_tell_which_average_leads<N: Analytic>(
    d: spec_fn(N) -> Fixed,
    before: MultiScaleView<N>,
    f: FeatureVector<N>,
    after: MultiScaleView<N>,
    signals: Seq<TrendSignal<N>>,
)
    requires
        counts_in_decimals(d),
        trends_advanced(before, f, after, signals),
        units_in(d, f.price) >= 0,
        counts_up(d, after.micro),
        counts_up(d, after.short),
        counts_up(d, after.medium),
        counts_up(d, after.broad),
    ensures
        signals.len() == 4,
        tells_the_lead(d, after.micro, signals[0]),
        tells_the_lead(d, after.short, signals[1]),
        tells_the_lead(d, after.medium, signals[2]),
        tells_the_lead(d, after.broad, signals[3]),
        signals[0].scale is Micro,
        signals[1].scale is Short,
        signals[2].scale is Medium,
        signals[3].scale is Broad,
        forall|i: int| 0 <= i < 4 ==> (#[trigger] signals[i]).computed_at == f.ts_micros,
{
    let ts = f.ts_micros;
    let (m, n) = (f.momentum_micro, f.momentum_short);
    if let (Some(a), Some(b)) = after.micro {
        if units_in(d, b) > 0 {
            crossover_counts_beyond_its_threshold(d, a, b, m, TimeScale::Micro, ts, signals[0]);
        }
    }
    if let (Some(a), Some(b)) = after.short {
        if units_in(d, b) > 0 {
            crossover_counts_beyond_its_threshold(d, a, b, n, TimeScale::Short, ts, signals[1]);
        }
    }
    if let (Some(a), Some(b)) = after.medium {
        if units_in(d, b) > 0 {
            crossover_counts_beyond_its_threshold(d, a, b, n, TimeScale::Medium, ts, signals[2]);
        }
    }
    if let (Some(a), Some(b)) = after.broad {
        if units_in(d, b) > 0 {
            crossover_counts_beyond_its_threshold(d, a, b, None, TimeScale::Broad, ts, signals[3]);
        }
    }
}

/// A confidence made of a raw one: as it is without momentum, a fifth more where the
/// momentum agrees with the lead, and three tenths less where it does not; never outside
/// 0 to 1.
pub open spec fn is_adjusted(raw: int, agrees: Option<bool>, c: int) -> bool {
    let u = UNITS as int;
    match agrees {
        None => c == raw,
        Some(true) => 10 * c <= 12 * raw && (c == u || 12 * raw - 10 < 10 * c),
        Some(false) => 7 * raw - 10 < 10 * c <= 7 * raw,
    }
}

/// The confidence of a signal comes from the hyperbolic tangent of two hundred times the
/// lead as a fraction of the slow average, adjusted by what the momentum says.
pub proof fn confidence_grows_with_the_lead<N: Analytic>(
    d: spec_fn(N) -> Fixed,
    fast: N,
    slow: N,
    momentum: Option<N>,
    scale: TimeScale,
    ts: i64,
    signal: TrendSignal<N>,
) -> (r: (N, N))
    requires
        counts_in_decimals(d),
        units_in(d, slow) > 0,
        0 <= units_in(d, fast) <= 400_000_000 * units_in(d, slow),
        is_crossover(fast, slow, momentum, scale, ts, signal),
    ensures
        is_tanh(r.0, r.1),
        ({
            let (lead, base) = (units_in(d, fast) - units_in(d, slow), units_in(d, slow));
            let size = if lead >= 0 { lead } else { -lead };
            let rising = lead * UNITS >= base;
            &&& 200 * size * UNITS - 200 * base < units_in(d, r.0) * base <= 200 * size * UNITS
            &&& 0 <= units_in(d, r.1) <= UNITS ==> is_adjusted(
                units_in(d, r.1),
                match momentum {
                    None => None,
                    Some(m) => Some(rising == (units_in(d, m) > 0)),
                },
                units_in(d, signal.confidence),
            )
        }),
{
    let spread = ema_spread(fast, slow);
    let arg = spread.magnitude().quotient(N::of_ratio(5, 1_000));
    let raw = choose|raw: N| #[trigger]
        is_tanh(arg, raw) && signal.confidence == crate::models::crossover_confidence(
            spread,
            raw,
            momentum,
        );
    reveal(counts_in_decimals);
    let u = UNITS as int;
    assert(u == 100_000_000);
    let (f, s) = (d(fast), d(slow));
    let (lead, v) = (f.units - s.units, s.units as int);
    assert(d(N::of_int(0)) == Fixed::of_int(0) && d(N::of_int(1)) == Fixed::of_int(1));
    assert(d(fast.difference(slow)) == f.difference(s));
    assert(d(spread) == f.difference(s).quotient(s));
    let x = lead * u;
    division_is_near(x, v);
    let t = towards_zero(x, v);
    let top: int = 40_000_000_000_000_000;
    assert(-top <= t <= top) by (nonlinear_arith)
        requires
            v > 0,
            x == lead * u,
            u == 100_000_000,
            -v <= lead <= 400_000_000 * v,
            x >= 0 ==> 0 <= t && t * v <= x,
            x <= 0 ==> t <= 0 && x <= t * v,
            top == 40_000_000_000_000_000,
    ;
    assert(d(spread).units == t);
    let m = if t >= 0 { t } else { -t };
    assert(d(spread.magnitude()).units == m);
    assert(Fixed::of_ratio(5, 1_000).units == 500_000);
    assert(d(N::of_ratio(5, 1_000)).units == 500_000);
    assert((m * u) / 500_000 == 200 * m);
    assert(d(arg).units == 200 * m);
    let size = if lead >= 0 { lead } else { -lead };
    let y = size * u;
    assert(y - v < m * v <= y) by (nonlinear_arith)
        requires
            y == if x >= 0 { x } else { -x },
            m == if t >= 0 { t } else { -t },
            x - v < t * v < x + v,
            x >= 0 ==> 0 <= t && t * v <= x,
            x <= 0 ==> t <= 0 && x <= t * v,
            v > 0,
    ;
    assert(200 * size * u == 200 * y && (200 * m) * v == 200 * (m * v)) by (nonlinear_arith)
        requires
            y == size * u,
    ;
    assert(t > 0 <==> x >= v) by (nonlinear_arith)
        requires
            x - v < t * v < x + v,
            x >= 0 ==> 0 <= t && t * v <= x,
            x <= 0 ==> t <= 0 && x <= t * v,
            v > 0,
    ;
    assert(Fixed::of_ratio(12, 10).units == 120_000_000);
    assert(Fixed::of_ratio(7, 10).units == 70_000_000);
    assert(d(N::of_ratio(12, 10)).units == 120_000_000);
    assert(d(N::of_ratio(7, 10)).units == 70_000_000);
    let k = d(raw).units as int;
    if 0 <= k <= u {
        assert(d(raw.product(N::of_ratio(12, 10))) == d(raw).product(d(N::of_ratio(12, 10))));
        assert(d(raw.product(N::of_ratio(7, 10))) == d(raw).product(d(N::of_ratio(7, 10))));
        assert((k * 120_000_000) / u == (12 * k) / 10);
        assert((k * 70_000_000) / u == (7 * k) / 10);
        assert(d(raw.product(N::of_ratio(12, 10))).units == (12 * k) / 10);
        assert(d(raw.product(N::of_ratio(7, 10))).units == (7 * k) / 10);
        if let Some(mm) = momentum {
            assert(N::of_int(0).is_below(spread) == (t > 0));
            assert(N::of_int(0).is_below(mm) == (d(mm).units > 0));
        }
    }
    (arg, raw)
}

/// All four signals point one way.
pub open spec fn all_point<N>(signals: Seq<TrendSignal<N>>, direction: TrendDirection) -> bool {
    forall|i: int| 0 <= i < 4 ==> (#[trigger] signals[i]).direction == direction
}

/// The first price says nothing, and the second one sets the direction on every scale: a
/// fall by at least a hundredth is Bearish and such a rise Bullish.
pub proof fn second_price_sets_the_direction<N: Analytic>(
    d: spec_fn(N) -> Fixed,
    f: FeatureVector<N>,
    g: FeatureVector<N>,
    one: MultiScaleView<N>,
    two: MultiScaleView<N>,
    first: Seq<TrendSignal<N>>,
    second: Seq<TrendSignal<N>>,
)
    requires
        counts_in_decimals(d),
        trends_advanced(MultiScaleView::start(), f, one, first),
        trends_advanced(one, g, two, second),
        UNITS <= units_in(d, f.price) <= i64::MAX,
        UNITS <= units_in(d, g.price) <= 10 * units_in(d, f.price),
    ensures
        all_point(first, TrendDirection::Sideways),
        100 * units_in(d, g.price) <= 99 * units_in(d, f.price) ==> all_point(
            second,
            TrendDirection::Bearish,
        ),
        100 * units_in(d, g.price) >= 101 * units_in(d, f.price) ==> all_point(
            second,
            TrendDirection::Bullish,
        ),
{
    averages_follow_the_price(d, MultiScaleView::start(), f, one, first);
    signals_tell_which_average_leads(d, MultiScaleView::start(), f, one, first);
    averages_follow_the_price(d, one, g, two, second);
    let (p, q) = (units_in(d, f.price), units_in(d, g.price));
    pair_leads(d, p, q, two.micro, 5, 20);
    pair_leads(d, p, q, two.short, 12, 60);
    pair_leads(d, p, q, two.medium, 20, 200);
    pair_leads(d, p, q, two.broad, 50, 500);
    signals_tell_which_average_leads(d, one, g, two, second);
}

proof fn pair_leads<N: Number>(
    d: spec_fn(N) -> Fixed,
    p: int,
    q: int,
    pair: (Option<N>, Option<N>),
    fast: int,
    slow: int,
)
    requires
        pair.0 is Some,
        pair.1 is Some,
        moves_towards(p, q, units_in(d, pair.0->0), fast),
        moves_towards(p, q, units_in(d, pair.1->0), slow),
        UNITS <= p,
        UNITS <= q <= 10 * p,
        (fast == 5 && slow == 20) || (fast == 12 && slow == 60) || (fast == 20 && slow == 200) || (
        fast == 50 && slow == 500),
    ensures
        ({
            let (a, b) = (units_in(d, pair.0->0), units_in(d, pair.1->0));
            &&& a > 0
            &&& b > 0
            &&& 100 * q <= 99 * p ==> (a - b) * UNITS <= -(20_001 * b)
            &&& 100 * q >= 101 * p ==> (a - b) * UNITS >= 20_001 * b
        }),
{
    let (a, b) = (units_in(d, pair.0->0), units_in(d, pair.1->0));
    if fast == 5 {
        assert(slow == 20);
        step_in_units(p, q, a, 5, 6, 600_000_000);
        step_in_units(p, q, b, 20, 21, 2_100_000_000);
        let (g, x, y) = (q - p, a - p, b - p);
        assert(g >= 0 ==> 200_000_000 * g - 6 * g - 600_000_000 <= 600_000_000 * x);
        assert(g >= 0 ==> 600_000_000 * x <= 200_000_000 * g);
        assert(g >= 0 ==> 2_100_000_000 * y <= 200_000_000 * g && y >= 0);
        assert(g < 0 ==> 200_000_000 * g <= 600_000_000 * x);
        assert(g < 0 ==> 600_000_000 * x <= 200_000_000 * g + 600_000_000 - 6 * g);
        assert(g < 0 ==> 200_000_000 * g <= 2_100_000_000 * y && y <= 0);
        assert(x > -p && y > -p);
        assert(100 * q <= 99 * p ==> (x - y) * 100_000_000 <= -(20_001 * (p + y)));
        assert(100 * q >= 101 * p ==> (x - y) * 100_000_000 >= 20_001 * (p + y));
    } else if fast == 12 {
        assert(slow == 60);
        step_in_units(p, q, a, 12, 13, 1_300_000_000);
        step_in_units(p, q, b, 60, 61, 6_100_000_000);
        let (g, x, y) = (q - p, a - p, b - p);
        assert(g >= 0 ==> 200_000_000 * g - 13 * g - 1_300_000_000 <= 1_300_000_000 * x);
        assert(g >= 0 ==> 1_300_000_000 * x <= 200_000_000 * g);
        assert(g >= 0 ==> 6_100_000_000 * y <= 200_000_000 * g && y >= 0);
        assert(g < 0 ==> 200_000_000 * g <= 1_300_000_000 * x);
        assert(g < 0 ==> 1_300_000_000 * x <= 200_000_000 * g + 1_300_000_000 - 13 * g);
        assert(g < 0 ==> 200_000_000 * g <= 6_100_000_000 * y && y <= 0);
        assert(x > -p && y > -p);
        assert(100 * q <= 99 * p ==> (x - y) * 100_000_000 <= -(20_001 * (p + y)));
        assert(100 * q >= 101 * p ==> (x - y) * 100_000_000 >= 20_001 * (p + y));
    } else if fast == 20 {
        assert(slow == 200);
        step_in_units(p, q, a, 20, 21, 2_100_000_000);
        step_in_units(p, q, b, 200, 201, 20_100_000_000);
        let (g, x, y) = (q - p, a - p, b - p);
        assert(g >= 0 ==> 200_000_000 * g - 21 * g - 2_100_000_000 <= 2_100_000_000 * x);
        assert(g >= 0 ==> 2_100_000_000 * x <= 200_000_000 * g);
        assert(g >= 0 ==> 20_100_000_000 * y <= 200_000_000 * g && y >= 0);
        assert(g < 0 ==> 200_000_000 * g <= 2_100_000_000 * x);
        assert(g < 0 ==> 2_100_000_000 * x <= 200_000_000 * g + 2_100_000_000 - 21 * g);
        assert(g < 0 ==> 200_000_000 * g <= 20_100_000_000 * y && y <= 0);
        assert(x > -p && y > -p);
        assert(100 * q <= 99 * p ==> (x - y) * 100_000_000 <= -(20_001 * (p + y)));
        assert(100 * q >= 101 * p ==> (x - y) * 100_000_000 >= 20_001 * (p + y));
    } else {
        assert(slow == 500);
        step_in_units(p, q, a, 50, 51, 5_100_000_000);
        step_in_units(p, q, b, 500, 501, 50_100_000_000);
        let (g, x, y) = (q - p, a - p, b - p);
        assert(g >= 0 ==> 200_000_000 * g - 51 * g - 5_100_000_000 <= 5_100_000_000 * x);
        assert(g >= 0 ==> 5_100_000_000 * x <= 200_000_000 * g);
        assert(g >= 0 ==> 50_100_000_000 * y <= 200_000_000 * g && y >= 0);
        assert(g < 0 ==> 200_000_000 * g <= 5_100_000_000 * x);
        assert(g < 0 ==> 5_100_000_000 * x <= 200_000_000 * g + 5_100_000_000 - 51 * g);
        assert(g < 0 ==> 200_000_000 * g <= 50_100_000_000 * y && y <= 0);
        assert(x > -p && y > -p);
        assert(100 * q <= 99 * p ==> (x - y) * 100_000_000 <= -(20_001 * (p + y)));
        assert(100 * q >= 101 * p ==> (x - y) * 100_000_000 >= 20_001 * (p + y));
    }
}

proof fn step_in_units(old: int, price: int, new: int, period: int, parts: int, k: int)
    requires
        moves_towards(old, price, new, period),
        parts == period + 1,
        parts > 0,
        k == parts * 100_000_000,
    ensures
        price >= old ==> new >= old,
        price < old ==> new <= old,
        price >= old ==> 200_000_000 * (price - old) - parts * (price - old) - k <= k * (new - old)
            <= 200_000_000 * (price - old),
        price < old ==> 200_000_000 * (price - old) <= k * (new - old) <= 200_000_000 * (price
            - old) + k - parts * (price - old),
{
    let (gap, way, u) = (price - old, new - old, UNITS as int);
    assert(u == 100_000_000);
    assert(parts * (gap + u) == parts * gap + k) by (nonlinear_arith)
        requires
            k == parts * 100_000_000,
            u == 100_000_000,
    ;
    assert(parts * (u - gap) == k - parts * gap) by (nonlinear_arith)
        requires
            k == parts * 100_000_000,
            u == 100_000_000,
    ;
    assert(parts * way * u == k * way) by (nonlinear_arith)
        requires
            k == parts * 100_000_000,
            u == 100_000_000,
    ;
}

} // verus!
