//! Where the forecasts go.

use vstd::prelude::*;
use crate::features::FeatureVector;
use crate::laws::decimal::{
    counts_in_decimals, is_near, product_is_near, units_in, whole_multiple_is_exact,
    whole_part_is_near,
};
use crate::laws::sign::{keeps_signs, not_below_zero, not_positive};
use crate::models::{
    drift_of, extrapolates, is_step_confidence, signal_to_noise, step_volatility, ticks_per_step,
};
use crate::number::{clamped, is_exp, is_sqrt, towards_zero, Analytic, Fixed, Number, UNITS};
use crate::types::ShortTermForecast;

verus! {

/// Each forecast change has the sign of the momentum: with a price that is not negative,
/// no change lies above 0 where the momentum is not positive, and none below 0 where it is
/// not negative.
pub proof fn forecasts_go_the_way_of_the_momentum<N: Analytic>(
    f: FeatureVector<N>,
    step_secs: u32,
    n_steps: usize,
    root_ticks: N,
    r: ShortTermForecast<N>,
    i: int,
)
    requires
        keeps_signs::<N>(),
        not_below_zero(f.price),
        extrapolates(f, step_secs, n_steps, root_ticks, r),
        0 <= i < n_steps,
    ensures
        f.momentum_micro matches Some(m) && not_positive(m) ==> not_positive(r.deltas@[i]),
        f.momentum_micro matches Some(m) && not_below_zero(m) ==> not_below_zero(r.deltas@[i]),
        f.momentum_micro is None ==> not_positive(r.deltas@[i]) && not_below_zero(r.deltas@[i]),
{
    reveal(keeps_signs);
    let drift = drift_of(f);
    let zero = N::of_int(0);
    let m = match f.momentum_micro {
        Some(m) => m,
        None => zero,
    };
    assert(zero.is_below(N::of_int(30)));
    assert(not_positive(m) ==> not_positive(m.product(f.price)));
    assert(not_below_zero(m) ==> not_below_zero(m.product(f.price)));
    assert(not_positive(m) ==> not_positive(drift));
    assert(not_below_zero(m) ==> not_below_zero(drift));
    let step = N::of_int(step_secs as int);
    assert(not_below_zero(step)) by {
        if step_secs > 0 {
            assert(zero.is_below(step));
        }
    }
    let nth = N::of_int(i + 1);
    assert(zero.is_below(nth));
    let once = drift.product(step);
    assert(not_positive(m) ==> not_positive(once));
    assert(not_below_zero(m) ==> not_below_zero(once));
    assert(r.deltas@[i] == once.product(nth));
}

/// A price and a momentum, in units, whose product and its multiples exact decimals hold.
pub open spec fn is_modest(m: int, p: int, steps: int) -> bool {
    &&& 0 <= p
    &&& 0 <= steps
    &&& -(1_000_000_000_000_000_000 * UNITS) <= m * p <= 1_000_000_000_000_000_000 * UNITS
    &&& -(1_000_000_000_000_000_000 * UNITS) <= m * p * steps <= 1_000_000_000_000_000_000 * UNITS
    &&& steps <= 1_000_000_000
}

/// The drift of a momentum at a price, in units a second: what the last thirty seconds
/// brought, spread over them.
pub open spec fn drift_units(m: int, p: int) -> int {
    towards_zero(towards_zero(m * p, UNITS as int), 30)
}

proof fn drift_is_near(m: int, p: int, steps: int)
    requires
        is_modest(m, p, steps),
    ensures
        -31 * UNITS <= 30 * UNITS * drift_units(m, p) - m * p <= 31 * UNITS,
        m >= 0 ==> drift_units(m, p) >= 0 && 30 * UNITS * drift_units(m, p) <= m * p,
        m <= 0 ==> drift_units(m, p) <= 0 && m * p <= 30 * UNITS * drift_units(m, p),
        drift_units(-m, p) == -drift_units(m, p),
        -1_000_000_000_000_000_000 <= drift_units(m, p) * steps <= 1_000_000_000_000_000_000,
        i64::MIN * UNITS <= m * p <= i64::MAX * UNITS,
        i64::MIN <= towards_zero(m * p, UNITS as int) <= i64::MAX,
{
    let (x, u) = (m * p, UNITS as int);
    assert(u == 100_000_000);
    let y = towards_zero(x, u);
    let z = towards_zero(y, 30);
    crate::laws::decimal::division_is_near(x, u);
    crate::laws::decimal::division_is_near(y, 30);
    assert((m >= 0 ==> x >= 0) && (m <= 0 ==> x <= 0)) by (nonlinear_arith)
        requires
            x == m * p,
            p >= 0,
    ;
    assert(x - u < y * u < x + u && y - 30 < 30 * z < y + 30);
    assert((-m) * p == -x) by (nonlinear_arith)
        requires
            x == m * p,
    ;
    assert(x >= 0 ==> z >= 0 && 3_000_000_000 * z <= x) by {
        if x >= 0 {
            assert(y >= 0 && y * 100_000_000 <= x);
            assert(z >= 0 && z * 30 <= y);
        }
    }
    assert(x <= 0 ==> z <= 0 && x <= 3_000_000_000 * z) by {
        if x <= 0 {
            assert(y <= 0 && x <= y * 100_000_000);
            assert(z <= 0 && y <= z * 30);
        }
    }
    assert(30 * u * z == 3_000_000_000 * z);
    let zs = z * steps;
    let xs = x * steps;
    assert(-1_000_000_000_000_000_000 <= zs <= 1_000_000_000_000_000_000) by (nonlinear_arith)
        requires
            zs == z * steps,
            xs == x * steps,
            -(1_000_000_000_000_000_000 * u) <= xs <= 1_000_000_000_000_000_000 * u,
            u == 100_000_000,
            steps >= 0,
            x >= 0 ==> z >= 0 && 30 * u * z <= x,
            x <= 0 ==> z <= 0 && x <= 30 * u * z,
    ;
}

/// Each forecast change is what the momentum brings in as many seconds: thirty times the
/// change is momentum times price times seconds, up to what exact decimals drop of the
/// drift of each second.
pub proof fn forecasts_carry_the_momentum_on<N: Analytic>(
    d: spec_fn(N) -> Fixed,
    f: FeatureVector<N>,
    step_secs: u32,
    n_steps: usize,
    root_ticks: N,
    r: ShortTermForecast<N>,
    i: int,
)
    requires
        counts_in_decimals(d),
        extrapolates(f, step_secs, n_steps, root_ticks, r),
        0 <= i < n_steps,
        is_modest(
            units_in(d, match f.momentum_micro {
                Some(m) => m,
                None => N::of_int(0),
            }),
            units_in(d, f.price),
            step_secs * (i + 1),
        ),
    ensures
        r.step_secs == step_secs,
        r.generated_at == f.ts_micros,
        r.deltas@.len() == n_steps,
        f.momentum_micro is None ==> units_in(d, r.deltas@[i]) == 0,
        f.momentum_micro matches Some(m) ==> {
            let secs = step_secs * (i + 1);
            let brings = units_in(d, m) * units_in(d, f.price) * secs;
            let change = units_in(d, r.deltas@[i]);
            &&& change == drift_units(units_in(d, m), units_in(d, f.price)) * secs
            &&& -31 * UNITS * secs <= 30 * UNITS * change - brings <= 31 * UNITS * secs
        },
{
    let drift = drift_of(f);
    let secs = step_secs * (i + 1);
    let zero = N::of_int(0);
    let mom = match f.momentum_micro {
        Some(m) => m,
        None => zero,
    };
    let (m, p) = (units_in(d, mom), units_in(d, f.price));
    drift_is_near(m, p, secs);
    let step = N::of_int(step_secs as int);
    let nth = N::of_int(i + 1);
    reveal(counts_in_decimals);
    assert(d(drift) == d(mom).product(d(f.price)).quotient(Fixed::of_int(30)));
    let g = drift_units(m, p);
    let product = d(mom).product(d(f.price));
    assert(product.units == towards_zero(m * p, UNITS as int));
    whole_part_is_near(product, 30);
    assert(d(drift).units == g);
    assert(d(r.deltas@[i]) == d(drift).product(Fixed::of_int(step_secs as int)).product(
        Fixed::of_int(i + 1),
    ));
    let s = step_secs as int;
    let (gs, n) = (g * s, i + 1);
    assert(g * secs == gs * n) by (nonlinear_arith)
        requires
            gs == g * s,
            secs == s * n,
    ;
    assert(-1_000_000_000_000_000_000 <= gs <= 1_000_000_000_000_000_000) by (nonlinear_arith)
        requires
            -1_000_000_000_000_000_000 <= gs * n <= 1_000_000_000_000_000_000,
            n >= 1,
    ;
    whole_multiple_is_exact(d(drift), s);
    if s == 0 {
        assert(gs == 0) by (nonlinear_arith)
            requires
                gs == g * s,
                s == 0,
        ;
        assert(gs * n == 0) by (nonlinear_arith)
            requires
                gs == 0,
        ;
        let none = d(drift).product(Fixed::of_int(s));
        assert(none.units == 0);
        let x = Fixed::of_int(n).units as int;
        assert(none.units * x == 0) by (nonlinear_arith)
            requires
                none.units == 0,
        ;
        assert(towards_zero(0, UNITS as int) == 0);
        assert(none.product(Fixed::of_int(n)).units == 0);
    } else {
        assert(n <= 1_000_000_000) by (nonlinear_arith)
            requires
                secs == s * n,
                secs <= 1_000_000_000,
                s >= 1,
                n >= 1,
        ;
        whole_multiple_is_exact(d(drift).product(Fixed::of_int(s)), n);
    }
    let u = UNITS as int;
    let change = g * secs;
    let x = m * p;
    assert(-31 * u * secs <= 30 * u * change - x * secs <= 31 * u * secs) by (nonlinear_arith)
        requires
            -31 * u <= 30 * u * g - x <= 31 * u,
            change == g * secs,
            secs >= 0,
    ;
    if f.momentum_micro is None {
        assert(m == 0);
        assert(x == 0) by (nonlinear_arith)
            requires
                x == m * p,
                m == 0,
        ;
        assert(g == 0);
        assert(change == 0) by (nonlinear_arith)
            requires
                change == g * secs,
                g == 0,
        ;
    }
}

/// Of two forecasts at one price, the one for the opposite momentum is the opposite one.
pub proof fn opposite_momentum_gives_the_opposite_forecast<N: Analytic>(
    d: spec_fn(N) -> Fixed,
    f: FeatureVector<N>,
    g: FeatureVector<N>,
    step_secs: u32,
    n_steps: usize,
    roots: (N, N),
    r: ShortTermForecast<N>,
    s: ShortTermForecast<N>,
    i: int,
)
    requires
        counts_in_decimals(d),
        extrapolates(f, step_secs, n_steps, roots.0, r),
        extrapolates(g, step_secs, n_steps, roots.1, s),
        f.momentum_micro is Some,
        g.momentum_micro is Some,
        units_in(d, g.momentum_micro->0) == -units_in(d, f.momentum_micro->0),
        units_in(d, g.price) == units_in(d, f.price),
        0 <= i < n_steps,
        is_modest(
            units_in(d, f.momentum_micro->0),
            units_in(d, f.price),
            step_secs * (i + 1),
        ),
    ensures
        units_in(d, s.deltas@[i]) == -units_in(d, r.deltas@[i]),
{
    let (m, p) = (units_in(d, f.momentum_micro->0), units_in(d, f.price));
    let secs = step_secs * (i + 1);
    drift_is_near(m, p, secs);
    assert((-m) * p == -(m * p)) by (nonlinear_arith);
    let x = m * p;
    assert((-x) * secs == -(x * secs)) by (nonlinear_arith);
    forecasts_carry_the_momentum_on(d, f, step_secs, n_steps, roots.0, r, i);
    forecasts_carry_the_momentum_on(d, g, step_secs, n_steps, roots.1, s, i);
    let c = drift_units(m, p);
    assert((-c) * secs == -(c * secs)) by (nonlinear_arith);
}

/// The confidence of a step comes from the exponential of its time in minutes, taken
/// backwards, times a factor between 0 and 1 that is the same for all steps: one half
/// without volatility, and else the drift of a step over its volatility, at most one.
pub proof fn confidence_is_decay_times_certainty<N: Analytic>(
    d: spec_fn(N) -> Fixed,
    f: FeatureVector<N>,
    step_secs: u32,
    n_steps: usize,
    root_ticks: N,
    r: ShortTermForecast<N>,
    i: int,
) -> (out: (N, N, int))
    requires
        counts_in_decimals(d),
        extrapolates(f, step_secs, n_steps, root_ticks, r),
        0 <= i < n_steps,
        step_secs * (i + 1) <= 92_233_720_368,
        units_in(d, drift_of(f)) > i64::MIN,
    ensures
        is_exp(out.0, out.1),
        is_near(units_in(d, out.0), -(step_secs * (i + 1) * UNITS), 60),
        ({
            let volatility = units_in(d, step_volatility(f, root_ticks));
            let drift = units_in(d, drift_of(f));
            let path = (if drift >= 0 { drift } else { -drift }) * step_secs;
            let certainty = out.2;
            let decay = units_in(d, out.1);
            let c = units_in(d, r.confidence@[i]);
            &&& volatility <= 0 ==> 2 * certainty == UNITS
            &&& volatility > 0 && path <= i64::MAX ==> {
                &&& 0 <= certainty <= UNITS
                &&& certainty * volatility <= path * UNITS
                &&& certainty == UNITS || path * UNITS < certainty * volatility + volatility
            }
            &&& 0 <= decay <= UNITS && 0 <= certainty <= UNITS ==> is_near(
                c,
                decay * certainty,
                UNITS as int,
            ) && 0 <= c <= UNITS
        }),
{
    let volatility = step_volatility(f, root_ticks);
    let drift = drift_of(f);
    let snr = signal_to_noise(drift, step_secs, volatility);
    let c = r.confidence@[i];
    assert(is_step_confidence(step_secs, i + 1, snr, c));
    let (zero, one) = (N::of_int(0), N::of_int(1));
    let t = N::of_int(step_secs as int).product(N::of_int(i + 1));
    let arg = zero.difference(t).quotient(N::of_int(60));
    let decay = choose|decay: N| #[trigger]
        is_exp(arg, decay) && c == clamped(decay.product(snr), zero, one);
    reveal(counts_in_decimals);
    let u = UNITS as int;
    assert(u == 100_000_000);
    let s = step_secs as int;
    let n = i + 1;
    let secs = s * n;
    assert(s * u * n == secs * u) by (nonlinear_arith)
        requires
            secs == s * n,
    ;
    // The time of a step is exact.
    if s == 0 {
        assert(secs == 0) by (nonlinear_arith)
            requires
                secs == s * n,
                s == 0,
        ;
        assert(d(t) == Fixed::of_int(0).product(Fixed::of_int(n)));
        let x = Fixed::of_int(n).units as int;
        assert(Fixed::of_int(0).units == 0);
        assert(0 * x == 0);
        assert(d(t).units == 0);
    } else {
        assert(n <= 92_233_720_368 && s <= 92_233_720_368) by (nonlinear_arith)
            requires
                secs == s * n,
                secs <= 92_233_720_368,
                s >= 1,
                n >= 1,
        ;
        whole_multiple_is_exact(Fixed::of_int(s), n);
        assert(d(t).units == secs * u);
    }
    let back = zero.difference(t);
    assert(d(back).units == -(secs * u));
    whole_part_is_near(d(back), 60);
    // The certainty.
    let v = d(volatility).units as int;
    let g = d(drift).units as int;
    let size = if g >= 0 { g } else { -g };
    assert(d(drift.magnitude()).units == size);
    let path = size * s;
    if v > 0 && path <= i64::MAX {
        assert(0 <= path) by (nonlinear_arith)
            requires
                path == size * s,
                size >= 0,
                s >= 0,
        ;
        whole_multiple_is_exact(d(drift.magnitude()), s);
        let far = drift.magnitude().product(N::of_int(s));
        assert(d(far).units == path);
        let q = (path * u) / v;
        assert(0 <= path * u && q * v <= path * u < q * v + v && q >= 0) by (nonlinear_arith)
            requires
                path >= 0,
                v > 0,
                u == 100_000_000,
                q == (path * u) / v,
        ;
        assert(d(far.quotient(volatility)).units == if q > i64::MAX { i64::MAX as int } else { q });
        let k = d(snr).units as int;
        assert(k == if q <= u { q } else { u });
        assert(k * v <= path * u) by (nonlinear_arith)
            requires
                k <= q,
                q * v <= path * u,
                v > 0,
        ;
    }
    if v <= 0 {
        assert(Fixed::of_ratio(1, 2).units == 50_000_000);
    }
    let (e, k) = (d(decay).units as int, d(snr).units as int);
    if 0 <= e <= u && 0 <= k <= u {
        assert(0 <= e * k <= u * u) by (nonlinear_arith)
            requires
                0 <= e <= u,
                0 <= k <= u,
        ;
        product_is_near(d(decay), d(snr));
        let x = d(decay.product(snr)).units as int;
        assert(0 <= x <= u) by (nonlinear_arith)
            requires
                e * k - u < x * u < e * k + u,
                0 <= x,
                e * k <= u * u,
                u == 100_000_000,
        ;
        assert(d(one).units == u && d(zero).units == 0);
    }
    (arg, decay, k)
}

/// The volatility of a step is that of a tick times the root of the step's ticks times the
/// price; without a volatility per tick it is taken to be 0.001. The ticks of a step are
/// its seconds times the tick rate, where neither counts less than one.
pub proof fn volatility_grows_with_the_root_of_the_ticks<N: Analytic>(
    d: spec_fn(N) -> Fixed,
    f: FeatureVector<N>,
    step_secs: u32,
    n_steps: usize,
    root_ticks: N,
    r: ShortTermForecast<N>,
) -> (out: (N, int))
    requires
        counts_in_decimals(d),
        extrapolates(f, step_secs, n_steps, root_ticks, r),
        units_in(d, f.tick_velocity) <= 1_000_000 * UNITS,
        units_in(d, f.price) >= 0,
        units_in(d, root_ticks) >= 0,
        ({
            let tick = match f.ewma_vol_tick {
                Some(x) => units_in(d, x),
                None => 100_000,
            };
            &&& 0 <= tick * units_in(d, root_ticks) <= i64::MAX * UNITS
            &&& 0 <= tick * units_in(d, root_ticks) * units_in(d, f.price) <= i64::MAX * UNITS
                * UNITS
        }),
        step_secs <= 9_000,
    ensures
        is_sqrt(out.0, root_ticks),
        ({
            let rate = if units_in(d, f.tick_velocity) > UNITS {
                units_in(d, f.tick_velocity)
            } else {
                UNITS as int
            };
            let ticks = if step_secs == 0 { UNITS as int } else { rate * step_secs };
            let tick = match f.ewma_vol_tick {
                Some(x) => units_in(d, x),
                None => 100_000,
            };
            &&& units_in(d, out.0) == ticks
            &&& is_near(out.1, tick * units_in(d, root_ticks), UNITS as int)
            &&& is_near(
                units_in(d, step_volatility(f, root_ticks)),
                out.1 * units_in(d, f.price),
                UNITS as int,
            )
        }),
{
    reveal(counts_in_decimals);
    let u = UNITS as int;
    assert(u == 100_000_000);
    let ticks = ticks_per_step(f, step_secs);
    let s = step_secs as int;
    let one = Fixed::of_int(1);
    let rate = d(f.tick_velocity).larger(one);
    assert(d(N::of_int(1)) == one && one.units == u);
    let y = rate.units * s;
    assert(0 <= y <= i64::MAX) by (nonlinear_arith)
        requires
            y == rate.units * s,
            0 <= rate.units <= 100_000_000_000_000,
            0 <= s <= 9_000,
    ;
    whole_multiple_is_exact(rate, s);
    assert(d(ticks) == Fixed::of_int(s).product(rate).larger(one));
    if s == 0 {
        assert(y == 0) by (nonlinear_arith)
            requires
                y == rate.units * s,
                s == 0,
        ;
    } else {
        assert(y >= rate.units) by (nonlinear_arith)
            requires
                y == rate.units * s,
                s >= 1,
                rate.units >= 0,
        ;
    }
    let per_tick = match f.ewma_vol_tick {
        Some(x) => x,
        None => N::of_ratio(1, 1_000),
    };
    assert(Fixed::of_ratio(1, 1_000).units == 100_000);
    assert(d(N::of_ratio(1, 1_000)).units == 100_000);
    let first = d(per_tick).product(d(root_ticks));
    product_is_near(d(per_tick), d(root_ticks));
    let (a, p) = (first.units as int, d(f.price).units as int);
    let x = units_in(d, per_tick) * units_in(d, root_ticks);
    crate::laws::decimal::division_is_near(x, u);
    assert(a * u <= x);
    assert(0 <= a * p <= i64::MAX * u) by (nonlinear_arith)
        requires
            0 <= a,
            0 <= p,
            a * u <= x,
            x * p <= i64::MAX * u * u,
            u == 100_000_000,
    ;
    product_is_near(first, d(f.price));
    assert(d(step_volatility(f, root_ticks)) == first.product(d(f.price)));
    (ticks, a)
}

} // verus!
