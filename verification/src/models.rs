//! Prediction models.
//!
//! | Model | Output | Notes |
//! |---|---|---|
//! | [`MultiScaleTrendModel`] | `[TrendSignal; 4]` | EMA crossover on 4 scales |
//! | [`HeuristicDirectionClassifier`] | `TrendSignal` | RSI + OFI + momentum composite |
//! | [`MomentumExtrapolator`] | `ShortTermForecast` | Drift extrapolation |
//! | [`SignalFuser`] | direction and confidence | Confidence-weighted vote |
//!
//! Trained models are plugged in through [`TrendModelExt`] and [`ForecastModelExt`].

use vstd::prelude::*;
use crate::features::FeatureVector;
use crate::bounds::{has_bounds, is_analytic};
use crate::number::{
    clamp, clamped, clamped_in_interval, is_between, is_exp, is_monotone, is_ordered, is_sqrt,
    is_tanh, not_negative, scaled_step_is_no_longer, Analytic, Fixed, Number, UNITS,
};
use crate::types::{ShortTermForecast, TimeScale, TrendDirection, TrendSignal};
use crate::votes::Votes;

verus! {

// ---------------------------------------------------------------------------
// Extension traits
// ---------------------------------------------------------------------------
/// Pluggable trend-direction model.
pub trait TrendModelExt<N> {
    fn predict(&self, features: &FeatureVector<N>, scale: TimeScale) -> TrendSignal<N>;
}

/// Pluggable short-term price forecast model.
pub trait ForecastModelExt<N> {
    fn forecast(&self, features: &FeatureVector<N>, step_secs: u32, n_steps: usize)
        -> ShortTermForecast<N>;
}

/// A confidence lies between 0 and 1.
pub open spec fn is_confidence<N: Number>(c: N) -> bool {
    !c.is_below(N::of_int(0)) && !N::of_int(1).is_below(c)
}

/// An optional value with a default.
pub open spec fn or_default<N>(x: Option<N>, default: N) -> N {
    match x {
        Some(x) => x,
        None => default,
    }
}

// ---------------------------------------------------------------------------
// EMA helper
// ---------------------------------------------------------------------------
/// The weight of the newest value in an average over `period` values.
pub open spec fn ema_weight<N: Number>(period: int) -> N {
    N::of_int(2).quotient(N::of_int(period).sum(N::of_int(1)))
}

/// An exponential moving average after one more value; the first value starts it.
pub open spec fn ema_after<N: Number>(value: Option<N>, alpha: N, p: N) -> N {
    match value {
        Some(v) => v.sum(alpha.product(p.difference(v))),
        None => p,
    }
}

/// Exponential moving average.
#[derive(Debug)]
pub struct Ema<N> {
    alpha: N,
    value: Option<N>,
}

impl<N: Number> Ema<N> {
    /// The weight of the newest value.
    pub closed spec fn alpha(self) -> N {
        self.alpha
    }

    /// The average so far.
    pub closed spec fn average(self) -> Option<N> {
        self.value
    }

    pub fn new(period: usize) -> (r: Self)
        ensures
            r.alpha() == ema_weight::<N>(period as int),
            r.average() is None,
    {
        Ema {
            alpha: N::from_int(2).div(N::from_int(period as i128).add(N::from_int(1))),
            value: None,
        }
    }

    /// Takes in one more value and returns the new average.
    pub fn update(&mut self, p: N) -> (r: N)
        ensures
            final(self).alpha() == old(self).alpha(),
            final(self).average() == Some(r),
            r == ema_after(old(self).average(), old(self).alpha(), p),
    {
        let v = match self.value {
            Some(v) => v.add(self.alpha.mul(p.sub(v))),
            None => p,
        };
        self.value = Some(v);
        v
    }

    /// The average so far.
    pub fn value(&self) -> (r: Option<N>)
        ensures
            r == self.average(),
    {
        self.value
    }
}

/// A moving average moves towards the newest value and not past it: with exact decimals
/// and a weight between 0 and 1, it lies between where it was and that value.
pub proof fn ema_lies_between(v: Fixed, alpha: Fixed, p: Fixed)
    requires
        0 <= alpha.units <= UNITS,
        i64::MIN <= p.units - v.units <= i64::MAX,
    ensures
        ({
            let after = ema_after(Some(v), alpha, p);
            ||| v.units <= after.units <= p.units
            ||| p.units <= after.units <= v.units
        }),
{
    let gap = p.units - v.units;
    assert(p.difference(v).units == gap);
    scaled_step_is_no_longer(alpha.units as int, gap);
}

// ---------------------------------------------------------------------------
// Multi-scale trend model
// ---------------------------------------------------------------------------
/// How far the fast average is above the slow one, as a fraction of the slow one.
pub open spec fn ema_spread<N: Number>(fast: N, slow: N) -> N {
    if slow.is_same(N::of_int(0)) {
        N::of_int(0)
    } else {
        fast.difference(slow).quotient(slow)
    }
}

/// The direction of a score that counts only beyond a threshold on either side.
pub open spec fn direction_beyond<N: Number>(score: N, low: N, high: N) -> TrendDirection {
    if high.is_below(score) {
        TrendDirection::Bullish
    } else if score.is_below(low) {
        TrendDirection::Bearish
    } else {
        TrendDirection::Sideways
    }
}

fn direction_of<N: Number>(score: N, low: N, high: N) -> (r: TrendDirection)
    ensures
        r == direction_beyond(score, low, high),
{
    if high.below(score) {
        TrendDirection::Bullish
    } else if score.below(low) {
        TrendDirection::Bearish
    } else {
        TrendDirection::Sideways
    }
}

/// The confidence of a crossover: raised where momentum agrees with the spread,
/// lowered where it does not.
pub open spec fn crossover_confidence<N: Number>(spread: N, raw: N, momentum: Option<N>) -> N {
    let zero = N::of_int(0);
    let one = N::of_int(1);
    let c = match momentum {
        Some(m) => if zero.is_below(spread) == zero.is_below(m) {
            raw.product(N::of_ratio(12, 10)).smaller(one)
        } else {
            raw.product(N::of_ratio(7, 10))
        },
        None => raw,
    };
    clamped(c, zero, one)
}

/// `signal` is what a crossover of two averages says: its direction counts beyond
/// 0.02 %, and its raw confidence is a hyperbolic tangent with scale 0.5 %.
pub open spec fn is_crossover<N: Analytic>(
    fast: N,
    slow: N,
    momentum: Option<N>,
    scale: TimeScale,
    ts: i64,
    signal: TrendSignal<N>,
) -> bool {
    let spread = ema_spread(fast, slow);
    &&& signal.direction == direction_beyond(
        spread,
        N::of_ratio(-2, 10_000),
        N::of_ratio(2, 10_000),
    )
    &&& exists|raw: N| #[trigger]
        is_tanh(spread.magnitude().quotient(N::of_ratio(5, 1_000)), raw) && signal.confidence
            == crossover_confidence(spread, raw, momentum)
    &&& signal.scale == scale
    &&& signal.computed_at == ts
}

fn crossover<N: Analytic>(fast: N, slow: N, momentum: Option<N>, scale: TimeScale, ts: i64) -> (r:
    TrendSignal<N>)
    ensures
        is_crossover(fast, slow, momentum, scale, ts, r),
{
    let zero = N::from_int(0);
    let one = N::from_int(1);
    let spread = if slow.same(zero) {
        zero
    } else {
        fast.sub(slow).div(slow)
    };
    let direction = direction_of(spread, N::ratio(-2, 10_000), N::ratio(2, 10_000));
    let raw = spread.abs().div(N::ratio(5, 1_000)).tanh();
    assert(is_tanh(spread.magnitude().quotient(N::of_ratio(5, 1_000)), raw));
    let c = match momentum {
        Some(m) => if zero.below(spread) == zero.below(m) {
            raw.mul(N::ratio(12, 10)).min(one)
        } else {
            raw.mul(N::ratio(7, 10))
        },
        None => raw,
    };
    TrendSignal { direction, confidence: clamp(c, zero, one), scale, computed_at: ts }
}

/// The averages of a [`MultiScaleTrendModel`].
pub struct MultiScaleView<N> {
    pub micro: (Option<N>, Option<N>),
    pub short: (Option<N>, Option<N>),
    pub medium: (Option<N>, Option<N>),
    pub broad: (Option<N>, Option<N>),
}

/// Maintains four EMA pairs simultaneously.
///
/// | Scale | Fast | Slow |
/// |---|---|---|
/// | Micro  | 5  | 20  |
/// | Short  | 12 | 60  |
/// | Medium | 20 | 200 |
/// | Broad  | 50 | 500 |
#[derive(Debug)]
pub struct MultiScaleTrendModel<N> {
    micro_f: Ema<N>,
    micro_s: Ema<N>,
    short_f: Ema<N>,
    short_s: Ema<N>,
    med_f: Ema<N>,
    med_s: Ema<N>,
    broad_f: Ema<N>,
    broad_s: Ema<N>,
}

impl<N> MultiScaleView<N> {
    /// No price yet.
    pub open spec fn start() -> Self {
        MultiScaleView {
            micro: (None, None),
            short: (None, None),
            medium: (None, None),
            broad: (None, None),
        }
    }
}

impl<N: Number> View for MultiScaleTrendModel<N> {
    type V = MultiScaleView<N>;

    closed spec fn view(&self) -> MultiScaleView<N> {
        MultiScaleView {
            micro: (self.micro_f.average(), self.micro_s.average()),
            short: (self.short_f.average(), self.short_s.average()),
            medium: (self.med_f.average(), self.med_s.average()),
            broad: (self.broad_f.average(), self.broad_s.average()),
        }
    }
}

/// A pair of averages after one more price.
pub open spec fn pair_after<N: Number>(
    pair: (Option<N>, Option<N>),
    fast: int,
    slow: int,
    p: N,
) -> (N, N) {
    (ema_after(pair.0, ema_weight::<N>(fast), p), ema_after(pair.1, ema_weight::<N>(slow), p))
}

/// A pair of averages that both have a value.
pub open spec fn known<N>(pair: (N, N)) -> (Option<N>, Option<N>) {
    (Some(pair.0), Some(pair.1))
}

/// `signals` are the crossovers of four pairs of averages.
pub open spec fn are_crossovers<N: Analytic>(
    micro: (N, N),
    short: (N, N),
    medium: (N, N),
    broad: (N, N),
    f: FeatureVector<N>,
    signals: Seq<TrendSignal<N>>,
) -> bool {
    let ts = f.ts_micros;
    &&& signals.len() == 4
    &&& is_crossover(micro.0, micro.1, f.momentum_micro, TimeScale::Micro, ts, signals[0])
    &&& is_crossover(short.0, short.1, f.momentum_short, TimeScale::Short, ts, signals[1])
    &&& is_crossover(medium.0, medium.1, f.momentum_short, TimeScale::Medium, ts, signals[2])
    &&& is_crossover(broad.0, broad.1, None, TimeScale::Broad, ts, signals[3])
}

/// `signals` are what the model says after a feature vector, and `after` are its
/// averages then.
pub open spec fn trends_advanced<N: Analytic>(
    before: MultiScaleView<N>,
    f: FeatureVector<N>,
    after: MultiScaleView<N>,
    signals: Seq<TrendSignal<N>>,
) -> bool {
    let micro = pair_after(before.micro, 5, 20, f.price);
    let short = pair_after(before.short, 12, 60, f.price);
    let medium = pair_after(before.medium, 20, 200, f.price);
    let broad = pair_after(before.broad, 50, 500, f.price);
    &&& after.micro == known(micro)
    &&& after.short == known(short)
    &&& after.medium == known(medium)
    &&& after.broad == known(broad)
    &&& are_crossovers(micro, short, medium, broad, f, signals)
}

impl<N: Analytic> MultiScaleTrendModel<N> {
    /// The averages run over the periods of the table.
    pub closed spec fn wf(self) -> bool {
        &&& self.micro_f.alpha() == ema_weight::<N>(5)
        &&& self.micro_s.alpha() == ema_weight::<N>(20)
        &&& self.short_f.alpha() == ema_weight::<N>(12)
        &&& self.short_s.alpha() == ema_weight::<N>(60)
        &&& self.med_f.alpha() == ema_weight::<N>(20)
        &&& self.med_s.alpha() == ema_weight::<N>(200)
        &&& self.broad_f.alpha() == ema_weight::<N>(50)
        &&& self.broad_s.alpha() == ema_weight::<N>(500)
    }

    pub fn new() -> (r: Self)
        ensures
            r.wf(),
            r@ == MultiScaleView::<N>::start(),
    {
        MultiScaleTrendModel {
            micro_f: Ema::new(5),
            micro_s: Ema::new(20),
            short_f: Ema::new(12),
            short_s: Ema::new(60),
            med_f: Ema::new(20),
            med_s: Ema::new(200),
            broad_f: Ema::new(50),
            broad_s: Ema::new(500),
        }
    }

    /// Takes in a feature vector and returns the signals of the four scales.
    pub fn update(&mut self, f: &FeatureVector<N>) -> (r: [TrendSignal<N>; 4])
        requires
            old(self).wf(),
        ensures
            final(self).wf(),
            trends_advanced(old(self)@, *f, final(self)@, r@),
    {
        let p = f.price;
        let ts: i64 = f.ts_micros;
        let mf = self.micro_f.update(p);
        let ms = self.micro_s.update(p);
        let sf = self.short_f.update(p);
        let ss = self.short_s.update(p);
        let ef = self.med_f.update(p);
        let es = self.med_s.update(p);
        let bf = self.broad_f.update(p);
        let bs = self.broad_s.update(p);
        [
            crossover(mf, ms, f.momentum_micro, TimeScale::Micro, ts),
            crossover(sf, ss, f.momentum_short, TimeScale::Short, ts),
            crossover(ef, es, f.momentum_short, TimeScale::Medium, ts),
            crossover(bf, bs, None, TimeScale::Broad, ts),
        ]
    }
}

impl<N: Analytic> Default for MultiScaleTrendModel<N> {
    fn default() -> (r: Self)
        ensures
            r.wf(),
            r@ == MultiScaleView::<N>::start(),
    {
        Self::new()
    }
}

/// Every crossover signal has a confidence between 0 and 1.
pub proof fn crossover_confidence_in_range<N: Analytic>(
    fast: N,
    slow: N,
    momentum: Option<N>,
    scale: TimeScale,
    ts: i64,
    signal: TrendSignal<N>,
)
    requires
        is_ordered::<N>(),
        is_crossover(fast, slow, momentum, scale, ts, signal),
    ensures
        is_confidence(signal.confidence),
{
    let spread = ema_spread(fast, slow);
    let raw = choose|raw: N| #[trigger]
        is_tanh(spread.magnitude().quotient(N::of_ratio(5, 1_000)), raw) && signal.confidence
            == crossover_confidence(spread, raw, momentum);
    assert(!N::of_int(1).is_below(N::of_int(0)));
}

// ---------------------------------------------------------------------------
// Heuristic direction classifier
// ---------------------------------------------------------------------------
/// RSI as a score: overbought counts against, oversold for, the rest in proportion.
pub open spec fn rsi_score<N: Number>(rsi: Option<N>) -> N {
    match rsi {
        None => N::of_int(0),
        Some(r) => if N::of_int(70).is_below(r) {
            N::of_ratio(-1, 2)
        } else if r.is_below(N::of_int(30)) {
            N::of_ratio(1, 2)
        } else {
            r.difference(N::of_int(50)).quotient(N::of_int(50))
        },
    }
}

/// Momentum in percent, held between -1 and 1.
pub open spec fn momentum_score<N: Number>(f: FeatureVector<N>, scale: TimeScale) -> N {
    let m = match scale {
        TimeScale::Micro | TimeScale::Short => f.momentum_micro,
        _ => f.momentum_short,
    };
    clamped(or_default(m, N::of_int(0)).product(N::of_int(100)), N::of_int(-1), N::of_int(1))
}

/// The weighted scores, dampened where the exchanges disagree by more than $50.
pub open spec fn composite_score<N: Number>(f: FeatureVector<N>, scale: TimeScale) -> N {
    let zero = N::of_int(0);
    let mom = momentum_score(f, scale);
    let ofi = match scale {
        TimeScale::Micro => f.ofi_30s,
        _ => f.ofi_300s,
    };
    let vwap = clamped(
        or_default(f.vwap_deviation, zero),
        N::of_ratio(-1, 100),
        N::of_ratio(1, 100),
    ).product(N::of_int(100));
    let autocorr = or_default(f.autocorr_lag1, zero).product(mom.sign());
    let dampen = if N::of_int(50).is_below(f.inter_exchange_spread) {
        N::of_ratio(8, 10)
    } else {
        N::of_int(1)
    };
    N::of_ratio(25, 100).product(rsi_score(f.rsi_14)).sum(
        N::of_ratio(30, 100).product(mom),
    ).sum(N::of_ratio(25, 100).product(ofi)).sum(N::of_ratio(10, 100).product(vwap)).sum(
        N::of_ratio(10, 100).product(autocorr),
    ).product(dampen)
}

/// What the classifier says of a feature vector.
pub open spec fn heuristic_signal<N: Number>(f: FeatureVector<N>, scale: TimeScale) -> TrendSignal<
    N,
> {
    let composite = composite_score(f, scale);
    TrendSignal {
        direction: direction_beyond(composite, N::of_ratio(-1, 10), N::of_ratio(1, 10)),
        confidence: composite.magnitude().smaller(N::of_int(1)),
        scale,
        computed_at: f.ts_micros,
    }
}

/// Built-in baseline: a composite of RSI, momentum, OFI, VWAP deviation,
/// autocorrelation and inter-exchange spread.
pub struct HeuristicDirectionClassifier;

impl HeuristicDirectionClassifier {
    pub fn predict<N: Number>(f: &FeatureVector<N>, scale: TimeScale) -> (r: TrendSignal<N>)
        ensures
            r == heuristic_signal(*f, scale),
    {
        let zero = N::from_int(0);
        let rsi = match f.rsi_14 {
            None => zero,
            Some(r) => if N::from_int(70).below(r) {
                N::ratio(-1, 2)
            } else if r.below(N::from_int(30)) {
                N::ratio(1, 2)
            } else {
                r.sub(N::from_int(50)).div(N::from_int(50))
            },
        };
        let m = match scale {
            TimeScale::Micro | TimeScale::Short => f.momentum_micro,
            _ => f.momentum_short,
        };
        let mom = clamp(
            m.unwrap_or(zero).mul(N::from_int(100)),
            N::from_int(-1),
            N::from_int(1),
        );
        let ofi = match scale {
            TimeScale::Micro => f.ofi_30s,
            _ => f.ofi_300s,
        };
        let vwap = clamp(
            f.vwap_deviation.unwrap_or(zero),
            N::ratio(-1, 100),
            N::ratio(1, 100),
        ).mul(N::from_int(100));
        let autocorr = f.autocorr_lag1.unwrap_or(zero).mul(mom.signum());
        let dampen = if N::from_int(50).below(f.inter_exchange_spread) {
            N::ratio(8, 10)
        } else {
            N::from_int(1)
        };
        let composite = N::ratio(25, 100).mul(rsi).add(N::ratio(30, 100).mul(mom)).add(
            N::ratio(25, 100).mul(ofi),
        ).add(N::ratio(10, 100).mul(vwap)).add(N::ratio(10, 100).mul(autocorr)).mul(dampen);
        TrendSignal {
            direction: direction_of(composite, N::ratio(-1, 10), N::ratio(1, 10)),
            confidence: composite.abs().min(N::from_int(1)),
            scale,
            computed_at: f.ts_micros,
        }
    }
}

/// The classifier's confidence lies between 0 and 1.
pub proof fn heuristic_confidence_in_range<N: Number>(f: FeatureVector<N>, scale: TimeScale)
    requires
        is_ordered::<N>(),
        composite_score(f, scale).is_number(),
    ensures
        is_confidence(heuristic_signal(f, scale).confidence),
{
    let c = composite_score(f, scale).magnitude();
    assert(c.smaller(N::of_int(1)) == c || c.smaller(N::of_int(1)) == N::of_int(1));
}

// ---------------------------------------------------------------------------
// Momentum extrapolator
// ---------------------------------------------------------------------------
/// The price drift in USD per second: the 30-second momentum spread over its horizon.
pub open spec fn drift_of<N: Number>(f: FeatureVector<N>) -> N {
    or_default(f.momentum_micro, N::of_int(0)).product(f.price).quotient(N::of_int(30))
}

/// How many ticks a step is expected to hold, at least one.
pub open spec fn ticks_per_step<N: Number>(f: FeatureVector<N>, step_secs: u32) -> N {
    N::of_int(step_secs as int).product(f.tick_velocity.larger(N::of_int(1))).larger(N::of_int(1))
}

/// The volatility of a step in USD, from the square root of its ticks.
pub open spec fn step_volatility<N: Number>(f: FeatureVector<N>, root_ticks: N) -> N {
    or_default(f.ewma_vol_tick, N::of_ratio(1, 1_000)).product(root_ticks).product(f.price)
}

/// The drift of a step over its volatility, at most 1; one half without volatility.
pub open spec fn signal_to_noise<N: Number>(drift: N, step_secs: u32, volatility: N) -> N {
    if N::of_int(0).is_below(volatility) {
        drift.magnitude().product(N::of_int(step_secs as int)).quotient(volatility).smaller(
            N::of_int(1),
        )
    } else {
        N::of_ratio(1, 2)
    }
}

/// The price change after `i` steps.
pub open spec fn step_delta<N: Number>(drift: N, step_secs: u32, i: int) -> N {
    drift.product(N::of_int(step_secs as int)).product(N::of_int(i))
}

/// `c` is the confidence after `i` steps: it decays with a time constant of a minute.
pub open spec fn is_step_confidence<N: Analytic>(step_secs: u32, i: int, snr: N, c: N) -> bool {
    let t = N::of_int(step_secs as int).product(N::of_int(i));
    exists|decay: N| #[trigger]
        is_exp(N::of_int(0).difference(t).quotient(N::of_int(60)), decay) && c == clamped(
            decay.product(snr),
            N::of_int(0),
            N::of_int(1),
        )
}

/// `r` is the extrapolation of a feature vector, given the root of a step's ticks.
pub open spec fn extrapolates<N: Analytic>(
    f: FeatureVector<N>,
    step_secs: u32,
    n_steps: usize,
    root_ticks: N,
    r: ShortTermForecast<N>,
) -> bool {
    let drift = drift_of(f);
    let snr = signal_to_noise(drift, step_secs, step_volatility(f, root_ticks));
    &&& is_sqrt(ticks_per_step(f, step_secs), root_ticks)
    &&& r.step_secs == step_secs
    &&& r.generated_at == f.ts_micros
    &&& r.deltas@.len() == n_steps
    &&& r.confidence@.len() == n_steps
    &&& forall|i: int|
        0 <= i < n_steps ==> #[trigger] r.deltas@[i] == step_delta(drift, step_secs, i + 1)
    &&& forall|i: int|
        0 <= i < n_steps ==> is_step_confidence(step_secs, i + 1, snr, #[trigger] r.confidence@[i])
}

/// Heuristic short-term forecast: the drift goes on, and confidence decays.
pub struct MomentumExtrapolator;

impl MomentumExtrapolator {
    pub fn forecast<N: Analytic>(f: &FeatureVector<N>, step_secs: u32, n_steps: usize) -> (r:
        ShortTermForecast<N>)
        ensures
            exists|root: N| #[trigger] extrapolates(*f, step_secs, n_steps, root, r),
    {
        let zero = N::from_int(0);
        let one = N::from_int(1);
        let step = N::from_int(step_secs as i128);
        let drift = f.momentum_micro.unwrap_or(zero).mul(f.price).div(N::from_int(30));
        let ticks = step.mul(f.tick_velocity.max(one)).max(one);
        let root = ticks.sqrt();
        assert(is_sqrt(ticks, root));
        let volatility = f.ewma_vol_tick.unwrap_or(N::ratio(1, 1_000)).mul(root).mul(f.price);
        let snr = if zero.below(volatility) {
            drift.abs().mul(step).div(volatility).min(one)
        } else {
            N::ratio(1, 2)
        };
        let mut deltas: Vec<N> = Vec::new();
        let mut confidence: Vec<N> = Vec::new();
        let mut i: usize = 0;
        while i < n_steps
            invariant
                i <= n_steps,
                zero == N::of_int(0),
                one == N::of_int(1),
                step == N::of_int(step_secs as int),
                deltas@.len() == i,
                confidence@.len() == i,
                forall|j: int|
                    0 <= j < i ==> #[trigger] deltas@[j] == step_delta(drift, step_secs, j + 1),
                forall|j: int|
                    0 <= j < i ==> is_step_confidence(
                        step_secs,
                        j + 1,
                        snr,
                        #[trigger] confidence@[j],
                    ),
            decreases n_steps - i,
        {
            let nth = N::from_int(i as i128 + 1);
            deltas.push(drift.mul(step).mul(nth));
            let t = step.mul(nth);
            let decay = zero.sub(t).div(N::from_int(60)).exp();
            let c = clamp(decay.mul(snr), zero, one);
            assert(is_exp(zero.difference(t).quotient(N::of_int(60)), decay));
            assert(is_step_confidence(step_secs, i + 1, snr, c));
            confidence.push(c);
            i += 1;
        }
        let r = ShortTermForecast { step_secs, deltas, confidence, generated_at: f.ts_micros };
        assert(extrapolates(*f, step_secs, n_steps, root, r));
        r
    }
}

/// A forecast has as many confidences as steps, each between 0 and 1.
pub proof fn forecast_confidences_in_range<N: Analytic>(
    f: FeatureVector<N>,
    step_secs: u32,
    n_steps: usize,
    root_ticks: N,
    r: ShortTermForecast<N>,
)
    requires
        is_ordered::<N>(),
        extrapolates(f, step_secs, n_steps, root_ticks, r),
    ensures
        r.confidence@.len() == r.deltas@.len(),
        forall|i: int| 0 <= i < n_steps ==> is_confidence(#[trigger] r.confidence@[i]),
{
    let snr = signal_to_noise(drift_of(f), step_secs, step_volatility(f, root_ticks));
    assert(!N::of_int(1).is_below(N::of_int(0)));
    assert forall|i: int| 0 <= i < n_steps implies is_confidence(#[trigger] r.confidence@[i]) by {
        let c = r.confidence@[i];
        assert(is_step_confidence(step_secs, i + 1, snr, c));
        let t = N::of_int(step_secs as int).product(N::of_int(i + 1));
        let decay = choose|decay: N| #[trigger]
            is_exp(N::of_int(0).difference(t).quotient(N::of_int(60)), decay) && c == clamped(
                decay.product(snr),
                N::of_int(0),
                N::of_int(1),
            );
        clamped_in_interval(decay.product(snr), N::of_int(0), N::of_int(1));
    }
}

proof fn clamping_keeps_the_order<N: Number>(x: N, y: N, lo: N, hi: N)
    requires
        is_ordered::<N>(),
        !hi.is_below(lo),
        lo.is_number(),
        hi.is_number(),
        !y.is_below(x),
    ensures
        !clamped(y, lo, hi).is_below(clamped(x, lo, hi)),
{
    if y.is_below(lo) && x.is_number() {
        assert(y.is_below(x) || x.is_below(lo));
    }
    if hi.is_below(x) && y.is_number() {
        assert(hi.is_below(y) || y.is_below(x));
    }
}

/// A forecast grows no more certain with time: of two of its confidences the later one
/// does not lie above the earlier one, where the exponential never falls.
pub proof fn forecast_confidence_never_rises<N: Analytic>(
    f: FeatureVector<N>,
    step_secs: u32,
    n_steps: usize,
    root_ticks: N,
    r: ShortTermForecast<N>,
    i: int,
    j: int,
)
    requires
        has_bounds::<N>(),
        is_analytic::<N>(),
        extrapolates(f, step_secs, n_steps, root_ticks, r),
        0 <= i <= j < n_steps,
    ensures
        !r.confidence@[i].is_below(r.confidence@[j]),
{
    let volatility = step_volatility(f, root_ticks);
    let drift = drift_of(f);
    let snr = signal_to_noise(drift, step_secs, volatility);
    snr_is_not_negative(drift, step_secs, volatility);
    let (zero, one, minute) = (N::of_int(0), N::of_int(1), N::of_int(60));
    let step = N::of_int(step_secs as int);
    let (ti, tj) = (step.product(N::of_int(i + 1)), step.product(N::of_int(j + 1)));
    let (xi, xj) = (
        zero.difference(ti).quotient(minute),
        zero.difference(tj).quotient(minute),
    );
    let (ci, cj) = (r.confidence@[i], r.confidence@[j]);
    assert(is_step_confidence(step_secs, i + 1, snr, ci));
    assert(is_step_confidence(step_secs, j + 1, snr, cj));
    let di = choose|decay: N| #[trigger]
        is_exp(xi, decay) && ci == clamped(decay.product(snr), zero, one);
    let dj = choose|decay: N| #[trigger]
        is_exp(xj, decay) && cj == clamped(decay.product(snr), zero, one);
    assert(is_exp(xi, di) && ci == clamped(di.product(snr), zero, one));
    assert(is_exp(xj, dj) && cj == clamped(dj.product(snr), zero, one));
    later_argument_is_not_above::<N>(step_secs, i, j);
    assert(!di.is_below(dj));
    assert(!di.product(snr).is_below(dj.product(snr)) && is_ordered::<N>() && zero.is_below(one))
        by {
        reveal(has_bounds);
        reveal(is_monotone);
    }
    clamping_keeps_the_order(dj.product(snr), di.product(snr), zero, one);
}

proof fn later_argument_is_not_above<N: Number>(step_secs: u32, i: int, j: int)
    requires
        has_bounds::<N>(),
        0 <= i <= j,
    ensures
        ({
            let (zero, minute) = (N::of_int(0), N::of_int(60));
            let step = N::of_int(step_secs as int);
            let xi = zero.difference(step.product(N::of_int(i + 1))).quotient(minute);
            let xj = zero.difference(step.product(N::of_int(j + 1))).quotient(minute);
            !xi.is_below(xj)
        }),
{
    reveal(has_bounds);
    reveal(is_monotone);
    let (zero, minute) = (N::of_int(0), N::of_int(60));
    let step = N::of_int(step_secs as int);
    let (ti, tj) = (step.product(N::of_int(i + 1)), step.product(N::of_int(j + 1)));
    assert(!step.is_below(N::of_int(0)));
    assert(!N::of_int(j + 1).is_below(N::of_int(i + 1)));
    assert(!tj.is_below(ti));
    assert(!zero.difference(ti).is_below(zero.difference(tj)));
    assert(zero.is_below(minute));
}

proof fn snr_is_not_negative<N: Number>(drift: N, step_secs: u32, volatility: N)
    requires
        has_bounds::<N>(),
    ensures
        not_negative(signal_to_noise(drift, step_secs, volatility)),
{
    reveal(has_bounds);
    reveal(is_monotone);
    let zero = N::of_int(0);
    let step = N::of_int(step_secs as int);
    assert(!step.is_below(zero));
    assert(zero.is_below(N::of_int(1)));
    assert(is_between(zero, N::of_ratio(1, 2), N::of_int(1)));
    if zero.is_below(volatility) {
        let path = drift.magnitude().product(step);
        assert(not_negative(path));
        assert(!volatility.is_below(zero) && !volatility.is_same(zero));
        assert(not_negative(path.quotient(volatility)));
    }
}

// ---------------------------------------------------------------------------
// Signal fuser
// ---------------------------------------------------------------------------
/// The weight of each scale: micro 0.15, short 0.35, medium 0.30, broad 0.20.
pub open spec fn scale_weight<N: Number>(i: int) -> N {
    if i == 0 {
        N::of_ratio(15, 100)
    } else if i == 1 {
        N::of_ratio(35, 100)
    } else if i == 2 {
        N::of_ratio(30, 100)
    } else {
        N::of_ratio(20, 100)
    }
}

/// The votes of the first `n` signals, weighted by scale and confidence.
pub open spec fn signal_votes<N: Number>(signals: Seq<TrendSignal<N>>, n: nat) -> Votes<N>
    decreases n,
{
    if n == 0 {
        Votes::none()
    } else {
        let s = signals[n - 1];
        signal_votes(signals, (n - 1) as nat).with(
            s.direction,
            scale_weight::<N>(n - 1).product(s.confidence),
        )
    }
}

/// A longer scale contradicts a shorter one: it has a direction, and another one.
pub open spec fn contradicts<N>(longer: TrendSignal<N>, shorter: TrendSignal<N>) -> bool {
    longer.direction != shorter.direction && longer.direction != TrendDirection::Sideways
}

/// How far contradictions between the scales lower the confidence.
pub open spec fn conflict_dampening<N: Number>(signals: Seq<TrendSignal<N>>) -> N {
    let broad = contradicts(signals[3], signals[1]);
    let medium = contradicts(signals[2], signals[1]);
    if broad && medium {
        N::of_ratio(6, 10)
    } else if broad || medium {
        N::of_ratio(85, 100)
    } else {
        N::of_int(1)
    }
}

/// The leading direction of four signals and its dampened share of the votes.
pub open spec fn fused_signal<N: Number>(signals: Seq<TrendSignal<N>>) -> (TrendDirection, N) {
    let votes = signal_votes(signals, 4);
    let zero = N::of_int(0);
    if votes.weight().is_same(zero) {
        (TrendDirection::Sideways, zero)
    } else {
        (
            votes.leader(),
            clamped(
                votes.behind(votes.leader()).quotient(votes.weight()).product(
                    conflict_dampening(signals),
                ),
                zero,
                N::of_int(1),
            ),
        )
    }
}

fn is_contradicted<N: Number>(longer: &TrendSignal<N>, shorter: &TrendSignal<N>) -> (r: bool)
    ensures
        r == contradicts(*longer, *shorter),
{
    longer.direction != shorter.direction && longer.direction != TrendDirection::Sideways
}

/// Combines four scale signals into a single fused direction.
///
/// Weights: micro 0.15, short 0.35, medium 0.30, broad 0.20. A conflict of the broad
/// and medium scales with the short one dampens the final confidence.
pub struct SignalFuser;

impl SignalFuser {
    pub fn fuse<N: Number>(signals: &[TrendSignal<N>; 4]) -> (r: (TrendDirection, N))
        ensures
            r == fused_signal(signals@),
    {
        let zero = N::from_int(0);
        let mut votes: Votes<N> = Votes::new();
        votes.cast(signals[0].direction, N::ratio(15, 100).mul(signals[0].confidence));
        votes.cast(signals[1].direction, N::ratio(35, 100).mul(signals[1].confidence));
        votes.cast(signals[2].direction, N::ratio(30, 100).mul(signals[2].confidence));
        votes.cast(signals[3].direction, N::ratio(20, 100).mul(signals[3].confidence));
        proof {
            reveal_with_fuel(signal_votes, 5);
        }
        let total = votes.total();
        if total.same(zero) {
            return (TrendDirection::Sideways, zero);
        }
        let broad = is_contradicted(&signals[3], &signals[1]);
        let medium = is_contradicted(&signals[2], &signals[1]);
        let dampen = if broad && medium {
            N::ratio(6, 10)
        } else if broad || medium {
            N::ratio(85, 100)
        } else {
            N::from_int(1)
        };
        let (direction, score) = votes.winner();
        (direction, clamp(score.div(total).mul(dampen), zero, N::from_int(1)))
    }
}

/// The fused confidence lies between 0 and 1.
pub proof fn fused_confidence_in_range<N: Number>(signals: Seq<TrendSignal<N>>)
    requires
        is_ordered::<N>(),
    ensures
        is_confidence(fused_signal(signals).1),
{
    assert(!N::of_int(1).is_below(N::of_int(0)));
}

// ---------------------------------------------------------------------------
// Blend helper
// ---------------------------------------------------------------------------
/// Two signals blended with weights `wa` and `1 - wa`.
pub open spec fn blended<N: Number>(a: TrendSignal<N>, b: TrendSignal<N>, wa: N) -> TrendSignal<N> {
    let zero = N::of_int(0);
    let wb = N::of_int(1).difference(wa);
    let votes = Votes::none().with(a.direction, wa.product(a.confidence)).with(
        b.direction,
        wb.product(b.confidence),
    );
    TrendSignal {
        direction: votes.leader(),
        confidence: if zero.is_below(votes.weight()) {
            clamped(
                votes.behind(votes.leader()).quotient(votes.weight()),
                zero,
                N::of_int(1),
            )
        } else {
            zero
        },
        scale: a.scale,
        computed_at: a.computed_at,
    }
}

/// Blend two signals with weight `wa` for `a`, `1 - wa` for `b`.
pub fn blend<N: Number>(a: &TrendSignal<N>, b: &TrendSignal<N>, wa: N) -> (r: TrendSignal<N>)
    ensures
        r == blended(*a, *b, wa),
{
    let zero = N::from_int(0);
    let wb = N::from_int(1).sub(wa);
    let mut votes: Votes<N> = Votes::new();
    votes.cast(a.direction, wa.mul(a.confidence));
    votes.cast(b.direction, wb.mul(b.confidence));
    let total = votes.total();
    let (direction, score) = votes.winner();
    let confidence = if zero.below(total) {
        clamp(score.div(total), zero, N::from_int(1))
    } else {
        zero
    };
    TrendSignal { direction, confidence, scale: a.scale, computed_at: a.computed_at }
}

/// A blended confidence lies between 0 and 1.
pub proof fn blended_confidence_in_range<N: Number>(a: TrendSignal<N>, b: TrendSignal<N>, wa: N)
    requires
        is_ordered::<N>(),
    ensures
        is_confidence(blended(a, b, wa).confidence),
{
    assert(!N::of_int(1).is_below(N::of_int(0)));
}

} // verus!
