//! What a published snapshot says of the features that it was made of.

use vstd::prelude::*;
use crate::features::FeatureVector;
use crate::laws::decimal::{
    counts_in_decimals, is_near, quotient_is_near, units_in, whole_part_is_near,
};
use crate::laws::forecast::forecasts_go_the_way_of_the_momentum;
use crate::laws::sign::{keeps_signs, not_below_zero, not_positive};
use crate::laws::vote::{
    agreement_is_certain, blend_weighs_two_signals, fused_direction_has_the_most_support,
    is_fusion_of,
};
use crate::laws::windows::{is_recent, windows_stay_recent};
use crate::models::{
    blended, conflict_dampening, extrapolates, fused_signal, heuristic_signal, scale_weight,
    signal_votes, trends_advanced, ForecastModelExt, MultiScaleView, TrendModelExt,
};
use crate::number::{Analytic, Fixed, Number, UNITS};
use crate::pipeline::{
    digested_as, is_forecast, predicts, rates_of, DownstreamView, FeedHealthTracker, MetricsView,
    Rates,
};
use crate::price_fusion::FusedTick;
use crate::query::{fused_of, latest_forecast, latest_signal};
use crate::types::{Exchange, PredictionSnapshot, TimeScale, TrendDirection, TrendSignal};
use crate::dedup::Verdict;
use crate::votes::Votes;

verus! {

/// A signal with its confidence in exact decimals.
pub open spec fn in_decimals<N: Number>(d: spec_fn(N) -> Fixed, s: TrendSignal<N>) -> TrendSignal<Fixed> {
    TrendSignal {
        direction: s.direction,
        confidence: d(s.confidence),
        scale: s.scale,
        computed_at: s.computed_at,
    }
}

/// Some signals with their confidences in exact decimals.
pub open spec fn all_in_decimals<N: Number>(
    d: spec_fn(N) -> Fixed,
    signals: Seq<TrendSignal<N>>,
) -> Seq<TrendSignal<Fixed>> {
    Seq::new(signals.len(), |i: int| in_decimals(d, signals[i]))
}

spec fn same_votes<N: Number>(d: spec_fn(N) -> Fixed, a: Votes<N>, b: Votes<Fixed>) -> bool {
    d(a.bull) == b.bull && d(a.bear) == b.bear && d(a.side) == b.side
}

proof fn votes_in_decimals<N: Number>(
    d: spec_fn(N) -> Fixed,
    signals: Seq<TrendSignal<N>>,
    n: nat,
)
    requires
        counts_in_decimals(d),
        signals.len() == 4,
        n <= 4,
    ensures
        same_votes(d, signal_votes(signals, n), signal_votes(all_in_decimals(d, signals), n)),
    decreases n,
{
    reveal(counts_in_decimals);
    if n > 0 {
        votes_in_decimals(d, signals, (n - 1) as nat);
        let s = signals[n - 1];
        assert(all_in_decimals(d, signals)[n - 1] == in_decimals(d, s));
        assert(d(scale_weight::<N>(n - 1)) == scale_weight::<Fixed>(n - 1));
        assert(d(scale_weight::<N>(n - 1).product(s.confidence)) == scale_weight::<Fixed>(
            n - 1,
        ).product(d(s.confidence)));
    }
}

proof fn fusing_in_decimals<N: Number>(d: spec_fn(N) -> Fixed, signals: Seq<TrendSignal<N>>)
    requires
        counts_in_decimals(d),
        signals.len() == 4,
    ensures
        fused_signal(signals).0 == fused_signal(all_in_decimals(d, signals)).0,
        d(fused_signal(signals).1) == fused_signal(all_in_decimals(d, signals)).1,
{
    let plain = all_in_decimals(d, signals);
    votes_in_decimals(d, signals, 4);
    let (a, b) = (signal_votes(signals, 4), signal_votes(plain, 4));
    reveal(counts_in_decimals);
    assert(d(a.weight()) == b.weight());
    assert(a.leader() == b.leader());
    assert(d(a.behind(a.leader())) == b.behind(b.leader()));
    assert(plain[1] == in_decimals(d, signals[1]));
    assert(plain[2] == in_decimals(d, signals[2]));
    assert(plain[3] == in_decimals(d, signals[3]));
    assert(d(conflict_dampening(signals)) == conflict_dampening(plain));
    let (x, y) = (
        a.behind(a.leader()).quotient(a.weight()).product(conflict_dampening(signals)),
        b.behind(b.leader()).quotient(b.weight()).product(conflict_dampening(plain)),
    );
    assert(d(x) == y);
}

/// The primary signals of a snapshot, by scale.
pub open spec fn signals_in<N>(s: PredictionSnapshot<N>) -> Seq<TrendSignal<N>> {
    seq![s.micro, s.short, s.medium, s.broad]
}

/// The confidences of a snapshot's primary signals lie between 0 and 1.
pub open spec fn has_confidences<N: Number>(d: spec_fn(N) -> Fixed, s: PredictionSnapshot<N>) -> bool {
    forall|i: int|
        0 <= i < 4 ==> 0 <= units_in(d, (#[trigger] signals_in(s)[i]).confidence) <= UNITS
}

/// A snapshot's fused direction is the one that its own four signals support the most, and
/// where all four agree it is theirs, with full confidence.
pub proof fn snapshot_follows_its_signals<
    N: Analytic,
    T: TrendModelExt<N>,
    F: ForecastModelExt<N>,
>(
    d: spec_fn(N) -> Fixed,
    f: FeatureVector<N>,
    averages: Seq<TrendSignal<N>>,
    steps: Seq<(u32, usize)>,
    trend: Option<T>,
    forecast: Option<F>,
    connected: u32,
    s: PredictionSnapshot<N>,
    direction: TrendDirection,
) -> (r: (int, int, int))
    requires
        counts_in_decimals(d),
        predicts(f, averages, steps, trend, forecast, connected, s),
        has_confidences(d, s),
    ensures
        ({
            let plain = all_in_decimals(d, signals_in(s));
            &&& is_fusion_of(
                plain,
                s.fused_direction,
                units_in(d, s.fused_confidence),
                r.0,
                r.1,
                r.2,
            )
            &&& (forall|i: int|
                0 <= i < 4 ==> (#[trigger] signals_in(s)[i]).direction == direction) && (exists|
                i: int,
            |
                0 <= i < 4 && units_in(d, (#[trigger] signals_in(s)[i]).confidence) >= 100)
                ==> s.fused_direction == direction && units_in(d, s.fused_confidence) == UNITS
            &&& s.price == f.price
            &&& s.snapshot_at == f.ts_micros
            &&& s.metrics.connected_feeds == connected
            &&& s.metrics.cross_exchange_spread == f.inter_exchange_spread
            &&& s.model_active == (trend is Some)
        }),
{
    let signals = signals_in(s);
    assert(signals =~= crate::pipeline::primary_of(s));
    let plain = all_in_decimals(d, signals);
    fusing_in_decimals(d, signals);
    assert forall|i: int| 0 <= i < 4 implies 0 <= (#[trigger] plain[i]).confidence.units
        <= UNITS by {
        assert(plain[i] == in_decimals(d, signals[i]));
    }
    let (lead, total, share) = fused_direction_has_the_most_support(plain);
    if (forall|i: int| 0 <= i < 4 ==> (#[trigger] signals[i]).direction == direction) && (exists|
        i: int,
    |
        0 <= i < 4 && units_in(d, (#[trigger] signals[i]).confidence) >= 100) {
        let k = choose|i: int|
            0 <= i < 4 && units_in(d, (#[trigger] signals[i]).confidence) >= 100;
        assert(plain[k].confidence.units >= 100);
        assert forall|i: int| 0 <= i < 4 implies (#[trigger] plain[i]).direction == direction by {
            assert(plain[i] == in_decimals(d, signals[i]));
            assert(signals[i].direction == direction);
        }
        agreement_is_certain(plain, direction);
    }
    (lead, total, share)
}

/// A snapshot's baseline is a fusion of its own four built-in signals.
pub proof fn baseline_follows_its_signals<
    N: Analytic,
    T: TrendModelExt<N>,
    F: ForecastModelExt<N>,
>(
    d: spec_fn(N) -> Fixed,
    f: FeatureVector<N>,
    averages: Seq<TrendSignal<N>>,
    steps: Seq<(u32, usize)>,
    trend: Option<T>,
    forecast: Option<F>,
    connected: u32,
    s: PredictionSnapshot<N>,
) -> (r: (int, int, int))
    requires
        counts_in_decimals(d),
        predicts(f, averages, steps, trend, forecast, connected, s),
        ({
            let h = s.heuristic;
            let built_in = seq![h.micro, h.short, h.medium, h.broad];
            forall|i: int|
                0 <= i < 4 ==> 0 <= units_in(d, (#[trigger] built_in[i]).confidence) <= UNITS
        }),
    ensures
        ({
            let h = s.heuristic;
            is_fusion_of(
                all_in_decimals(d, seq![h.micro, h.short, h.medium, h.broad]),
                h.fused_direction,
                units_in(d, h.fused_confidence),
                r.0,
                r.1,
                r.2,
            )
        }),
{
    let h = s.heuristic;
    let signals = seq![h.micro, h.short, h.medium, h.broad];
    assert(signals =~= crate::pipeline::baseline_of(s));
    let plain = all_in_decimals(d, signals);
    fusing_in_decimals(d, signals);
    assert forall|i: int| 0 <= i < 4 implies 0 <= (#[trigger] plain[i]).confidence.units
        <= UNITS by {
        assert(plain[i] == in_decimals(d, signals[i]));
    }
    fused_direction_has_the_most_support(plain)
}

/// Without a trained model the snapshot's signals are labelled by their scales, and three
/// of them are those of the moving averages.
pub proof fn snapshot_signals_are_those_of_their_scales<
    N: Analytic,
    T: TrendModelExt<N>,
    F: ForecastModelExt<N>,
>(
    before: MultiScaleView<N>,
    after: MultiScaleView<N>,
    f: FeatureVector<N>,
    averages: Seq<TrendSignal<N>>,
    steps: Seq<(u32, usize)>,
    trend: Option<T>,
    forecast: Option<F>,
    connected: u32,
    s: PredictionSnapshot<N>,
    scale: TimeScale,
)
    requires
        trends_advanced(before, f, after, averages),
        predicts(f, averages, steps, trend, forecast, connected, s),
        trend is None,
    ensures
        latest_signal(Some(s@), scale) matches Some(x) && x.scale == scale && x.computed_at
            == f.ts_micros,
        s.micro == averages[0],
        s.medium == averages[2],
        s.broad == averages[3],
{
    let (p, b) = (crate::pipeline::primary_of(s), crate::pipeline::baseline_of(s));
    assert(p == b);
    assert(p[0] == s.micro && p[1] == s.short && p[2] == s.medium && p[3] == s.broad);
}

proof fn blending_in_decimals<N: Number>(
    d: spec_fn(N) -> Fixed,
    a: TrendSignal<N>,
    b: TrendSignal<N>,
    wa: N,
)
    requires
        counts_in_decimals(d),
    ensures
        in_decimals(d, blended(a, b, wa)) == blended(in_decimals(d, a), in_decimals(d, b), d(wa)),
{
    reveal(counts_in_decimals);
    let wb = N::of_int(1).difference(wa);
    let (x, y) = (in_decimals(d, a), in_decimals(d, b));
    let votes = Votes::none().with(a.direction, wa.product(a.confidence)).with(
        b.direction,
        wb.product(b.confidence),
    );
    let plain = Votes::none().with(x.direction, d(wa).product(x.confidence)).with(
        y.direction,
        d(wb).product(y.confidence),
    );
    assert(d(wb) == Fixed::of_int(1).difference(d(wa)));
    assert(d(wa.product(a.confidence)) == d(wa).product(x.confidence));
    assert(d(wb.product(b.confidence)) == d(wb).product(y.confidence));
    assert(same_votes(d, votes, plain));
    assert(d(votes.weight()) == plain.weight());
    assert(votes.leader() == plain.leader());
    assert(d(votes.behind(votes.leader())) == plain.behind(plain.leader()));
}

proof fn tenths(k: int, p: int, x: int)
    requires
        k * p * 10_000_000 - 100_000_000 < x * 100_000_000 < k * p * 10_000_000 + 100_000_000,
    ensures
        k * p - 10 < 10 * x < k * p + 10,
{
}

/// The built-in short signal of a snapshot blends that of the moving averages with the
/// classifier's: six tenths of the one and four tenths of the other count, whichever
/// counts for more sets the direction, and where they agree the confidence is full.
pub proof fn short_signal_blends_two_views<
    N: Analytic,
    T: TrendModelExt<N>,
    F: ForecastModelExt<N>,
>(
    d: spec_fn(N) -> Fixed,
    f: FeatureVector<N>,
    averages: Seq<TrendSignal<N>>,
    steps: Seq<(u32, usize)>,
    trend: Option<T>,
    forecast: Option<F>,
    connected: u32,
    s: PredictionSnapshot<N>,
) -> (r: (int, int))
    requires
        counts_in_decimals(d),
        predicts(f, averages, steps, trend, forecast, connected, s),
        0 <= units_in(d, averages[1].confidence) <= UNITS,
        0 <= units_in(d, heuristic_signal(f, TimeScale::Short).confidence) <= UNITS,
    ensures
        ({
            let (a, b) = (averages[1], heuristic_signal(f, TimeScale::Short));
            let (x, y) = r;
            let c = units_in(d, s.heuristic.short.confidence);
            let u = UNITS as int;
            &&& 6 * units_in(d, a.confidence) - 10 < 10 * x < 6 * units_in(d, a.confidence) + 10
            &&& 4 * units_in(d, b.confidence) - 10 < 10 * y < 4 * units_in(d, b.confidence) + 10
            &&& x + y == 0 ==> c == 0
            &&& x + y > 0 && a.direction == b.direction ==> s.heuristic.short.direction
                == a.direction && c == u
            &&& a.direction != b.direction && x > y ==> s.heuristic.short.direction == a.direction
                && c * (x + y) <= x * u < c * (x + y) + (x + y)
            &&& a.direction != b.direction && y > x ==> s.heuristic.short.direction == b.direction
                && c * (x + y) <= y * u < c * (x + y) + (x + y)
        }),
{
    let (a, b) = (averages[1], heuristic_signal(f, TimeScale::Short));
    let wa = N::of_ratio(6, 10);
    let base = crate::pipeline::baseline_of(s);
    assert(base[1] == s.heuristic.short);
    assert(s.heuristic.short == blended(a, b, wa));
    blending_in_decimals(d, a, b, wa);
    assert(d(wa).units == 60_000_000) by {
        reveal(counts_in_decimals);
        assert(Fixed::of_ratio(6, 10).units == 60_000_000);
    }
    let u = UNITS as int;
    assert(u == 100_000_000);
    let (x, y) = blend_weighs_two_signals(in_decimals(d, a), in_decimals(d, b), d(wa));
    let (p, q) = (units_in(d, a.confidence), units_in(d, b.confidence));
    let (w, v) = (d(wa).units as int, u - d(wa).units);
    assert(v == 40_000_000);
    assert(is_near(x, w * p, u) && is_near(y, v * q, u));
    assert(w * p == 6 * p * 10_000_000 && v * q == 4 * q * 10_000_000) by (nonlinear_arith)
        requires
            w == 60_000_000,
            v == 40_000_000,
    ;
    let plain = blended(in_decimals(d, a), in_decimals(d, b), d(wa));
    assert(in_decimals(d, s.heuristic.short) == plain);
    assert(units_in(d, s.heuristic.short.confidence) == plain.confidence.units);
    assert(s.heuristic.short.direction == plain.direction);
    assert(x * u == x * 100_000_000 && y * u == y * 100_000_000);
    tenths(6, p, x);
    tenths(4, q, y);
    (x, y)
}

/// With a trained model, each primary signal is one that the model gives for these features
/// and that scale, and the built-in baseline is there beside them.
pub proof fn trained_signals_are_the_models_own<
    N: Analytic,
    T: TrendModelExt<N>,
    F: ForecastModelExt<N>,
>(
    f: FeatureVector<N>,
    averages: Seq<TrendSignal<N>>,
    steps: Seq<(u32, usize)>,
    model: T,
    forecast: Option<F>,
    connected: u32,
    s: PredictionSnapshot<N>,
)
    requires
        predicts(f, averages, steps, Some(model), forecast, connected, s),
    ensures
        call_ensures(T::predict, (&model, &f, TimeScale::Micro), s.micro),
        call_ensures(T::predict, (&model, &f, TimeScale::Short), s.short),
        call_ensures(T::predict, (&model, &f, TimeScale::Medium), s.medium),
        call_ensures(T::predict, (&model, &f, TimeScale::Broad), s.broad),
        s.heuristic.micro == averages[0],
        s.heuristic.medium == averages[2],
        s.heuristic.broad == averages[3],
        s.model_active,
{
    let (p, b) = (crate::pipeline::primary_of(s), crate::pipeline::baseline_of(s));
    assert(p[0] == s.micro && p[1] == s.short && p[2] == s.medium && p[3] == s.broad);
    assert(b[0] == s.heuristic.micro && b[2] == s.heuristic.medium && b[3]
        == s.heuristic.broad);
}

/// With a plugged-in forecaster, each forecast is one that it gives for these features and
/// the step size and number of steps that were asked for last.
pub proof fn plugged_in_forecasts_are_the_models_own<
    N: Analytic,
    T: TrendModelExt<N>,
    F: ForecastModelExt<N>,
>(
    f: FeatureVector<N>,
    averages: Seq<TrendSignal<N>>,
    steps: Seq<(u32, usize)>,
    trend: Option<T>,
    model: F,
    connected: u32,
    s: PredictionSnapshot<N>,
    i: int,
)
    requires
        predicts(f, averages, steps, trend, Some(model), connected, s),
        0 <= i < steps.len(),
        forall|j: int| i < j < steps.len() ==> (#[trigger] steps[j]).0 != steps[i].0,
    ensures
        s.forecasts@.contains_key(steps[i].0),
        call_ensures(
            F::forecast,
            (&model, &f, steps[i].0, steps[i].1),
            s.forecasts@[steps[i].0],
        ),
{
    assert(is_forecast(Some(model), f, steps[i], s.forecasts@[steps[i].0]));
    assert(s.forecasts@.contains_key(steps[i].0));
}

/// Without a plugged-in forecaster, a snapshot has a forecast for each step size that is
/// asked for, with as many steps as were asked for last, which goes the way of the
/// momentum.
pub proof fn snapshot_forecasts_what_was_asked<
    N: Analytic,
    T: TrendModelExt<N>,
    F: ForecastModelExt<N>,
>(
    f: FeatureVector<N>,
    averages: Seq<TrendSignal<N>>,
    steps: Seq<(u32, usize)>,
    trend: Option<T>,
    forecast: Option<F>,
    connected: u32,
    s: PredictionSnapshot<N>,
    i: int,
)
    requires
        keeps_signs::<N>(),
        not_below_zero(f.price),
        predicts(f, averages, steps, trend, forecast, connected, s),
        forecast is None,
        0 <= i < steps.len(),
        forall|j: int| i < j < steps.len() ==> (#[trigger] steps[j]).0 != steps[i].0,
    ensures
        s.forecasts@.contains_key(steps[i].0),
        latest_forecast(Some(s@), steps[i].0) == Some(s.forecasts@[steps[i].0]@),
        forall|k: u32|
            (forall|j: int| 0 <= j < steps.len() ==> (#[trigger] steps[j]).0 != k)
                ==> #[trigger] latest_forecast(Some(s@), k) is None,
        ({
            let r = s.forecasts@[steps[i].0];
            &&& r.step_secs == steps[i].0
            &&& r.generated_at == f.ts_micros
            &&& r.deltas@.len() == steps[i].1
            &&& r.confidence@.len() == steps[i].1
            &&& forall|k: int|
                0 <= k < r.deltas@.len() ==> {
                    &&& f.momentum_micro is Some && not_positive(f.momentum_micro->0)
                        ==> not_positive(#[trigger] r.deltas@[k])
                    &&& f.momentum_micro is Some && not_below_zero(f.momentum_micro->0)
                        ==> not_below_zero(r.deltas@[k])
                }
        }),
{
    assert(is_forecast(forecast, f, steps[i], s.forecasts@[steps[i].0]));
    let r = s.forecasts@[steps[i].0];
    let root = choose|root: N| #[trigger] extrapolates(f, steps[i].0, steps[i].1, root, r);
    assert(extrapolates(f, steps[i].0, steps[i].1, root, r));
    assert forall|k: int| 0 <= k < r.deltas@.len() implies {
        &&& f.momentum_micro is Some && not_positive(f.momentum_micro->0) ==> not_positive(
            #[trigger] r.deltas@[k],
        )
        &&& f.momentum_micro is Some && not_below_zero(f.momentum_micro->0) ==> not_below_zero(
            r.deltas@[k],
        )
    } by {
        forecasts_go_the_way_of_the_momentum(f, steps[i].0, steps[i].1, root, r, k);
    }
    assert(s.forecasts@.contains_key(steps[i].0));
}

// ---------------------------------------------------------------------------
// Health and rates
// ---------------------------------------------------------------------------
/// After a sweep a feed is healthy exactly when it was and has delivered a tick within the
/// last ten seconds; when it last did is remembered.
pub proof fn sweeps_find_the_silent_feeds(
    before: FeedHealthTracker,
    now: i64,
    after: FeedHealthTracker,
    e: Exchange,
)
    requires
        before.swept(now, after),
    ensures
        before.state(e) is None <==> after.state(e) is None,
        before.state(e) matches Some(s) ==> {
            let t = after.state(e)->0;
            &&& t.last_tick_at == s.last_tick_at
            &&& t.health is Healthy <==> s.health is Healthy && now - s.last_tick_at
                <= 10_000_000_000
            &&& s.health is Healthy && now - s.last_tick_at > 10_000_000_000 ==> t.health is Stale
        },
{
    assert(after.state(e) == crate::pipeline::swept_state(before.state(e), now));
}

/// A tick makes its feed healthy and leaves the others alone; so the count of healthy
/// feeds grows by one if its feed was not, and stays otherwise.
pub proof fn ticks_make_their_feed_healthy(
    before: FeedHealthTracker,
    e: Exchange,
    now: i64,
    after: FeedHealthTracker,
)
    requires
        before.recorded(e, now, after),
    ensures
        after.state(e) matches Some(s) && s.health is Healthy && s.last_tick_at == now,
        forall|o: Exchange| o != e ==> #[trigger] after.state(o) == before.state(o),
        after.healthy_count() == before.healthy_count() + (if before.state(e) matches Some(s)
            && s.health is Healthy {
            0int
        } else {
            1
        }),
        0 <= before.healthy_count() <= 4,
{
    assert(Exchange::Binance != e ==> after.state(Exchange::Binance) == before.state(
        Exchange::Binance,
    ));
    assert(Exchange::Coinbase != e ==> after.state(Exchange::Coinbase) == before.state(
        Exchange::Coinbase,
    ));
    assert(Exchange::Kraken != e ==> after.state(Exchange::Kraken) == before.state(
        Exchange::Kraken,
    ));
    assert(Exchange::Bitstamp != e ==> after.state(Exchange::Bitstamp) == before.state(
        Exchange::Bitstamp,
    ));
}

/// Every verdict is counted once: the duplicates of this second and of the last one
/// together grow by one with each duplicate, until a second has passed and those of the
/// second before are given up; outliers likewise.
pub proof fn verdicts_are_counted_once(m: MetricsView, verdict: Verdict, now: i64)
    requires
        m.dedup_acc < u64::MAX,
        m.outlier_acc < u64::MAX,
    ensures
        ({
            let after = m.flushed(now).counted(verdict, now);
            let due = now - m.last_reset >= 1_000_000_000;
            let (dup, out) = (
                if verdict is Duplicate { 1int } else { 0 },
                if verdict is Outlier { 1int } else { 0 },
            );
            &&& due ==> after.dedup_last_sec == m.dedup_acc && after.dedup_acc == dup
            &&& due ==> after.outlier_last_sec == m.outlier_acc && after.outlier_acc == out
            &&& due ==> after.last_reset == now
            &&& !due ==> after.dedup_acc == m.dedup_acc + dup && after.dedup_last_sec
                == m.dedup_last_sec
            &&& !due ==> after.outlier_acc == m.outlier_acc + out && after.outlier_last_sec
                == m.outlier_last_sec
            &&& !due ==> after.last_reset == m.last_reset
            &&& !(verdict is Accepted) ==> after.stamps == m.stamps
        }),
{
}

/// The tick rate is the number of gaps between accepted ticks over the time that they
/// took, in exact decimals; the other rates are the counts of the last second.
pub proof fn rates_are_per_second(m: MetricsView)
    requires
        m.stamps.len() <= 90_000,
        m.stamps.len() > 0 ==> 0 <= m.stamps.last() - m.stamps.first() <= 10_000_000_000,
        m.dedup_last_sec <= 92_233_720_368,
        m.outlier_last_sec <= 92_233_720_368,
    ensures
        ({
            let r = rates_of::<Fixed>(m);
            let span = if m.stamps.len() < 2 {
                0
            } else {
                (m.stamps.last() - m.stamps.first()) / 10
            };
            &&& r.dedup_rate.units == m.dedup_last_sec * UNITS
            &&& r.outlier_rate.units == m.outlier_last_sec * UNITS
            &&& span == 0 ==> r.tick_rate.units == 0
            &&& span > 0 ==> is_near(
                r.tick_rate.units as int,
                (m.stamps.len() - 1) * UNITS * UNITS,
                span,
            ) || r.tick_rate.units == i64::MAX
        }),
{
    let u = UNITS as int;
    assert(u == 100_000_000);
    let times = m.stamps;
    assert(Fixed::of_int(0).units == 0);
    if times.len() >= 2 {
        let gap = times.last() - times.first();
        let n = times.len() as int;
        let span = Fixed::of_int(gap).quotient(Fixed::of_int(1_000_000_000));
        assert(Fixed::of_int(gap).units == gap * u);
        whole_part_is_near(Fixed::of_int(gap), 1_000_000_000);
        assert((gap * u) / 1_000_000_000 == gap / 10);
        assert(span.units == gap / 10);
        let count = Fixed::of_int(n).difference(Fixed::of_int(1));
        assert(count.units == (n - 1) * u);
        let k = gap / 10;
        if k > 0 {
            let x = count.units * u;
            assert(0 <= x && x == (n - 1) * u * u) by (nonlinear_arith)
                requires
                    x == count.units * u,
                    count.units == (n - 1) * u,
                    u == 100_000_000,
                    n >= 1,
            ;
            if x <= i64::MAX * k {
                quotient_is_near(count, span);
            } else {
                let q = x / k;
                assert(q >= i64::MAX) by (nonlinear_arith)
                    requires
                        x > i64::MAX * k,
                        k > 0,
                        q == x / k,
                ;
            }
        }
    }
}

/// The tick stamps are those of the accepted ticks of the last ten seconds.
pub proof fn stamps_stay_recent(m: MetricsView, all: Seq<i64>, now: i64)
    requires
        is_recent(all, 10_000_000_000, m.stamps),
    ensures
        is_recent(
            all.push(now),
            10_000_000_000,
            m.flushed(now).counted(Verdict::Accepted, now).stamps,
        ),
{
    windows_stay_recent(all, 10_000_000_000, m.stamps, now);
}

/// What is published carries the rates of the first stage, and everything else as the
/// models gave it.
pub proof fn published_snapshot_carries_the_rates<
    N: Analytic,
    T: TrendModelExt<N>,
    F: ForecastModelExt<N>,
>(
    before: DownstreamView<N>,
    fused: FusedTick<N>,
    steps: Seq<(u32, usize)>,
    trend: Option<T>,
    forecast: Option<F>,
    rates: Rates<N>,
    v: FeatureVector<N>,
    averages: Seq<TrendSignal<N>>,
    snap: PredictionSnapshot<N>,
    after: DownstreamView<N>,
)
    requires
        digested_as(before, fused, steps, trend, forecast, rates, v, averages, snap, after),
    ensures
        after.engine.latest matches Some(s) && {
            &&& s.price == fused.price
            &&& s.snapshot_at == fused.ts_micros
            &&& s.metrics.tick_rate == rates.tick_rate
            &&& s.metrics.dedup_rate == rates.dedup_rate
            &&& s.metrics.outlier_rate == rates.outlier_rate
            &&& s.metrics.cross_exchange_spread == fused.cross_exchange_spread
            &&& s.metrics.connected_feeds == before.engine.health.healthy_count()
            &&& s.fused_direction == snap.fused_direction
            &&& s.fused_confidence == snap.fused_confidence
            &&& s.micro == snap.micro
            &&& s.short == snap.short
            &&& s.medium == snap.medium
            &&& s.broad == snap.broad
        },
        after.engine.snapshots.len() > 0,
        after.engine.latest == Some(after.engine.snapshots.last()),
        fused_of(after.engine) == Some((snap.fused_direction, snap.fused_confidence)),
        latest_signal(after.engine.latest, TimeScale::Micro) == Some(snap.micro),
        latest_signal(after.engine.latest, TimeScale::Short) == Some(snap.short),
        latest_signal(after.engine.latest, TimeScale::Medium) == Some(snap.medium),
        latest_signal(after.engine.latest, TimeScale::Broad) == Some(snap.broad),
        after.engine.ticks == before.engine.ticks,
        v.ewma_vol_tick matches Some(sigma) ==> after.estimate == sigma,
        v.ewma_vol_tick is None ==> after.estimate == N::of_int(0),
{
    let h = before.engine.health;
    assert(0 <= h.healthy_count() <= 4);
}

} // verus!
