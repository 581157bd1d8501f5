//! What becomes of a history of ticks that runs through all stages.

use vstd::prelude::*;
use crate::dedup::{FilterConfig, FilterView};
use crate::engine::EngineView;
use crate::features::state::{is_history, is_unseeded, taken_in, FeatureView, Input};
use crate::features::FeatureVector;
use crate::laws::filter::is_run;
use crate::models::{trends_advanced, ForecastModelExt, MultiScaleView, TrendModelExt};
use crate::number::Analytic;
use crate::pipeline::{
    digested, digested_as, flows_down, injected, is_replay, rates_of, timer_fired, DownstreamView,
    Pipeline, EARLIEST_MICROS,
};
use crate::price_fusion::{
    bucket_centre, fuses, open_ticks, routed, timed_out, FusedTick, FusionConfig,
};
use crate::types::tick_store::ring_after;
use crate::types::{PredictionSnapshot, Tick, TrendSignal};

verus! {

/// Along a replay the filter is on a run of its own: it judges every tick, in order, and a
/// tick is passed on exactly when the filter accepts it.
pub proof fn replay_runs_the_filter<N: Analytic, T: TrendModelExt<N>, F: ForecastModelExt<N>>(
    pipelines: Seq<Pipeline<N>>,
    engines: Seq<EngineView<N>>,
    ticks: Seq<Tick<N>>,
    trend: Option<T>,
    forecast: Option<F>,
    walls: Seq<i64>,
    nows: Seq<i64>,
    results: Seq<bool>,
    filter: FilterConfig<N>,
)
    requires
        is_replay(pipelines, engines, ticks, trend, forecast, walls, nows, results),
        pipelines[0].dedup().filter@ == FilterView::start(filter),
    ensures
        ({
            let states = Seq::new(pipelines.len(), |i: int| pipelines[i].dedup().filter@);
            &&& is_run(states, ticks)
            &&& forall|i: int|
                0 <= i < ticks.len() ==> #[trigger] results[i] == (states[i].verdict(
                    ticks[i],
                ) is Accepted)
        }),
{
    let states = Seq::new(pipelines.len(), |i: int| pipelines[i].dedup().filter@);
    assert forall|i: int| 0 <= i < ticks.len() implies states[i + 1] == (FilterView {
        estimate: states[i + 1].estimate,
        ..states[i].after(#[trigger] ticks[i])
    }) by {
        assert(injected(
            pipelines[i],
            engines[i],
            ticks[i],
            trend,
            forecast,
            walls[i],
            nows[i],
            pipelines[i + 1],
            engines[i + 1],
            results[i],
        ));
    }
    assert forall|i: int| 0 <= i < ticks.len() implies #[trigger] results[i] == (states[i].verdict(
        ticks[i],
    ) is Accepted) by {
        assert(injected(
            pipelines[i],
            engines[i],
            ticks[i],
            trend,
            forecast,
            walls[i],
            nows[i],
            pipelines[i + 1],
            engines[i + 1],
            results[i],
        ));
    }
}

/// The first `n` ticks of a replay that were passed on.
pub open spec fn passed_on<N>(ticks: Seq<Tick<N>>, results: Seq<bool>, n: int) -> Seq<Tick<N>>
    decreases n,
{
    if n <= 0 {
        Seq::empty()
    } else if results[n - 1] {
        passed_on(ticks, results, n - 1).push(ticks[n - 1])
    } else {
        passed_on(ticks, results, n - 1)
    }
}

/// Some groups of ticks, one after the other.
pub open spec fn joined<N>(groups: Seq<Seq<Tick<N>>>) -> Seq<Tick<N>>
    decreases groups.len(),
{
    if groups.len() == 0 {
        Seq::empty()
    } else {
        joined(groups.drop_last()) + groups.last()
    }
}

/// Some fused ticks as what comes in.
pub open spec fn as_inputs<N>(fused: Seq<FusedTick<N>>) -> Seq<Input<N>> {
    Seq::new(fused.len(), |i: int| Input::Tick(fused[i]))
}

/// Every tick that is passed on has a bucket that the features can take.
pub open spec fn all_have_buckets<N: Analytic>(
    pipelines: Seq<Pipeline<N>>,
    ticks: Seq<Tick<N>>,
    walls: Seq<i64>,
) -> bool {
    forall|i: int|
        0 <= i < ticks.len() ==> (pipelines[i].fuser().place_of(
            #[trigger] ticks[i],
            walls[i],
        ) matches Some(id) && bucket_centre(
            id as int,
            pipelines[i].fuser().config().bucket_width_micros as int,
        ) >= EARLIEST_MICROS)
}

/// What a replay has made: the groups that the passed-on ticks were fused in, the fused
/// ticks, the features and the moving averages after each.
pub struct Made<N> {
    pub groups: Seq<Seq<Tick<N>>>,
    pub fused: Seq<FusedTick<N>>,
    pub features: Seq<FeatureView<N>>,
    pub averages: Seq<MultiScaleView<N>>,
    pub vectors: Seq<FeatureVector<N>>,
    pub signals: Seq<Seq<TrendSignal<N>>>,
}

/// The moving averages have taken in every feature vector.
pub open spec fn averages_advance<N: Analytic>(m: Made<N>) -> bool {
    &&& m.averages.len() == m.fused.len() + 1
    &&& m.vectors.len() == m.fused.len()
    &&& m.signals.len() == m.fused.len()
    &&& m.averages[0] == MultiScaleView::<N>::start()
    &&& forall|i: int|
        0 <= i < m.fused.len() ==> {
            &&& trends_advanced(
                m.averages[i],
                #[trigger] m.vectors[i],
                m.averages[i + 1],
                m.signals[i],
            )
            &&& m.vectors[i].price == m.fused[i].price
            &&& m.vectors[i].ts_micros == m.fused[i].ts_micros
        }
}

/// In a replay no tick is lost or counted twice: the ticks that the filter passes on, in
/// order, are those of the closed buckets, one after the other, and of the open one. Each
/// closed bucket is one fused tick, the features and the moving averages have taken in
/// every fused tick, in order, and nothing else, and the store holds the passed-on ticks.
pub proof fn replay_fuses_every_tick<N: Analytic, T: TrendModelExt<N>, F: ForecastModelExt<N>>(
    pipelines: Seq<Pipeline<N>>,
    engines: Seq<EngineView<N>>,
    ticks: Seq<Tick<N>>,
    trend: Option<T>,
    forecast: Option<F>,
    walls: Seq<i64>,
    nows: Seq<i64>,
    results: Seq<bool>,
    fusion: FusionConfig<N>,
    n: int,
) -> (m: Made<N>)
    requires
        is_replay(pipelines, engines, ticks, trend, forecast, walls, nows, results),
        pipelines[0].fuser().is_new(fusion),
        is_unseeded(pipelines[0].features()),
        pipelines[0].averages() == MultiScaleView::<N>::start(),
        all_have_buckets(pipelines, ticks, walls),
        0 <= n <= ticks.len(),
    ensures
        m.groups.len() == m.fused.len(),
        forall|i: int|
            0 <= i < m.fused.len() ==> fuses(
                m.groups[i],
                (#[trigger] m.fused[i]).ts_micros as int,
                m.fused[i],
            ),
        joined(m.groups) + open_ticks(pipelines[n].fuser().open()) == passed_on(ticks, results, n),
        is_history(m.features, as_inputs(m.fused)),
        m.features.last() == pipelines[n].features(),
        averages_advance(m),
        m.averages.last() == pipelines[n].averages(),
        engines[n].ticks == ring_after(
            engines[0].ticks,
            engines[0].tick_capacity,
            passed_on(ticks, results, n),
        ),
        engines[n].tick_capacity == engines[0].tick_capacity,
        m.fused.len() > 0 ==> (engines[n].latest matches Some(s) && s.price
            == m.fused.last().price && s.snapshot_at == m.fused.last().ts_micros),
        m.fused.len() == 0 ==> engines[n].latest == engines[0].latest,
    decreases n,
{
    if n == 0 {
        let m = Made {
            groups: Seq::empty(),
            fused: Seq::empty(),
            features: seq![pipelines[0].features()],
            averages: seq![pipelines[0].averages()],
            vectors: Seq::empty(),
            signals: Seq::empty(),
        };
        assert(as_inputs(m.fused) =~= Seq::empty());
        assert(joined(m.groups) + open_ticks(pipelines[0].fuser().open()) =~= Seq::empty());
        m
    } else {
        let old_m = replay_fuses_every_tick(
            pipelines,
            engines,
            ticks,
            trend,
            forecast,
            walls,
            nows,
            results,
            fusion,
            n - 1,
        );
        let (before, after) = (pipelines[n - 1], pipelines[n]);
        let (engine, engine_after) = (engines[n - 1], engines[n]);
        let (tick, wall, now, r) = (ticks[n - 1], walls[n - 1], nows[n - 1], results[n - 1]);
        assert(injected(
            before,
            engine,
            tick,
            trend,
            forecast,
            wall,
            now,
            after,
            engine_after,
            r,
        )) by {
            let i = n - 1;
            assert(injected(
                pipelines[i],
                engines[i],
                ticks[i],
                trend,
                forecast,
                walls[i],
                nows[i],
                pipelines[i + 1],
                engines[i + 1],
                results[i],
            ));
        }
        let old_passed = passed_on(ticks, results, n - 1);
        if !r {
            old_m
        } else {
            let passed = old_passed.push(tick);
            assert(passed == passed_on(ticks, results, n));
            assert(passed.drop_last() =~= old_passed);
            let fuser = before.fuser();
            let width = fuser.config().bucket_width_micros as int;
            let place = fuser.place_of(tick, wall);
            let (open, closed) = routed(fuser.open(), place, tick, now);
            let metrics = before.dedup().metrics@.flushed(now).counted(
                before.dedup().filter@.verdict(tick),
                now,
            );
            let down = DownstreamView { engine: engine.stored(tick), ..before.downstream(engine) };
            let up = after.downstream(engine_after);
            assert(after.fuser().open() == open);
            assert(flows_down(
                down,
                closed,
                width,
                before.steps(),
                trend,
                forecast,
                rates_of::<N>(metrics),
                up,
            ));
            match closed {
                None => {
                    assert(up == down);
                    assert(joined(old_m.groups) + open_ticks(open) =~= passed);
                    old_m
                },
                Some(b) => {
                    assert(fuser.open() == Some(b));
                    bucket_is_late_enough(
                        pipelines,
                        engines,
                        ticks,
                        trend,
                        forecast,
                        walls,
                        nows,
                        results,
                        fusion,
                        n - 1,
                    );
                    let centre = bucket_centre(b.id as int, width);
                    let f = choose|f: FusedTick<N>|
                        #[trigger] fuses(b.ticks, centre, f) && digested(
                            down,
                            f,
                            before.steps(),
                            trend,
                            forecast,
                            rates_of::<N>(metrics),
                            up,
                        );
                    let (v, signals, snap) = choose|
                        v: FeatureVector<N>,
                        signals: Seq<TrendSignal<N>>,
                        snap: PredictionSnapshot<N>,
                    |
                        #[trigger]
                        digested_as(
                            down,
                            f,
                            before.steps(),
                            trend,
                            forecast,
                            rates_of::<N>(metrics),
                            v,
                            signals,
                            snap,
                            up,
                        );
                    let m = Made {
                        groups: old_m.groups.push(b.ticks),
                        fused: old_m.fused.push(f),
                        features: old_m.features.push(after.features()),
                        averages: old_m.averages.push(after.averages()),
                        vectors: old_m.vectors.push(v),
                        signals: old_m.signals.push(signals),
                    };
                    assert(m.groups.drop_last() =~= old_m.groups);
                    assert(joined(m.groups) + open_ticks(open) =~= passed);
                    let (old_in, new_in) = (as_inputs(old_m.fused), as_inputs(m.fused));
                    assert(is_history(m.features, new_in)) by {
                        assert(m.features[0] == old_m.features[0]);
                        assert forall|i: int| 0 <= i < new_in.len() implies taken_in(
                            m.features[i],
                            #[trigger] new_in[i],
                            m.features[i + 1],
                        ) by {
                            if i < old_in.len() {
                                assert(new_in[i] == old_in[i]);
                                assert(taken_in(
                                    old_m.features[i],
                                    old_in[i],
                                    old_m.features[i + 1],
                                ));
                            } else {
                                assert(m.features[i] == old_m.features.last());
                            }
                        }
                    }
                    assert forall|i: int| 0 <= i < m.fused.len() implies fuses(
                        m.groups[i],
                        (#[trigger] m.fused[i]).ts_micros as int,
                        m.fused[i],
                    ) by {
                        if i < old_m.fused.len() {
                            assert(m.fused[i] == old_m.fused[i]);
                            assert(m.groups[i] == old_m.groups[i]);
                        }
                    }
                    assert forall|i: int| 0 <= i < m.fused.len() implies {
                        &&& trends_advanced(
                            m.averages[i],
                            #[trigger] m.vectors[i],
                            m.averages[i + 1],
                            m.signals[i],
                        )
                        &&& m.vectors[i].price == m.fused[i].price
                        &&& m.vectors[i].ts_micros == m.fused[i].ts_micros
                    } by {
                        if i < old_m.fused.len() {
                            assert(m.vectors[i] == old_m.vectors[i]);
                            assert(m.averages[i] == old_m.averages[i]);
                            assert(m.averages[i + 1] == old_m.averages[i + 1]);
                        } else {
                            assert(m.averages[i] == old_m.averages.last());
                        }
                    }
                    assert(m.averages[0] == old_m.averages[0]);
                    m
                },
            }
        }
    }
}

/// The open bucket is late enough for the features.
proof fn bucket_is_late_enough<N: Analytic, T: TrendModelExt<N>, F: ForecastModelExt<N>>(
    pipelines: Seq<Pipeline<N>>,
    engines: Seq<EngineView<N>>,
    ticks: Seq<Tick<N>>,
    trend: Option<T>,
    forecast: Option<F>,
    walls: Seq<i64>,
    nows: Seq<i64>,
    results: Seq<bool>,
    fusion: FusionConfig<N>,
    n: int,
)
    requires
        is_replay(pipelines, engines, ticks, trend, forecast, walls, nows, results),
        pipelines[0].fuser().is_new(fusion),
        all_have_buckets(pipelines, ticks, walls),
        0 <= n <= ticks.len(),
    ensures
        pipelines[n].fuser().config() == fusion,
        pipelines[n].fuser().open() matches Some(b) ==> bucket_centre(
            b.id as int,
            fusion.bucket_width_micros as int,
        ) >= EARLIEST_MICROS,
    decreases n,
{
    if n > 0 {
        bucket_is_late_enough(
            pipelines,
            engines,
            ticks,
            trend,
            forecast,
            walls,
            nows,
            results,
            fusion,
            n - 1,
        );
        let i = n - 1;
        assert(injected(
            pipelines[i],
            engines[i],
            ticks[i],
            trend,
            forecast,
            walls[i],
            nows[i],
            pipelines[i + 1],
            engines[i + 1],
            results[i],
        ));
    }
}

/// The flush timer does nothing while the open bucket is young; once it is old, it closes,
/// its ticks are fused into one, which the features take in and a snapshot tells the price
/// of. The filter, its counts and the clock offsets stay as they are.
pub proof fn timer_only_flushes_old_buckets<
    N: Analytic,
    T: TrendModelExt<N>,
    F: ForecastModelExt<N>,
>(
    before: Pipeline<N>,
    engine: EngineView<N>,
    trend: Option<T>,
    forecast: Option<F>,
    now: i64,
    after: Pipeline<N>,
    engine_after: EngineView<N>,
) -> (fused: FusedTick<N>)
    requires
        timer_fired(before, engine, trend, forecast, now, after, engine_after),
        before.fuser().config().max_bucket_age.total() > 0,
    ensures
        ({
            let age = before.fuser().config().max_bucket_age.total();
            let width = before.fuser().config().bucket_width_micros as int;
            let open = before.fuser().open();
            let old = open is Some && now - open->0.opened_at >= age;
            &&& after.fuser().corrector() == before.fuser().corrector()
            &&& after.dedup().metrics@ == before.dedup().metrics@
            &&& after.dedup().filter@.prices == before.dedup().filter@.prices
            &&& after.dedup().filter@.seen == before.dedup().filter@.seen
            &&& !old ==> {
                &&& after.fuser().open() == open
                &&& engine_after == engine
                &&& after.features() == before.features()
                &&& after.averages() == before.averages()
            }
            &&& old && bucket_centre(open->0.id as int, width) >= EARLIEST_MICROS ==> {
                &&& after.fuser().open() is None
                &&& fuses(open->0.ticks, fused.ts_micros as int, fused)
                &&& taken_in(before.features(), Input::Tick(fused), after.features())
                &&& engine_after.latest matches Some(s) && s.price == fused.price && s.snapshot_at
                    == fused.ts_micros
                &&& engine_after.ticks == engine.ticks
            }
        }),
{
    let width = before.fuser().config().bucket_width_micros as int;
    let age = before.fuser().config().max_bucket_age.total();
    let (open, closed) = timed_out(before.fuser().open(), now, age);
    let rates = rates_of::<N>(before.dedup().metrics@);
    let (down, up) = (before.downstream(engine), after.downstream(engine_after));
    assert(flows_down(down, closed, width, before.steps(), trend, forecast, rates, up));
    assert(closed is None ==> up == down);
    assert(up.engine == engine_after && down.engine == engine);
    assert(up.features == after.features() && down.features == before.features());
    assert(up.averages == after.averages() && down.averages == before.averages());
    if closed is Some && bucket_centre(closed->0.id as int, width) >= EARLIEST_MICROS {
        let b = closed->0;
        let centre = bucket_centre(b.id as int, width);
        let f = choose|f: FusedTick<N>|
            #[trigger] fuses(b.ticks, centre, f) && digested(
                down,
                f,
                before.steps(),
                trend,
                forecast,
                rates,
                up,
            );
        let (v, signals, snap) = choose|
            v: FeatureVector<N>,
            signals: Seq<TrendSignal<N>>,
            snap: PredictionSnapshot<N>,
        |
            #[trigger]
            digested_as(
                down,
                f,
                before.steps(),
                trend,
                forecast,
                rates,
                v,
                signals,
                snap,
                up,
            );
        f
    } else {
        arbitrary()
    }
}

} // verus!
