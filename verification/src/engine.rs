//! The engine's shared state: the stores, the latest snapshot and the feeds' health.

use vstd::prelude::*;
use crate::number::Number;
use crate::pipeline::{FeedHealthTracker, PipelineConfig};
use crate::types::pred_store::DEFAULT_PRED_CAPACITY;
use crate::types::snapshot::{optional_view, SnapshotView};
use crate::types::tick_store::{ring_pushed, DEFAULT_CAPACITY};
use crate::types::{PredictionSnapshot, PredictionStore, Tick, TickStore};

verus! {

/// Full engine configuration.
#[derive(Debug)]
pub struct EngineConfig<N> {
    /// Tick ring capacity.
    pub tick_capacity: usize,
    /// Prediction ring capacity.
    pub pred_capacity: usize,
    /// Pipeline configuration (dedup, outlier filter, fusion, forecasts).
    pub pipeline: PipelineConfig<N>,
}

impl<N: Number> Default for EngineConfig<N> {
    fn default() -> (r: Self)
        ensures
            r.tick_capacity == DEFAULT_CAPACITY,
            r.pred_capacity == DEFAULT_PRED_CAPACITY,
            r.pipeline.is_default(),
    {
        EngineConfig {
            tick_capacity: DEFAULT_CAPACITY,
            pred_capacity: DEFAULT_PRED_CAPACITY,
            pipeline: PipelineConfig::default(),
        }
    }
}

/// The state that queries read: accepted ticks, published snapshots, feed health.
pub struct PredictionEngine<N> {
    tick_store: TickStore<N>,
    pred_store: PredictionStore<N>,
    latest: Option<PredictionSnapshot<N>>,
    health: FeedHealthTracker,
}

/// What a [`PredictionEngine`] holds.
#[verifier::ext_equal]
pub struct EngineView<N> {
    pub ticks: Seq<Tick<N>>,
    pub tick_capacity: nat,
    pub snapshots: Seq<SnapshotView<N>>,
    pub pred_capacity: nat,
    pub latest: Option<SnapshotView<N>>,
    pub health: FeedHealthTracker,
}

impl<N: Number> View for PredictionEngine<N> {
    type V = EngineView<N>;

    closed spec fn view(&self) -> EngineView<N> {
        EngineView {
            ticks: self.tick_store@,
            tick_capacity: self.tick_store.capacity(),
            snapshots: self.pred_store@,
            pred_capacity: self.pred_store.capacity(),
            latest: optional_view(self.latest),
            health: self.health,
        }
    }
}

impl<N: Number> EngineView<N> {
    /// After an accepted tick was stored.
    pub open spec fn stored(self, tick: Tick<N>) -> Self {
        EngineView { ticks: ring_pushed(self.ticks, self.tick_capacity, tick), ..self }
    }

    /// After a snapshot was published.
    pub open spec fn published(self, snap: SnapshotView<N>) -> Self {
        EngineView {
            snapshots: ring_pushed(self.snapshots, self.pred_capacity, snap),
            latest: Some(snap),
            ..self
        }
    }
}

/// What was published last is what is read back: the latest snapshot is the newest
/// one in the store.
pub proof fn latest_is_the_newest_stored<N: Number>(engine: EngineView<N>, snap: SnapshotView<N>)
    ensures
        engine.published(snap).latest == Some(snap),
        engine.published(snap).snapshots.len() > 0,
        engine.published(snap).snapshots.last() == snap,
{
}

impl<N: Number> PredictionEngine<N> {
    /// An engine that has seen nothing.
    pub fn start(config: &EngineConfig<N>) -> (r: Self)
        ensures
            r@.ticks == Seq::<Tick<N>>::empty(),
            r@.tick_capacity == config.tick_capacity,
            r@.snapshots == Seq::<SnapshotView<N>>::empty(),
            r@.pred_capacity == config.pred_capacity,
            r@.latest is None,
            r@.health.is_new(),
    {
        PredictionEngine {
            tick_store: TickStore::with_capacity(config.tick_capacity),
            pred_store: PredictionStore::with_capacity(config.pred_capacity),
            latest: None,
            health: FeedHealthTracker::new(),
        }
    }

    /// Stores an accepted tick, as received.
    pub fn store_tick(&mut self, tick: Tick<N>)
        ensures
            final(self)@ == old(self)@.stored(tick),
    {
        self.tick_store.push(tick);
    }

    /// Publishes a snapshot: it enters the store and becomes the latest one.
    pub fn publish(&mut self, snap: PredictionSnapshot<N>)
        ensures
            final(self)@ == old(self)@.published(snap@),
    {
        self.pred_store.push(snap.clone());
        self.latest = Some(snap);
    }

    /// Latest prediction snapshot.
    pub fn latest_snapshot(&self) -> (r: Option<PredictionSnapshot<N>>)
        ensures
            optional_view(r) == self@.latest,
    {
        match &self.latest {
            Some(s) => Some(s.clone()),
            None => None,
        }
    }

    /// Latest BTC/USD price.
    pub fn latest_price(&self) -> (r: Option<N>)
        ensures
            r == (if self@.ticks.len() == 0 { None } else { Some(self@.ticks.last().price) }),
    {
        match self.tick_store.latest() {
            Some(t) => Some(t.price),
            None => None,
        }
    }

    pub fn tick_store(&self) -> (r: &TickStore<N>)
        ensures
            r@ == self@.ticks,
            r.capacity() == self@.tick_capacity,
    {
        &self.tick_store
    }

    pub fn pred_store(&self) -> (r: &PredictionStore<N>)
        ensures
            r@ == self@.snapshots,
            r.capacity() == self@.pred_capacity,
    {
        &self.pred_store
    }

    pub fn tick_count(&self) -> (r: usize)
        ensures
            r == self@.ticks.len(),
    {
        self.tick_store.len()
    }

    pub fn prediction_count(&self) -> (r: usize)
        ensures
            r == self@.snapshots.len(),
    {
        self.pred_store.len()
    }

    /// How many feeds are healthy.
    pub fn connected_feeds(&self) -> (r: u32)
        ensures
            r == self@.health.healthy_count(),
    {
        self.health.connected_count()
    }

    /// Notes that a feed delivered a tick.
    pub fn record_feed_tick(&mut self, exchange: crate::types::Exchange, now: i64)
        ensures
            final(self)@ == (EngineView { health: final(self)@.health, ..old(self)@ }),
            old(self)@.health.recorded(exchange, now, final(self)@.health),
    {
        self.health.record_tick(exchange, now);
    }

    /// Marks the feeds that have gone silent as stale.
    pub fn sweep_stale_feeds(&mut self, now: i64)
        ensures
            final(self)@ == (EngineView { health: final(self)@.health, ..old(self)@ }),
            old(self)@.health.swept(now, final(self)@.health),
    {
        self.health.sweep_stale(now);
    }
}

} // verus!
