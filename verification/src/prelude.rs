//! Everything needed for typical usage.

pub use crate::engine::{EngineConfig, PredictionEngine};
pub use crate::feeds::{BookFeedConfig, FeedConfig};
pub use crate::pipeline::PipelineConfig;
pub use crate::price_fusion::{FusedTick, FusionConfig};
pub use crate::query::QueryEngine;
pub use crate::types::{
    BookSnapshot, EngineError, EngineMetrics, EngineResult, Exchange, FeedHealth, Ohlcv,
    PredictionSnapshot, ShortTermForecast, Symbol, Tick, TimeScale, TradeSide, TrendDirection,
    TrendSignal, WindowProjection,
};
