//! A continuous, multi-scale BTC/USD prediction engine.
//!
//! Ticks stream in from four exchanges. Each one is deduplicated and checked for spikes
//! ([`dedup`]), fused with the others of its 100 ms bucket ([`price_fusion`]), turned into
//! features ([`features`]) and fed to the models ([`models`]); the resulting snapshot is
//! stored and published ([`pipeline`], [`engine`]), and queried at any time scale
//! ([`query`]). The feeds' messages, credentials and reconnects are decided in [`feeds`].
//!
//! Prices and quantities are of any [`number::Number`] type, clocks are arguments, and
//! every function states what it returns. What the stages are for, over whole histories and
//! in terms of their inputs and results, is stated and proved in [`laws`].

pub mod bounds;
pub mod clock;
pub mod confidence;
pub mod dedup;
pub mod engine;
pub mod features;
pub mod feeds;
pub mod laws;
pub mod models;
pub mod number;
pub mod pick;
pub mod pipeline;
pub mod prelude;
pub mod price_fusion;
pub mod query;
pub mod span;
pub mod text;
pub mod types;
pub mod votes;
pub mod window;
