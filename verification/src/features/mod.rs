//! Incremental feature engineering: constant work per tick.

pub mod activity;
pub mod book;
pub mod flow;
pub mod per_tick;
pub mod volatility;
pub mod rsi;
pub mod running;
pub mod state;

pub use activity::{ActivityRegime, TickVelocity};
pub use book::{BookImbalanceTracker, BookPressureTracker, BOOK_STALE_MICROS};
pub use flow::{OrderFlowImbalance, RollingVwap, SessionVwap};
pub use per_tick::TickReturns;
pub use rsi::Rsi;
pub use state::{FeatureState, FeatureVector};
pub use volatility::{RealisedVol, WindowedReturn};
