//! What the stages are for: statements about results that do not follow the steps by
//! which they are computed.
//!
//! Some hold of every number type that keeps signs or order ([`sign`]); those that say how
//! much are in whole units, for number types that count in exact decimals ([`decimal`]).

pub mod books;
pub mod classifier;
pub mod decimal;
pub mod drift;
pub mod features;
pub mod filter;
pub mod forecast;
pub mod fusion;
pub mod messages;
pub mod moves;
pub mod publishing;
pub mod queries;
pub mod replay;
pub mod sign;
pub mod strength;
pub mod trend;
pub mod vote;
pub mod windows;
