//! Streaming belief-fusion engine for time-shifted prediction markets.
//!
//! The library ingests weighted, timestamped belief signals from independent
//! sources, fuses them into a continuously updated Belief State Index
//! (value, velocity, volatility, confidence), and detects structurally
//! significant inflection events in that index's time series, subject to a
//! persistence-validation rule.
//!
//! All real-valued quantities are carried as fixed-point integers in
//! micro-units: the value `1_000_000` stands for `1.0` (see [`math::SCALE`]).
//! Timestamps are Unix seconds.

use vstd::prelude::*;

pub mod aggregator;
pub mod belief;
pub mod calculator;
mod clock;
pub mod config;
pub mod error;
pub mod market;
pub mod math;
pub mod monitor;
pub mod oracle;
pub mod position;
pub mod stats;

pub use belief::{BeliefCondition, BeliefInflection, BeliefSignal};
pub use error::PredaError;
pub use market::{Market, MarketState, MarketType};
pub use position::{Position, TimeBucket};

verus! {

/// SDK version.
pub const VERSION: &'static str = "0.1.0";

/// Default Solana cluster endpoint.
pub const DEFAULT_CLUSTER: &'static str = "https://api.mainnet-beta.solana.com";

/// Preda program ID on Solana.
pub const PREDA_PROGRAM_ID: &'static str = "PredaXXXXXXXXXXXXXXXXXXXXXXXXXXXXXXXXXXXX";

} // verus!
