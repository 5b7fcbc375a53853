//! Error types for the library. Failures of outside services are carried as
//! plain messages; the core's own operations fail only on configuration
//! rejection.

use vstd::prelude::*;

verus! {

/// Errors surfaced by the library and its collaborators.
#[derive(Debug, Clone)]
pub enum PredaError {
    /// Ledger client errors, as a message.
    SolanaClient(String),
    /// Ledger SDK errors, as a message.
    SolanaSdk(String),
    /// Serialization errors, as a message.
    Serialization(String),
    /// Binary serialization errors, as a message.
    BorshSerialization(String),
    /// HTTP request errors, as a message.
    Http(String),
    /// Market not found.
    MarketNotFound(String),
    /// Invalid market state.
    InvalidMarketState { expected: String, actual: String },
    /// Invalid belief condition.
    InvalidBeliefCondition(String),
    /// Oracle error.
    Oracle(String),
    /// BSI calculation error.
    BsiCalculation(String),
    /// Insufficient funds.
    InsufficientFunds { required: u64, available: u64 },
    /// Position not found for a time bucket.
    PositionNotFound(i64),
    /// Market already resolved at the given timestamp.
    MarketAlreadyResolved(i64),
    /// Invalid time bucket.
    InvalidTimeBucket(String),
    /// Belief threshold not met, micro-units.
    ThresholdNotMet { current: i64, required: i64 },
    /// Persistence window not satisfied, seconds.
    PersistenceNotSatisfied { duration: u64, required: u64 },
    /// Configuration error.
    Configuration(String),
    /// Invalid public key.
    InvalidPublicKey(String),
    /// Program error.
    Program(String),
    /// Generic error.
    Generic(String),
}

} // verus!
