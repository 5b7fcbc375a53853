//! Market-related type definitions and lifecycle transitions. Ledger account
//! addresses are carried as plain text identifiers.

use vstd::prelude::*;

use crate::belief::BeliefCondition;
use crate::error::PredaError;
use crate::math::SCALE;

verus! {

/// Market types supported for time-shifted prediction.
#[derive(Debug, Clone, Copy, PartialEq, Eq, Structural)]
pub enum MarketType {
    /// Sentiment transition markets.
    SentimentTransition,
    /// Probability threshold markets.
    ProbabilityThreshold,
    /// Model consensus markets.
    ModelConsensus,
    /// Narrative velocity markets.
    NarrativeVelocity,
}

impl MarketType {
    /// Get human-readable name.
    pub fn name(&self) -> (r: &'static str)
        ensures
            r@ == match *self {
                MarketType::SentimentTransition => "Sentiment Transition"@,
                MarketType::ProbabilityThreshold => "Probability Threshold"@,
                MarketType::ModelConsensus => "Model Consensus"@,
                MarketType::NarrativeVelocity => "Narrative Velocity"@,
            },
    {
        match self {
            MarketType::SentimentTransition => "Sentiment Transition",
            MarketType::ProbabilityThreshold => "Probability Threshold",
            MarketType::ModelConsensus => "Model Consensus",
            MarketType::NarrativeVelocity => "Narrative Velocity",
        }
    }

    /// Get description.
    pub fn description(&self) -> (r: &'static str)
        ensures
            r@ == match *self {
                MarketType::SentimentTransition => "Resolves when sentiment crosses sustained threshold"@,
                MarketType::ProbabilityThreshold => "Resolves when probability exceeds defined level"@,
                MarketType::ModelConsensus => "Resolves when models converge on shared assessment"@,
                MarketType::NarrativeVelocity => "Resolves when belief change accelerates"@,
            },
    {
        match self {
            MarketType::SentimentTransition => "Resolves when sentiment crosses sustained threshold",
            MarketType::ProbabilityThreshold => "Resolves when probability exceeds defined level",
            MarketType::ModelConsensus => "Resolves when models converge on shared assessment",
            MarketType::NarrativeVelocity => "Resolves when belief change accelerates",
        }
    }
}

/// Market lifecycle states.
#[derive(Debug, Clone, Copy, PartialEq, Eq, Structural)]
pub enum MarketState {
    /// Market is being initialized.
    Initializing,
    /// Market is active and accepting positions.
    Active,
    /// Market is monitoring for belief inflection.
    Monitoring,
    /// Belief condition met, pending validation.
    InflectionDetected,
    /// Market resolved.
    Resolved,
    /// Market cancelled.
    Cancelled,
    /// Market expired without resolution.
    Expired,
}

/// Settlement curve types for volatility-aware payouts.
#[derive(Debug, Clone, Copy, PartialEq, Eq, Structural)]
pub enum SettlementCurve {
    /// Linear payout based on timing accuracy.
    Linear,
    /// Exponential decay from the inflection point.
    Exponential,
    /// Gaussian distribution around the inflection.
    Gaussian,
    /// Custom curve with parameters.
    Custom,
}

/// Market configuration parameters.
#[derive(Debug, Clone, Copy, PartialEq, Eq, Structural)]
pub struct MarketConfig {
    /// Time bucket granularity, seconds.
    pub time_bucket_size: u64,
    /// Minimum position size, lamports.
    pub min_position_size: u64,
    /// Maximum position size, lamports.
    pub max_position_size: u64,
    /// Market expiration timestamp, Unix seconds.
    pub expiration_time: i64,
    /// Oracle update frequency, seconds.
    pub oracle_update_frequency: u64,
    /// Volatility adjustment factor, micro-units.
    pub volatility_factor: i64,
    /// Settlement curve type.
    pub settlement_curve: SettlementCurve,
    /// Fee, basis points.
    pub fee_bps: u16,
}

impl MarketConfig {
    /// What `validate` accepts: a positive bucket size and oracle update
    /// frequency, a minimum position size at most the maximum, a positive
    /// volatility factor, and a fee of at most 100%.
    pub open spec fn spec_valid(self) -> bool {
        &&& self.time_bucket_size > 0
        &&& self.min_position_size <= self.max_position_size
        &&& self.oracle_update_frequency > 0
        &&& self.volatility_factor > 0
        &&& self.fee_bps <= 10000
    }

    /// Create the default market configuration: hourly buckets, positions
    /// between 0.001 and 1 SOL, five-minute oracle updates, a neutral
    /// volatility factor, Gaussian settlement and a 0.5% fee.
    pub fn default() -> (r: Self)
        ensures
            r == (MarketConfig {
                time_bucket_size: 3600,
                min_position_size: 1_000_000,
                max_position_size: 1_000_000_000,
                expiration_time: 0,
                oracle_update_frequency: 300,
                volatility_factor: SCALE,
                settlement_curve: SettlementCurve::Gaussian,
                fee_bps: 50,
            }),
            r.spec_valid(),
    {
        MarketConfig {
            time_bucket_size: 3600,
            min_position_size: 1_000_000,
            max_position_size: 1_000_000_000,
            expiration_time: 0,
            oracle_update_frequency: 300,
            volatility_factor: SCALE,
            settlement_curve: SettlementCurve::Gaussian,
            fee_bps: 50,
        }
    }

    /// Validate the configuration: `Ok` exactly when every field is
    /// acceptable, `Err` with a message naming the first offending field
    /// otherwise.
    pub fn validate(&self) -> (r: Result<(), String>)
        ensures
            r is Ok <==> self.spec_valid(),
    {
        if self.time_bucket_size == 0 {
            return Err("Time bucket size must be greater than 0".to_string());
        }
        if self.min_position_size > self.max_position_size {
            return Err("Min position size cannot exceed max position size".to_string());
        }
        if self.oracle_update_frequency == 0 {
            return Err("Oracle update frequency must be greater than 0".to_string());
        }
        if self.volatility_factor <= 0 {
            return Err("Volatility factor must be positive".to_string());
        }
        if self.fee_bps > 10000 {
            return Err("Fee cannot exceed 100%".to_string());
        }
        Ok(())
    }

    /// Calculate the fee for a position of the given size.
    pub fn calculate_fee(&self, position_size: u64) -> (r: u64)
        requires
            self.fee_bps <= 10000,
        ensures
            r == position_size * self.fee_bps / 10000,
    {
        proof {
            assert(position_size as int * (self.fee_bps as int) <= position_size as int * 10000)
                by (nonlinear_arith)
                requires self.fee_bps <= 10000, position_size >= 0
            {}
            assert(position_size as int * 10000
                < 340_282_366_920_938_463_463_374_607_431_768_211_456int) by (nonlinear_arith)
                requires 0 <= position_size <= 18_446_744_073_709_551_615u64
            {}
        }
        let fee: u128 = (position_size as u128) * (self.fee_bps as u128) / 10000;
        proof {
            assert(position_size as int * 10000 / 10000 == position_size as int) by {
                vstd::arithmetic::div_mod::lemma_div_by_multiple(position_size as int, 10000);
            }
            vstd::arithmetic::div_mod::lemma_div_is_ordered(
                position_size as int * (self.fee_bps as int),
                position_size as int * 10000,
                10000,
            );
        }
        fee as u64
    }
}

/// A time-shifted prediction market. Ledger addresses are carried as text.
#[derive(Debug, Clone)]
pub struct Market {
    /// Market account address.
    pub address: String,
    /// Market creator's address.
    pub creator: String,
    /// Market type.
    pub market_type: MarketType,
    /// Belief condition for resolution.
    pub belief_condition: BeliefCondition,
    /// Market description.
    pub description: String,
    /// Current market state.
    pub state: MarketState,
    /// Market configuration.
    pub config: MarketConfig,
    /// Creation timestamp, Unix seconds.
    pub created_at: i64,
    /// Resolution timestamp, if resolved.
    pub resolved_at: Option<i64>,
    /// Total value locked in the market, lamports.
    pub total_value_locked: u64,
    /// Number of participants.
    pub participant_count: u32,
    /// Oracle account addresses.
    pub oracle_addresses: Vec<String>,
}

impl Market {
    /// Check if the market is active (accepting or monitoring).
    pub fn is_active(&self) -> (r: bool)
        ensures
            r == (self.state == MarketState::Active || self.state == MarketState::Monitoring),
    {
        match self.state {
            MarketState::Active => true,
            MarketState::Monitoring => true,
            _ => false,
        }
    }

    /// Check if the market is resolved.
    pub fn is_resolved(&self) -> (r: bool)
        ensures
            r == (self.state == MarketState::Resolved),
    {
        match self.state {
            MarketState::Resolved => true,
            _ => false,
        }
    }

    /// Check if the market has expired at the given time.
    pub fn has_expired(&self, current_time: i64) -> (r: bool)
        ensures
            r == (current_time > self.config.expiration_time),
    {
        current_time > self.config.expiration_time
    }

    /// Check if the market can accept new positions.
    pub fn can_accept_positions(&self) -> (r: bool)
        ensures
            r == (self.state == MarketState::Active),
    {
        match self.state {
            MarketState::Active => true,
            _ => false,
        }
    }

    /// Seconds until expiration at the given time; negative once expired.
    pub fn time_until_expiration(&self, current_time: i64) -> (r: i64)
        requires
            -0x8000_0000_0000_0000 <= self.config.expiration_time - current_time
                <= 0x7fff_ffff_ffff_ffff,
        ensures
            r == self.config.expiration_time - current_time,
    {
        self.config.expiration_time - current_time
    }
}

/// Market lifecycle manager: pure state transitions over a market value.
pub struct LifecycleManager;

impl LifecycleManager {
    /// Transition an active market to the monitoring state; other states are
    /// left untouched. Never fails.
    pub fn start_monitoring(market: &mut Market) -> (r: Result<(), PredaError>)
        ensures
            r is Ok,
            *final(market) == (Market {
                state: if old(market).state == MarketState::Active {
                    MarketState::Monitoring
                } else {
                    old(market).state
                },
                ..*old(market)
            }),
    {
        if market.state == MarketState::Active {
            market.state = MarketState::Monitoring;
        }
        Ok(())
    }

    /// Record a detected inflection: a monitoring market moves to the
    /// inflection-detected state; other states are left untouched.
    pub fn handle_inflection(market: &mut Market, inflection: crate::belief::BeliefInflection) -> (r:
        Result<(), PredaError>)
        ensures
            r is Ok,
            *final(market) == (Market {
                state: if old(market).state == MarketState::Monitoring {
                    MarketState::InflectionDetected
                } else {
                    old(market).state
                },
                ..*old(market)
            }),
    {
        if market.state == MarketState::Monitoring {
            market.state = MarketState::InflectionDetected;
        }
        Ok(())
    }

    /// Resolve a market at the given time.
    pub fn resolve_market(market: &mut Market, resolution_time: i64) -> (r: Result<(), PredaError>)
        ensures
            r is Ok,
            *final(market) == (Market {
                state: MarketState::Resolved,
                resolved_at: Some(resolution_time),
                ..*old(market)
            }),
    {
        market.state = MarketState::Resolved;
        market.resolved_at = Some(resolution_time);
        Ok(())
    }

    /// Cancel a market.
    pub fn cancel_market(market: &mut Market) -> (r: Result<(), PredaError>)
        ensures
            r is Ok,
            *final(market) == (Market { state: MarketState::Cancelled, ..*old(market) }),
    {
        market.state = MarketState::Cancelled;
        Ok(())
    }

    /// Expire a market without resolution.
    pub fn expire_market(market: &mut Market) -> (r: Result<(), PredaError>)
        ensures
            r is Ok,
            *final(market) == (Market { state: MarketState::Expired, ..*old(market) }),
    {
        market.state = MarketState::Expired;
        Ok(())
    }
}

} // verus!
