//! Belief-related type definitions.
//!
//! Real-valued quantities are fixed-point integers in micro-units:
//! `1_000_000` stands for `1.0`.

use vstd::prelude::*;

use crate::math::SCALE;

verus! {

/// Largest magnitude a signal or index value may carry, in micro-units
/// (`1000.0` in real terms). Values are nominally in `[-1.0, 1.0]`; the wider
/// bound only keeps the fused arithmetic inside machine integer ranges.
pub const VALUE_LIMIT: i64 = 1_000_000_000;

/// Largest weight a signal or a per-type multiplier may carry, in micro-units
/// (`1000.0` in real terms).
pub const WEIGHT_LIMIT: i64 = 1_000_000_000;

/// Types of belief signals.
#[derive(Debug, Clone, Copy, PartialEq, Eq, Structural)]
pub enum SignalType {
    Sentiment,
    Probability,
    Narrative,
    ModelForecast,
    ConsensusMetric,
}

/// Individual belief signal from an oracle.
#[derive(Debug)]
pub struct BeliefSignal {
    /// Signal source identifier.
    pub source: String,
    /// Signal type.
    pub signal_type: SignalType,
    /// Signal value, micro-units (nominally `[-1.0, 1.0]`).
    pub value: i64,
    /// Signal weight in aggregation, micro-units.
    pub weight: i64,
    /// Timestamp of signal, Unix seconds.
    pub timestamp: i64,
    /// Signal metadata: ordered key/value pairs, duplicates allowed.
    pub metadata: Vec<(String, String)>,
}

/// Mathematical model of a belief signal.
pub ghost struct SignalModel {
    pub source: Seq<char>,
    pub signal_type: SignalType,
    pub value: int,
    pub weight: int,
    pub timestamp: int,
    pub metadata: Seq<(Seq<char>, Seq<char>)>,
}

impl SignalModel {
    /// Bounds that keep every aggregate of signal values and weights inside
    /// machine integer ranges.
    pub open spec fn wf(self) -> bool {
        &&& -VALUE_LIMIT <= self.value <= VALUE_LIMIT
        &&& 0 <= self.weight <= WEIGHT_LIMIT
    }
}

impl View for BeliefSignal {
    type V = SignalModel;

    open spec fn view(&self) -> SignalModel {
        SignalModel {
            source: self.source@,
            signal_type: self.signal_type,
            value: self.value as int,
            weight: self.weight as int,
            timestamp: self.timestamp as int,
            metadata: self.metadata.deep_view(),
        }
    }
}

impl DeepView for BeliefSignal {
    type V = SignalModel;

    open spec fn deep_view(&self) -> SignalModel {
        self.view()
    }
}

/// Clones a metadata list; the copy holds the same pairs in the same order.
fn clone_metadata(m: &Vec<(String, String)>) -> (r: Vec<(String, String)>)
    ensures
        r@ == m@,
{
    let mut r: Vec<(String, String)> = Vec::new();
    let mut i: usize = 0;
    while i < m.len()
        invariant
            i <= m.len(),
            r@ =~= m@.subrange(0, i as int),
        decreases m.len() - i,
    {
        let pair = (m[i].0.clone(), m[i].1.clone());
        assert(pair == m@[i as int]);
        r.push(pair);
        i = i + 1;
    }
    assert(r@ =~= m@);
    r
}

impl Clone for BeliefSignal {
    fn clone(&self) -> (r: Self)
        ensures
            r@ == self@,
    {
        BeliefSignal {
            source: self.source.clone(),
            signal_type: self.signal_type,
            value: self.value,
            weight: self.weight,
            timestamp: self.timestamp,
            metadata: clone_metadata(&self.metadata),
        }
    }
}

/// Belief State Index: one fused sample of collective belief for a domain.
#[derive(Debug)]
pub struct BeliefStateIndex {
    /// Current BSI value, micro-units (intended range `[-1.0, 1.0]`, not clamped).
    pub value: i64,
    /// Rate of change, micro-units per sample.
    pub velocity: i64,
    /// Volatility measure, micro-units, non-negative.
    pub volatility: i64,
    /// Timestamp of last update, Unix seconds.
    pub last_updated: i64,
    /// Confidence score, micro-units, clamped to `[0.0, 1.0]`.
    pub confidence: i64,
    /// Number of signals aggregated after filtering.
    pub signal_count: u32,
    /// Domain identifier.
    pub domain: String,
}

/// Mathematical model of a Belief State Index sample.
pub ghost struct IndexModel {
    pub value: int,
    pub velocity: int,
    pub volatility: int,
    pub last_updated: int,
    pub confidence: int,
    pub signal_count: int,
    pub domain: Seq<char>,
}

impl IndexModel {
    /// Bounds established by the calculator and preserved by decay.
    pub open spec fn wf(self) -> bool {
        &&& -VALUE_LIMIT <= self.value <= VALUE_LIMIT
        &&& -2 * VALUE_LIMIT <= self.velocity <= 2 * VALUE_LIMIT
        &&& 0 <= self.volatility <= 2 * VALUE_LIMIT
        &&& 0 <= self.confidence <= SCALE
    }
}

impl View for BeliefStateIndex {
    type V = IndexModel;

    open spec fn view(&self) -> IndexModel {
        IndexModel {
            value: self.value as int,
            velocity: self.velocity as int,
            volatility: self.volatility as int,
            last_updated: self.last_updated as int,
            confidence: self.confidence as int,
            signal_count: self.signal_count as int,
            domain: self.domain@,
        }
    }
}

impl DeepView for BeliefStateIndex {
    type V = IndexModel;

    open spec fn deep_view(&self) -> IndexModel {
        self.view()
    }
}

impl BeliefStateIndex {
    /// Create a new BSI with zeroed measurements.
    pub fn new(domain: String) -> (r: Self)
        ensures
            r@.value == 0,
            r@.velocity == 0,
            r@.volatility == 0,
            r@.last_updated == 0,
            r@.confidence == 0,
            r@.signal_count == 0,
            r@.domain == domain@,
            r@.wf(),
    {
        BeliefStateIndex {
            value: 0,
            velocity: 0,
            volatility: 0,
            last_updated: 0,
            confidence: 0,
            signal_count: 0,
            domain,
        }
    }

    /// Check if BSI indicates bullish sentiment (value above `0.3`).
    pub fn is_bullish(&self) -> (r: bool)
        ensures
            r == (self@.value > 300_000),
    {
        self.value > 300_000
    }

    /// Check if BSI indicates bearish sentiment (value below `-0.3`).
    pub fn is_bearish(&self) -> (r: bool)
        ensures
            r == (self@.value < -300_000),
    {
        self.value < -300_000
    }

    /// Check if BSI is neutral (value magnitude at most `0.3`).
    pub fn is_neutral(&self) -> (r: bool)
        ensures
            r == (-300_000 <= self@.value <= 300_000),
    {
        -300_000 <= self.value && self.value <= 300_000
    }

    /// Check if BSI is accelerating (velocity magnitude above `0.1`).
    pub fn is_accelerating(&self) -> (r: bool)
        ensures
            r == (self@.velocity > 100_000 || self@.velocity < -100_000),
    {
        self.velocity > 100_000 || self.velocity < -100_000
    }

    /// Check if BSI is volatile (volatility above `0.5`).
    pub fn is_volatile(&self) -> (r: bool)
        ensures
            r == (self@.volatility > 500_000),
    {
        self.volatility > 500_000
    }
}

impl Clone for BeliefStateIndex {
    fn clone(&self) -> (r: Self)
        ensures
            r@ == self@,
    {
        BeliefStateIndex {
            value: self.value,
            velocity: self.velocity,
            volatility: self.volatility,
            last_updated: self.last_updated,
            confidence: self.confidence,
            signal_count: self.signal_count,
            domain: self.domain.clone(),
        }
    }
}

/// Threshold direction for probability-based conditions.
#[derive(Debug, Clone, Copy, PartialEq, Eq, Structural)]
pub enum ThresholdDirection {
    Above,
    Below,
    Cross,
}

/// Belief condition types for market resolution.
#[derive(Debug, Clone)]
pub enum BeliefCondition {
    /// Sentiment polarity shift.
    SentimentShift {
        /// Polarity before the shift, micro-units.
        from_polarity: i64,
        /// Polarity after the shift, micro-units.
        to_polarity: i64,
        /// Seconds the shift must persist.
        persistence_window: u64,
    },
    /// Probability threshold crossing.
    ProbabilityThreshold {
        /// Threshold, micro-units.
        threshold: i64,
        direction: ThresholdDirection,
        persistence_window: u64,
    },
    /// Model consensus convergence.
    ModelConsensus {
        min_models: u32,
        /// Convergence band width, micro-units.
        convergence_band: i64,
        persistence_window: u64,
    },
    /// Narrative velocity threshold.
    NarrativeVelocity {
        /// Velocity threshold, micro-units.
        velocity_threshold: i64,
        /// Acceleration threshold, micro-units.
        acceleration_threshold: i64,
        persistence_window: u64,
    },
    /// Custom belief condition.
    Custom {
        condition_type: String,
        /// Named parameters, micro-units.
        parameters: Vec<(String, i64)>,
        persistence_window: u64,
    },
}

impl BeliefCondition {
    /// The persistence window of the condition, whichever variant it is.
    pub open spec fn spec_persistence_window(self) -> u64 {
        match self {
            BeliefCondition::SentimentShift { persistence_window, .. } => persistence_window,
            BeliefCondition::ProbabilityThreshold { persistence_window, .. } => persistence_window,
            BeliefCondition::ModelConsensus { persistence_window, .. } => persistence_window,
            BeliefCondition::NarrativeVelocity { persistence_window, .. } => persistence_window,
            BeliefCondition::Custom { persistence_window, .. } => persistence_window,
        }
    }

    /// Whether the condition's parameters are acceptable: polarities within
    /// `[-1.0, 1.0]`, thresholds within `[0.0, 1.0]`, consensus over at least
    /// two models with a band in `(0.0, 1.0]`; other variants are not checked.
    pub open spec fn spec_valid(self) -> bool {
        match self {
            BeliefCondition::SentimentShift { from_polarity, to_polarity, .. } => {
                &&& -SCALE <= from_polarity <= SCALE
                &&& -SCALE <= to_polarity <= SCALE
            },
            BeliefCondition::ProbabilityThreshold { threshold, .. } => 0 <= threshold <= SCALE,
            BeliefCondition::ModelConsensus { min_models, convergence_band, .. } => {
                &&& min_models >= 2
                &&& 0 < convergence_band <= SCALE
            },
            _ => true,
        }
    }

    /// Get the persistence window for this condition.
    pub fn persistence_window(&self) -> (r: u64)
        ensures
            r == self.spec_persistence_window(),
    {
        match self {
            BeliefCondition::SentimentShift { persistence_window, .. } => *persistence_window,
            BeliefCondition::ProbabilityThreshold { persistence_window, .. } => *persistence_window,
            BeliefCondition::ModelConsensus { persistence_window, .. } => *persistence_window,
            BeliefCondition::NarrativeVelocity { persistence_window, .. } => *persistence_window,
            BeliefCondition::Custom { persistence_window, .. } => *persistence_window,
        }
    }

    /// Validate the belief condition parameters: `Ok` exactly when the
    /// parameters are acceptable, `Err` with a message otherwise.
    pub fn validate(&self) -> (r: Result<(), String>)
        ensures
            r is Ok <==> self.spec_valid(),
    {
        match self {
            BeliefCondition::SentimentShift { from_polarity, to_polarity, .. } => {
                if *from_polarity > SCALE || *from_polarity < -SCALE || *to_polarity > SCALE
                    || *to_polarity < -SCALE {
                    Err("Polarity values must be between -1.0 and 1.0".to_string())
                } else {
                    Ok(())
                }
            },
            BeliefCondition::ProbabilityThreshold { threshold, .. } => {
                if *threshold < 0 || *threshold > SCALE {
                    Err("Threshold must be between 0.0 and 1.0".to_string())
                } else {
                    Ok(())
                }
            },
            BeliefCondition::ModelConsensus { min_models, convergence_band, .. } => {
                if *min_models < 2 {
                    Err("Minimum 2 models required for consensus".to_string())
                } else if *convergence_band <= 0 || *convergence_band > SCALE {
                    Err("Convergence band must be between 0.0 and 1.0".to_string())
                } else {
                    Ok(())
                }
            },
            _ => Ok(()),
        }
    }
}

/// Types of belief inflections. Only `SentimentReversal`, `ThresholdCrossing`
/// and `VelocitySpike` are ever produced by the detectors; the other members
/// are declared in the taxonomy for future detectors.
#[derive(Debug, Clone, Copy, PartialEq, Eq, Structural)]
pub enum InflectionType {
    SentimentReversal,
    ThresholdCrossing,
    ConsensusFormation,
    ConsensusFragmentation,
    VelocitySpike,
    VelocityStabilization,
}

/// Belief inflection point detection.
#[derive(Debug, Clone, Copy, PartialEq, Eq, Structural)]
pub struct BeliefInflection {
    /// Type of inflection detected.
    pub inflection_type: InflectionType,
    /// Timestamp when the inflection occurred, Unix seconds.
    pub timestamp: i64,
    /// BSI value at inflection, micro-units.
    pub bsi_value: i64,
    /// Velocity at inflection, micro-units per sample.
    pub velocity: i64,
    /// Sharpness of inflection: magnitude of the triggering deviation,
    /// micro-units, non-negative.
    pub sharpness: i64,
    /// Persistence duration in seconds, filled in by validation.
    pub persistence_duration: u64,
    /// Validation status: false until a persistence check flips it.
    pub validated: bool,
}

} // verus!
