//! BSI configuration and update event types.

use vstd::prelude::*;

use crate::belief::{BeliefSignal, BeliefStateIndex, WEIGHT_LIMIT};
use crate::math::SCALE;

verus! {

/// Signal weights for different oracle types, micro-units.
#[derive(Debug, Clone, Copy, PartialEq, Eq, Structural)]
pub struct SignalWeights {
    pub sentiment: i64,
    pub probability: i64,
    pub narrative: i64,
    pub model_forecast: i64,
    pub consensus_metric: i64,
}

impl SignalWeights {
    /// Bounds that keep weighted sums inside machine integer ranges.
    pub open spec fn wf(self) -> bool {
        &&& 0 <= self.sentiment <= WEIGHT_LIMIT
        &&& 0 <= self.probability <= WEIGHT_LIMIT
        &&& 0 <= self.narrative <= WEIGHT_LIMIT
        &&& 0 <= self.model_forecast <= WEIGHT_LIMIT
        &&& 0 <= self.consensus_metric <= WEIGHT_LIMIT
    }
}

impl Default for SignalWeights {
    /// Default weights: sentiment `1.0`, probability `1.2`, narrative `0.8`,
    /// model forecast `1.5`, consensus metric `1.3`.
    fn default() -> (r: Self)
        ensures
            r.sentiment == 1_000_000,
            r.probability == 1_200_000,
            r.narrative == 800_000,
            r.model_forecast == 1_500_000,
            r.consensus_metric == 1_300_000,
            r.wf(),
    {
        SignalWeights {
            sentiment: 1_000_000,
            probability: 1_200_000,
            narrative: 800_000,
            model_forecast: 1_500_000,
            consensus_metric: 1_300_000,
        }
    }
}

/// BSI configuration.
#[derive(Debug, Clone, Copy, PartialEq, Eq, Structural)]
pub struct BsiConfig {
    /// Temporal smoothing window, seconds.
    pub smoothing_window: u64,
    /// Time decay factor, micro-units, within `(0.0, 1.0]` when valid.
    pub decay_factor: i64,
    /// Minimum signal count for full count confidence.
    pub min_signal_count: u32,
    /// Outlier detection threshold, micro-units of standard deviations.
    pub outlier_threshold: i64,
    /// Signal weights by type.
    pub signal_weights: SignalWeights,
}

impl BsiConfig {
    /// What `validate` accepts: positive smoothing window, decay factor in
    /// `(0.0, 1.0]`, positive minimum signal count, positive outlier
    /// threshold.
    pub open spec fn spec_valid(self) -> bool {
        &&& self.smoothing_window > 0
        &&& 0 < self.decay_factor <= SCALE
        &&& self.min_signal_count > 0
        &&& self.outlier_threshold > 0
    }

    /// Machine bounds required by the calculator's arithmetic; implied by
    /// `spec_valid` together with bounded weights.
    pub open spec fn wf(self) -> bool {
        &&& self.signal_weights.wf()
        &&& self.min_signal_count >= 1
        &&& 0 <= self.decay_factor <= SCALE
    }

    /// Validate the configuration: `Ok` exactly when every field is
    /// acceptable, `Err` with a message naming the first offending field
    /// otherwise.
    pub fn validate(&self) -> (r: Result<(), String>)
        ensures
            r is Ok <==> self.spec_valid(),
    {
        if self.smoothing_window == 0 {
            return Err("Smoothing window must be greater than 0".to_string());
        }
        if self.decay_factor <= 0 || self.decay_factor > SCALE {
            return Err("Decay factor must be between 0.0 and 1.0".to_string());
        }
        if self.min_signal_count == 0 {
            return Err("Minimum signal count must be greater than 0".to_string());
        }
        if self.outlier_threshold <= 0 {
            return Err("Outlier threshold must be positive".to_string());
        }
        Ok(())
    }
}

impl Default for BsiConfig {
    /// Default configuration: five-minute smoothing window, decay factor
    /// `0.95`, three signals for full confidence, outlier threshold `2.5`
    /// standard deviations, default signal weights.
    fn default() -> (r: Self)
        ensures
            r.smoothing_window == 300,
            r.decay_factor == 950_000,
            r.min_signal_count == 3,
            r.outlier_threshold == 2_500_000,
            r.signal_weights == (SignalWeights {
                sentiment: 1_000_000,
                probability: 1_200_000,
                narrative: 800_000,
                model_forecast: 1_500_000,
                consensus_metric: 1_300_000,
            }),
            r.spec_valid(),
            r.wf(),
    {
        BsiConfig {
            smoothing_window: 300,
            decay_factor: 950_000,
            min_signal_count: 3,
            outlier_threshold: 2_500_000,
            signal_weights: SignalWeights::default(),
        }
    }
}

/// BSI update event: an updated index together with the signals that
/// contributed to it.
#[derive(Debug)]
pub struct BsiUpdate {
    /// Updated BSI.
    pub bsi: BeliefStateIndex,
    /// Signals that contributed to this update.
    pub signals: Vec<BeliefSignal>,
    /// Update timestamp, Unix seconds.
    pub timestamp: i64,
}

impl Clone for BsiUpdate {
    fn clone(&self) -> (r: Self)
        ensures
            r.bsi@ == self.bsi@,
            r.signals.deep_view() == self.signals.deep_view(),
            r.timestamp == self.timestamp,
    {
        let signals = self.signals.clone();
        proof {
            assert(signals.deep_view() =~= self.signals.deep_view()) by {
                assert forall|i: int| 0 <= i < self.signals@.len() implies signals.deep_view()[i]
                    == self.signals.deep_view()[i] by {
                    assert(vstd::pervasive::cloned::<BeliefSignal>(
                        self.signals@[i],
                        signals@[i],
                    ));
                }
            }
        }
        BsiUpdate { bsi: self.bsi.clone(), signals, timestamp: self.timestamp }
    }
}

} // verus!
