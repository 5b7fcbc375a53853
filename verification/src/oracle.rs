//! Oracle types: sources of belief signals. Each oracle names an HTTP
//! endpoint and turns a fetched score into a weighted, timestamped belief
//! signal; the fetching itself is the embedding system's concern.

use vstd::prelude::*;
use vstd::string::StringExecFns;

use crate::belief::{BeliefSignal, SignalType, VALUE_LIMIT};

verus! {

/// Builds the metadata pairs every oracle signal carries: the queried domain
/// and the oracle's short name.
fn oracle_metadata(domain: &str, oracle: &str) -> (r: Vec<(String, String)>)
    ensures
        r.deep_view() =~= seq![("domain"@, domain@), ("oracle"@, oracle@)],
{
    let mut r: Vec<(String, String)> = Vec::new();
    r.push((String::from_str("domain"), String::from_str(domain)));
    r.push((String::from_str("oracle"), String::from_str(oracle)));
    r
}

/// Sentiment oracle for capturing social sentiment.
pub struct SentimentOracle {
    api_endpoint: String,
}

impl SentimentOracle {
    /// The configured API endpoint.
    pub closed spec fn spec_endpoint(self) -> Seq<char> {
        self.api_endpoint@
    }

    /// Create a sentiment oracle against the default endpoint.
    pub fn new() -> (r: Self)
        ensures
            r.spec_endpoint() == "https://api.preda.io/sentiment"@,
    {
        SentimentOracle { api_endpoint: String::from_str("https://api.preda.io/sentiment") }
    }

    /// Create a sentiment oracle against a custom endpoint.
    pub fn with_endpoint(endpoint: String) -> (r: Self)
        ensures
            r.spec_endpoint() == endpoint@,
    {
        SentimentOracle { api_endpoint: endpoint }
    }

    /// The configured API endpoint.
    pub fn api_endpoint(&self) -> (r: &String)
        ensures
            r@ == self.spec_endpoint(),
    {
        &self.api_endpoint
    }

    /// Oracle name.
    pub fn name(&self) -> (r: &'static str)
        ensures
            r@ == "Sentiment Oracle"@,
    {
        "Sentiment Oracle"
    }

    /// Update frequency, seconds.
    pub fn update_frequency(&self) -> (r: u64)
        ensures
            r == 300,
    {
        300
    }

    /// The belief signal a fetched sentiment score stands for: a sentiment
    /// signal at unit weight.
    pub fn signal_from_score(score: i64, timestamp: i64, domain: &str) -> (r: BeliefSignal)
        requires
            -VALUE_LIMIT <= score <= VALUE_LIMIT,
        ensures
            r@.source == "sentiment_oracle"@,
            r@.signal_type == SignalType::Sentiment,
            r@.value == score as int,
            r@.weight == 1_000_000int,
            r@.timestamp == timestamp as int,
            r@.metadata == seq![("domain"@, domain@), ("oracle"@, "sentiment"@)],
            r@.wf(),
    {
        BeliefSignal {
            source: String::from_str("sentiment_oracle"),
            signal_type: SignalType::Sentiment,
            value: score,
            weight: 1_000_000,
            timestamp,
            metadata: oracle_metadata(domain, "sentiment"),
        }
    }
}

impl Default for SentimentOracle {
    fn default() -> (r: Self)
        ensures
            r.spec_endpoint() == "https://api.preda.io/sentiment"@,
    {
        SentimentOracle::new()
    }
}

/// Narrative oracle for tracking narrative framing and topic dominance.
pub struct NarrativeOracle {
    api_endpoint: String,
}

impl NarrativeOracle {
    /// The configured API endpoint.
    pub closed spec fn spec_endpoint(self) -> Seq<char> {
        self.api_endpoint@
    }

    /// Create a narrative oracle against the default endpoint.
    pub fn new() -> (r: Self)
        ensures
            r.spec_endpoint() == "https://api.preda.io/narrative"@,
    {
        NarrativeOracle { api_endpoint: String::from_str("https://api.preda.io/narrative") }
    }

    /// Create a narrative oracle against a custom endpoint.
    pub fn with_endpoint(endpoint: String) -> (r: Self)
        ensures
            r.spec_endpoint() == endpoint@,
    {
        NarrativeOracle { api_endpoint: endpoint }
    }

    /// The configured API endpoint.
    pub fn api_endpoint(&self) -> (r: &String)
        ensures
            r@ == self.spec_endpoint(),
    {
        &self.api_endpoint
    }

    /// Oracle name.
    pub fn name(&self) -> (r: &'static str)
        ensures
            r@ == "Narrative Oracle"@,
    {
        "Narrative Oracle"
    }

    /// Update frequency, seconds.
    pub fn update_frequency(&self) -> (r: u64)
        ensures
            r == 600,
    {
        600
    }

    /// The belief signal a fetched narrative score stands for: a narrative
    /// signal at weight `0.8`.
    pub fn signal_from_score(score: i64, timestamp: i64, domain: &str) -> (r: BeliefSignal)
        requires
            -VALUE_LIMIT <= score <= VALUE_LIMIT,
        ensures
            r@.source == "narrative_oracle"@,
            r@.signal_type == SignalType::Narrative,
            r@.value == score as int,
            r@.weight == 800_000int,
            r@.timestamp == timestamp as int,
            r@.metadata == seq![("domain"@, domain@), ("oracle"@, "narrative"@)],
            r@.wf(),
    {
        BeliefSignal {
            source: String::from_str("narrative_oracle"),
            signal_type: SignalType::Narrative,
            value: score,
            weight: 800_000,
            timestamp,
            metadata: oracle_metadata(domain, "narrative"),
        }
    }
}

impl Default for NarrativeOracle {
    fn default() -> (r: Self)
        ensures
            r.spec_endpoint() == "https://api.preda.io/narrative"@,
    {
        NarrativeOracle::new()
    }
}

/// Forecast oracle for aggregating probabilistic forecasts.
pub struct ForecastOracle {
    api_endpoint: String,
}

impl ForecastOracle {
    /// The configured API endpoint.
    pub closed spec fn spec_endpoint(self) -> Seq<char> {
        self.api_endpoint@
    }

    /// Create a forecast oracle against the default endpoint.
    pub fn new() -> (r: Self)
        ensures
            r.spec_endpoint() == "https://api.preda.io/forecast"@,
    {
        ForecastOracle { api_endpoint: String::from_str("https://api.preda.io/forecast") }
    }

    /// Create a forecast oracle against a custom endpoint.
    pub fn with_endpoint(endpoint: String) -> (r: Self)
        ensures
            r.spec_endpoint() == endpoint@,
    {
        ForecastOracle { api_endpoint: endpoint }
    }

    /// The configured API endpoint.
    pub fn api_endpoint(&self) -> (r: &String)
        ensures
            r@ == self.spec_endpoint(),
    {
        &self.api_endpoint
    }

    /// Oracle name.
    pub fn name(&self) -> (r: &'static str)
        ensures
            r@ == "Forecast Oracle"@,
    {
        "Forecast Oracle"
    }

    /// Update frequency, seconds.
    pub fn update_frequency(&self) -> (r: u64)
        ensures
            r == 300,
    {
        300
    }

    /// The belief signal a fetched forecast probability stands for: a
    /// probability signal at weight `1.2`.
    pub fn signal_from_score(score: i64, timestamp: i64, domain: &str) -> (r: BeliefSignal)
        requires
            -VALUE_LIMIT <= score <= VALUE_LIMIT,
        ensures
            r@.source == "forecast_oracle"@,
            r@.signal_type == SignalType::Probability,
            r@.value == score as int,
            r@.weight == 1_200_000int,
            r@.timestamp == timestamp as int,
            r@.metadata == seq![("domain"@, domain@), ("oracle"@, "forecast"@)],
            r@.wf(),
    {
        BeliefSignal {
            source: String::from_str("forecast_oracle"),
            signal_type: SignalType::Probability,
            value: score,
            weight: 1_200_000,
            timestamp,
            metadata: oracle_metadata(domain, "forecast"),
        }
    }
}

impl Default for ForecastOracle {
    fn default() -> (r: Self)
        ensures
            r.spec_endpoint() == "https://api.preda.io/forecast"@,
    {
        ForecastOracle::new()
    }
}

/// Consensus oracle for measuring model agreement.
pub struct ConsensusOracle {
    api_endpoint: String,
}

impl ConsensusOracle {
    /// The configured API endpoint.
    pub closed spec fn spec_endpoint(self) -> Seq<char> {
        self.api_endpoint@
    }

    /// Create a consensus oracle against the default endpoint.
    pub fn new() -> (r: Self)
        ensures
            r.spec_endpoint() == "https://api.preda.io/consensus"@,
    {
        ConsensusOracle { api_endpoint: String::from_str("https://api.preda.io/consensus") }
    }

    /// Create a consensus oracle against a custom endpoint.
    pub fn with_endpoint(endpoint: String) -> (r: Self)
        ensures
            r.spec_endpoint() == endpoint@,
    {
        ConsensusOracle { api_endpoint: endpoint }
    }

    /// The configured API endpoint.
    pub fn api_endpoint(&self) -> (r: &String)
        ensures
            r@ == self.spec_endpoint(),
    {
        &self.api_endpoint
    }

    /// Oracle name.
    pub fn name(&self) -> (r: &'static str)
        ensures
            r@ == "AI Consensus Oracle"@,
    {
        "AI Consensus Oracle"
    }

    /// Update frequency, seconds.
    pub fn update_frequency(&self) -> (r: u64)
        ensures
            r == 300,
    {
        300
    }

    /// The belief signal a fetched consensus score stands for: a consensus
    /// metric signal at weight `1.3`.
    pub fn signal_from_score(score: i64, timestamp: i64, domain: &str) -> (r: BeliefSignal)
        requires
            -VALUE_LIMIT <= score <= VALUE_LIMIT,
        ensures
            r@.source == "consensus_oracle"@,
            r@.signal_type == SignalType::ConsensusMetric,
            r@.value == score as int,
            r@.weight == 1_300_000int,
            r@.timestamp == timestamp as int,
            r@.metadata == seq![("domain"@, domain@), ("oracle"@, "consensus"@)],
            r@.wf(),
    {
        BeliefSignal {
            source: String::from_str("consensus_oracle"),
            signal_type: SignalType::ConsensusMetric,
            value: score,
            weight: 1_300_000,
            timestamp,
            metadata: oracle_metadata(domain, "consensus"),
        }
    }
}

impl Default for ConsensusOracle {
    fn default() -> (r: Self)
        ensures
            r.spec_endpoint() == "https://api.preda.io/consensus"@,
    {
        ConsensusOracle::new()
    }
}

} // verus!
