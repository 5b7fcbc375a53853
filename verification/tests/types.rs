use preda_sdk::belief::{BeliefCondition, BeliefStateIndex};
use preda_sdk::config::{BsiConfig, SignalWeights};
use preda_sdk::market::{LifecycleManager, Market, MarketConfig, MarketState, MarketType,
    SettlementCurve};
use preda_sdk::oracle::{ConsensusOracle, ForecastOracle, NarrativeOracle, SentimentOracle};
use preda_sdk::position::{Position, PositionStatus, TimeBucket, TimeBucketAggregate};
use preda_sdk::{DEFAULT_CLUSTER, PREDA_PROGRAM_ID, VERSION};

#[test]
fn test_version() {
    assert!(!VERSION.is_empty());
}

#[test]
fn test_constants() {
    assert!(!DEFAULT_CLUSTER.is_empty());
    assert!(!PREDA_PROGRAM_ID.is_empty());
}

#[test]
fn test_bsi_sentiment_detection() {
    let mut bsi = BeliefStateIndex::new("BTC".to_string());

    bsi.value = 500_000;
    assert!(bsi.is_bullish());
    assert!(!bsi.is_bearish());

    bsi.value = -500_000;
    assert!(bsi.is_bearish());
    assert!(!bsi.is_bullish());

    bsi.value = 100_000;
    assert!(bsi.is_neutral());
}

#[test]
fn test_bsi_motion_flags() {
    let mut bsi = BeliefStateIndex::new("BTC".to_string());
    assert!(!bsi.is_accelerating());
    assert!(!bsi.is_volatile());

    bsi.velocity = -200_000;
    assert!(bsi.is_accelerating());

    bsi.volatility = 600_000;
    assert!(bsi.is_volatile());
}

#[test]
fn test_belief_condition_validation() {
    let valid_condition = BeliefCondition::SentimentShift {
        from_polarity: -200_000,
        to_polarity: 600_000,
        persistence_window: 3600,
    };
    assert!(valid_condition.validate().is_ok());

    let invalid_condition = BeliefCondition::SentimentShift {
        from_polarity: -1_500_000,
        to_polarity: 600_000,
        persistence_window: 3600,
    };
    assert!(invalid_condition.validate().is_err());
}

#[test]
fn test_belief_condition_variants() {
    let threshold = BeliefCondition::ProbabilityThreshold {
        threshold: 1_200_000,
        direction: preda_sdk::belief::ThresholdDirection::Above,
        persistence_window: 60,
    };
    assert!(threshold.validate().is_err());

    let consensus = BeliefCondition::ModelConsensus {
        min_models: 1,
        convergence_band: 100_000,
        persistence_window: 60,
    };
    assert!(consensus.validate().is_err());

    let velocity = BeliefCondition::NarrativeVelocity {
        velocity_threshold: 5_000_000,
        acceleration_threshold: 5_000_000,
        persistence_window: 60,
    };
    assert!(velocity.validate().is_ok());
    assert_eq!(velocity.persistence_window(), 60);
}

#[test]
fn test_bsi_config_validation() {
    let config = BsiConfig::default();
    assert!(config.validate().is_ok());

    let mut bad = config;
    bad.smoothing_window = 0;
    assert!(bad.validate().is_err());

    let mut bad = config;
    bad.decay_factor = 0;
    assert!(bad.validate().is_err());

    let mut bad = config;
    bad.decay_factor = 1_000_001;
    assert!(bad.validate().is_err());

    let mut bad = config;
    bad.min_signal_count = 0;
    assert!(bad.validate().is_err());

    let mut bad = config;
    bad.outlier_threshold = 0;
    assert!(bad.validate().is_err());
}

#[test]
fn test_default_signal_weights() {
    let weights = SignalWeights::default();
    assert_eq!(weights.sentiment, 1_000_000);
    assert_eq!(weights.probability, 1_200_000);
    assert_eq!(weights.narrative, 800_000);
    assert_eq!(weights.model_forecast, 1_500_000);
    assert_eq!(weights.consensus_metric, 1_300_000);
}

#[test]
fn test_market_config_validation() {
    let mut config = MarketConfig::default();
    assert!(config.validate().is_ok());

    config.min_position_size = 2_000_000_000;
    assert!(config.validate().is_err());
}

#[test]
fn test_fee_calculation() {
    let config = MarketConfig::default();
    let fee = config.calculate_fee(1_000_000_000);
    assert_eq!(fee, 5_000_000);
}

fn test_market() -> Market {
    Market {
        address: "market-account".to_string(),
        creator: "creator-account".to_string(),
        market_type: MarketType::SentimentTransition,
        belief_condition: BeliefCondition::SentimentShift {
            from_polarity: -200_000,
            to_polarity: 600_000,
            persistence_window: 3600,
        },
        description: "Test market".to_string(),
        state: MarketState::Active,
        config: MarketConfig::default(),
        created_at: 0,
        resolved_at: None,
        total_value_locked: 0,
        participant_count: 0,
        oracle_addresses: vec![],
    }
}

#[test]
fn test_market_state_checks() {
    let market = test_market();

    assert!(market.is_active());
    assert!(!market.is_resolved());
    assert!(market.can_accept_positions());
}

#[test]
fn test_market_lifecycle_transitions() {
    let mut market = test_market();

    assert!(LifecycleManager::start_monitoring(&mut market).is_ok());
    assert_eq!(market.state, MarketState::Monitoring);
    assert!(market.is_active());
    assert!(!market.can_accept_positions());

    assert!(LifecycleManager::resolve_market(&mut market, 4200).is_ok());
    assert_eq!(market.state, MarketState::Resolved);
    assert_eq!(market.resolved_at, Some(4200));
    assert!(market.is_resolved());

    let mut other = test_market();
    assert!(LifecycleManager::cancel_market(&mut other).is_ok());
    assert_eq!(other.state, MarketState::Cancelled);

    let mut third = test_market();
    assert!(LifecycleManager::expire_market(&mut third).is_ok());
    assert_eq!(third.state, MarketState::Expired);
}

#[test]
fn test_market_type_names() {
    assert_eq!(MarketType::SentimentTransition.name(), "Sentiment Transition");
    assert_eq!(MarketType::ModelConsensus.description(),
        "Resolves when models converge on shared assessment");
}

#[test]
fn test_market_expiration() {
    let mut market = test_market();
    market.config.expiration_time = 1000;
    assert!(!market.has_expired(1000));
    assert!(market.has_expired(1001));
    assert_eq!(market.time_until_expiration(400), 600);
    assert_eq!(market.config.settlement_curve, SettlementCurve::Gaussian);
}

#[test]
fn test_time_bucket_creation() {
    let bucket = TimeBucket::new(1000, 2000).unwrap();
    assert_eq!(bucket.duration(), 1000);
    assert_eq!(bucket.midpoint(), 1500);

    let invalid = TimeBucket::new(2000, 1000);
    assert!(invalid.is_err());
}

#[test]
fn test_time_bucket_contains() {
    let bucket = TimeBucket::new(1000, 2000).unwrap();
    assert!(bucket.contains(1500));
    assert!(!bucket.contains(500));
    assert!(!bucket.contains(2500));
}

#[test]
fn test_time_bucket_distance() {
    let bucket = TimeBucket::new(1000, 2000).unwrap();
    assert_eq!(bucket.distance_from(1500), 0);
    assert_eq!(bucket.distance_from(500), 500);
    assert_eq!(bucket.distance_from(2500), 500);
}

#[test]
fn test_time_bucket_overlap() {
    let bucket = TimeBucket::new(1000, 2000).unwrap();
    let other = TimeBucket::from_duration(1500, 1000);
    assert_eq!(other.end, 2500);
    assert!(bucket.overlaps(&other));
    let disjoint = TimeBucket::new(2000, 3000).unwrap();
    assert!(!bucket.overlaps(&disjoint));
}

#[test]
fn test_position_roi() {
    let mut position = Position {
        address: "position-account".to_string(),
        market: "market-account".to_string(),
        owner: "owner-account".to_string(),
        time_bucket: TimeBucket::new(1000, 2000).unwrap(),
        amount: 1_000_000,
        status: PositionStatus::Active,
        created_at: 0,
        settled_at: None,
        payout: None,
    };

    assert!(position.roi().is_none());

    position.payout = Some(2_000_000);
    // A doubled stake is a 100% return: 100 in micro-percent units.
    assert_eq!(position.roi(), Some(100_000_000));
}

#[test]
fn test_position_status_checks() {
    let mut position = Position {
        address: "position-account".to_string(),
        market: "market-account".to_string(),
        owner: "owner-account".to_string(),
        time_bucket: TimeBucket::new(1000, 2000).unwrap(),
        amount: 1_000_000,
        status: PositionStatus::Active,
        created_at: 100,
        settled_at: None,
        payout: None,
    };
    assert!(position.is_active());
    assert!(!position.is_settled());
    assert_eq!(position.age(160), 60);

    position.status = PositionStatus::PartialWin;
    assert!(position.is_settled());
    assert!(position.is_winner());

    position.status = PositionStatus::Lost;
    assert!(position.is_settled());
    assert!(!position.is_winner());
}

#[test]
fn test_implied_probability() {
    let prob = TimeBucketAggregate::calculate_implied_probability(250, 1000);
    assert_eq!(prob, 250_000);
}

#[test]
fn test_implied_probability_empty_market() {
    assert_eq!(TimeBucketAggregate::calculate_implied_probability(0, 0), 0);
}

#[test]
fn test_sentiment_oracle_creation() {
    let oracle = SentimentOracle::new();
    assert_eq!(oracle.name(), "Sentiment Oracle");
    assert_eq!(oracle.update_frequency(), 300);
}

#[test]
fn test_oracle_endpoints_and_signals() {
    let sentiment = SentimentOracle::new();
    assert_eq!(sentiment.api_endpoint().as_str(), "https://api.preda.io/sentiment");
    let custom = SentimentOracle::with_endpoint("http://localhost:9999".to_string());
    assert_eq!(custom.api_endpoint().as_str(), "http://localhost:9999");

    let signal = SentimentOracle::signal_from_score(750_000, 1234, "BTC");
    assert_eq!(signal.source, "sentiment_oracle");
    assert_eq!(signal.value, 750_000);
    assert_eq!(signal.weight, 1_000_000);
    assert_eq!(signal.timestamp, 1234);
    assert_eq!(signal.metadata,
        vec![("domain".to_string(), "BTC".to_string()),
            ("oracle".to_string(), "sentiment".to_string())]);

    let narrative = NarrativeOracle::new();
    assert_eq!(narrative.name(), "Narrative Oracle");
    assert_eq!(narrative.update_frequency(), 600);
    let signal = NarrativeOracle::signal_from_score(100_000, 1, "ETH");
    assert_eq!(signal.weight, 800_000);

    let forecast = ForecastOracle::new();
    assert_eq!(forecast.name(), "Forecast Oracle");
    assert_eq!(forecast.update_frequency(), 300);
    let signal = ForecastOracle::signal_from_score(100_000, 1, "ETH");
    assert_eq!(signal.weight, 1_200_000);

    let consensus = ConsensusOracle::new();
    assert_eq!(consensus.name(), "AI Consensus Oracle");
    assert_eq!(consensus.update_frequency(), 300);
    let signal = ConsensusOracle::signal_from_score(100_000, 1, "ETH");
    assert_eq!(signal.weight, 1_300_000);
}
