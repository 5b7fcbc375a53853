use preda_sdk::belief::{BeliefSignal, SignalType};
use preda_sdk::calculator::BsiCalculator;
use preda_sdk::config::BsiConfig;

fn create_test_signal(value: i64, signal_type: SignalType) -> BeliefSignal {
    BeliefSignal {
        source: "test".to_string(),
        signal_type,
        value,
        weight: 1_000_000,
        timestamp: 1_700_000_000,
        metadata: vec![],
    }
}

#[test]
fn test_bsi_calculation() {
    let config = BsiConfig::default();
    let mut calculator = BsiCalculator::new(config);

    let signals = vec![
        create_test_signal(500_000, SignalType::Sentiment),
        create_test_signal(600_000, SignalType::Probability),
        create_test_signal(400_000, SignalType::Narrative),
    ];

    let bsi = calculator.calculate(&signals, "BTC".to_string());

    assert!(bsi.value >= 0 && bsi.value <= 1_000_000);
    assert_eq!(bsi.signal_count, 3);
    assert!(bsi.confidence > 0);
}

#[test]
fn test_weighted_average_exact() {
    // Weights: sentiment 1.0, probability 1.2, narrative 0.8; values 0.5,
    // 0.6, 0.4. The weighted average is 1.54 / 3.0.
    let config = BsiConfig::default();
    let mut calculator = BsiCalculator::new(config);

    let signals = vec![
        create_test_signal(500_000, SignalType::Sentiment),
        create_test_signal(600_000, SignalType::Probability),
        create_test_signal(400_000, SignalType::Narrative),
    ];

    let bsi = calculator.calculate_at(&signals, "BTC".to_string(), 1_700_000_000);
    assert_eq!(bsi.value, 513_333);
    assert_eq!(bsi.last_updated, 1_700_000_000);
    // Volatility is the population standard deviation of [0.5, 0.6, 0.4].
    assert_eq!(bsi.volatility, 81_649);
    // Confidence blends a full count factor with the low dispersion 60/40.
    assert_eq!(bsi.confidence, 967_340);
    assert_eq!(bsi.domain, "BTC");
}

#[test]
fn test_zscore_filter_keeps_all_at_default_threshold() {
    // With four samples the largest possible z-score under a population
    // standard deviation is sqrt(3), so the default threshold of 2.5 cannot
    // exclude anything.
    let config = BsiConfig::default();
    let calculator = BsiCalculator::new(config);

    let signals = vec![
        create_test_signal(300_000, SignalType::Sentiment),
        create_test_signal(500_000, SignalType::Sentiment),
        create_test_signal(700_000, SignalType::Sentiment),
        create_test_signal(10_000_000, SignalType::Sentiment),
    ];

    let filtered = calculator.filter_outliers(&signals);
    assert_eq!(filtered.len(), 4);
}

#[test]
fn test_zscore_filter_excludes_outlier() {
    // At a threshold of 1.5 standard deviations the 10.0 sample is the only
    // one excluded from [0.3, 0.5, 0.7, 10.0].
    let mut config = BsiConfig::default();
    config.outlier_threshold = 1_500_000;
    let calculator = BsiCalculator::new(config);

    let signals = vec![
        create_test_signal(300_000, SignalType::Sentiment),
        create_test_signal(500_000, SignalType::Sentiment),
        create_test_signal(700_000, SignalType::Sentiment),
        create_test_signal(10_000_000, SignalType::Sentiment),
    ];

    let filtered = calculator.filter_outliers(&signals);
    assert_eq!(filtered.len(), 3);
    assert!(filtered.iter().all(|s| s.value <= 700_000));
}

#[test]
fn test_zscore_filter_skips_small_batches() {
    let config = BsiConfig::default();
    let calculator = BsiCalculator::new(config);

    let signals = vec![
        create_test_signal(300_000, SignalType::Sentiment),
        create_test_signal(10_000_000, SignalType::Sentiment),
    ];

    let filtered = calculator.filter_outliers(&signals);
    assert_eq!(filtered.len(), 2);
}

#[test]
fn test_zscore_filter_zero_variance_keeps_all() {
    let config = BsiConfig::default();
    let calculator = BsiCalculator::new(config);

    let signals = vec![
        create_test_signal(500_000, SignalType::Sentiment),
        create_test_signal(500_000, SignalType::Sentiment),
        create_test_signal(500_000, SignalType::Sentiment),
    ];

    let filtered = calculator.filter_outliers(&signals);
    assert_eq!(filtered.len(), 3);
}

#[test]
fn test_velocity_calculation() {
    let config = BsiConfig::default();
    let mut calculator = BsiCalculator::new(config);

    let signals1 = vec![create_test_signal(300_000, SignalType::Sentiment)];
    calculator.calculate(&signals1, "BTC".to_string());

    let signals2 = vec![create_test_signal(700_000, SignalType::Sentiment)];
    let bsi = calculator.calculate(&signals2, "BTC".to_string());

    assert!(bsi.velocity > 0);
}

#[test]
fn test_velocity_exact_over_two_samples() {
    let config = BsiConfig::default();
    let mut calculator = BsiCalculator::new(config);

    let signals1 = vec![create_test_signal(300_000, SignalType::Sentiment)];
    calculator.calculate_at(&signals1, "BTC".to_string(), 1000);

    let signals2 = vec![create_test_signal(700_000, SignalType::Sentiment)];
    let bsi = calculator.calculate_at(&signals2, "BTC".to_string(), 1060);
    assert_eq!(bsi.velocity, 400_000);
}

#[test]
fn test_empty_batch_yields_zero_sample() {
    let config = BsiConfig::default();
    let mut calculator = BsiCalculator::new(config);

    let signals: Vec<BeliefSignal> = vec![];
    let bsi = calculator.calculate_at(&signals, "BTC".to_string(), 1000);
    assert_eq!(bsi.value, 0);
    assert_eq!(bsi.velocity, 0);
    assert_eq!(bsi.volatility, 0);
    assert_eq!(bsi.signal_count, 0);
}

#[test]
fn test_confidence_within_unit_range() {
    let config = BsiConfig::default();
    let mut calculator = BsiCalculator::new(config);

    let signals = vec![
        create_test_signal(-900_000, SignalType::Sentiment),
        create_test_signal(900_000, SignalType::ModelForecast),
        create_test_signal(100_000, SignalType::ConsensusMetric),
        create_test_signal(-100_000, SignalType::Narrative),
    ];
    let bsi = calculator.calculate(&signals, "BTC".to_string());
    assert!(bsi.confidence >= 0 && bsi.confidence <= 1_000_000);
}

#[test]
fn test_calculate_is_deterministic() {
    let signals = vec![
        create_test_signal(500_000, SignalType::Sentiment),
        create_test_signal(600_000, SignalType::Probability),
        create_test_signal(400_000, SignalType::Narrative),
    ];

    let mut first = BsiCalculator::new(BsiConfig::default());
    let mut second = BsiCalculator::new(BsiConfig::default());

    let a = first.calculate_at(&signals, "BTC".to_string(), 1234);
    let b = second.calculate_at(&signals, "BTC".to_string(), 1234);

    assert_eq!(a.value, b.value);
    assert_eq!(a.velocity, b.velocity);
    assert_eq!(a.volatility, b.volatility);
    assert_eq!(a.confidence, b.confidence);
    assert_eq!(a.signal_count, b.signal_count);
    assert_eq!(a.last_updated, b.last_updated);
    assert_eq!(a.domain, b.domain);
}

#[test]
fn test_apply_decay_scales_history() {
    let config = BsiConfig::default();
    let mut calculator = BsiCalculator::new(config);

    let signals = vec![create_test_signal(500_000, SignalType::Sentiment)];
    calculator.calculate_at(&signals, "BTC".to_string(), 1000);

    calculator.apply_decay();
    let history = calculator.get_history();
    assert_eq!(history.len(), 1);
    assert_eq!(history[0].value, 475_000);
}

#[test]
fn test_clear_history_resets_velocity() {
    let config = BsiConfig::default();
    let mut calculator = BsiCalculator::new(config);

    let signals1 = vec![create_test_signal(300_000, SignalType::Sentiment)];
    calculator.calculate_at(&signals1, "BTC".to_string(), 1000);
    calculator.clear_history();
    assert_eq!(calculator.get_history().len(), 0);

    let signals2 = vec![create_test_signal(700_000, SignalType::Sentiment)];
    let bsi = calculator.calculate_at(&signals2, "BTC".to_string(), 1060);
    assert_eq!(bsi.velocity, 0);
}

#[test]
fn test_zero_total_weight_yields_zero_value() {
    let mut config = BsiConfig::default();
    config.signal_weights.sentiment = 0;
    let mut calculator = BsiCalculator::new(config);

    let signals = vec![create_test_signal(500_000, SignalType::Sentiment)];
    let bsi = calculator.calculate_at(&signals, "BTC".to_string(), 1000);
    assert_eq!(bsi.value, 0);
}
