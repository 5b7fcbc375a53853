use preda_sdk::aggregator::SignalAggregator;
use preda_sdk::belief::{BeliefSignal, SignalType};

fn make_signal(source: &str, value: i64, signal_type: SignalType) -> BeliefSignal {
    BeliefSignal {
        source: source.to_string(),
        signal_type,
        value,
        weight: 1_000_000,
        timestamp: 1_700_000_000,
        metadata: vec![],
    }
}

fn signal_at(source: &str, value: i64, timestamp: i64) -> BeliefSignal {
    BeliefSignal {
        source: source.to_string(),
        signal_type: SignalType::Sentiment,
        value,
        weight: 1_000_000,
        timestamp,
        metadata: vec![],
    }
}

#[test]
fn test_signal_aggregation() {
    let mut aggregator = SignalAggregator::new(100);

    aggregator.add_signal(make_signal("oracle1", 500_000, SignalType::Sentiment));
    aggregator.add_signal(make_signal("oracle2", 600_000, SignalType::Sentiment));

    assert_eq!(aggregator.get_total_signal_count(), 2);
    assert_eq!(aggregator.get_source_diversity(), 2);
}

#[test]
fn test_signal_filtering() {
    let mut aggregator = SignalAggregator::new(100);

    aggregator.add_signal(make_signal("oracle1", 500_000, SignalType::Sentiment));
    aggregator.add_signal(make_signal("oracle2", 600_000, SignalType::Probability));

    let sentiment_signals = aggregator.get_signals_by_type(SignalType::Sentiment);
    assert_eq!(sentiment_signals.len(), 1);
}

#[test]
fn test_statistics() {
    let mut aggregator = SignalAggregator::new(100);

    aggregator.add_signal(make_signal("oracle1", 300_000, SignalType::Sentiment));
    aggregator.add_signal(make_signal("oracle2", 500_000, SignalType::Sentiment));
    aggregator.add_signal(make_signal("oracle3", 700_000, SignalType::Sentiment));

    let stats = aggregator.get_statistics();
    assert_eq!(stats.count, 3);
    assert_eq!(stats.median, 500_000);
}

#[test]
fn test_statistics_median_even_count() {
    let mut aggregator = SignalAggregator::new(100);

    aggregator.add_signal(make_signal("oracle1", 300_000, SignalType::Sentiment));
    aggregator.add_signal(make_signal("oracle2", 500_000, SignalType::Sentiment));

    let stats = aggregator.get_statistics();
    assert_eq!(stats.count, 2);
    assert_eq!(stats.median, 400_000);
    assert_eq!(stats.mean, 400_000);
    assert_eq!(stats.min, 300_000);
    assert_eq!(stats.max, 500_000);
    assert_eq!(stats.source_count, 2);
}

#[test]
fn test_statistics_empty_buffer() {
    let aggregator = SignalAggregator::new(100);
    let stats = aggregator.get_statistics();
    assert_eq!(stats.count, 0);
    assert_eq!(stats.mean, 0);
    assert_eq!(stats.median, 0);
    assert_eq!(stats.std_dev, 0);
    assert_eq!(stats.source_count, 0);
}

#[test]
fn test_buffer_eviction_keeps_order() {
    let mut aggregator = SignalAggregator::new(2);

    aggregator.add_signal(signal_at("oracle1", 1, 100));
    aggregator.add_signal(signal_at("oracle1", 2, 200));
    aggregator.add_signal(signal_at("oracle1", 3, 300));

    let buffered = aggregator.get_signals_by_source("oracle1");
    assert_eq!(buffered.len(), 2);
    assert_eq!(buffered[0].value, 2);
    assert_eq!(buffered[1].value, 3);
}

#[test]
fn test_signals_by_source_distinguishes_sources() {
    let mut aggregator = SignalAggregator::new(10);

    aggregator.add_signal(signal_at("oracle1", 1, 100));
    aggregator.add_signal(signal_at("oracle2", 2, 200));
    aggregator.add_signal(signal_at("oracle1", 3, 300));

    let first = aggregator.get_signals_by_source("oracle1");
    assert_eq!(first.len(), 2);
    let second = aggregator.get_signals_by_source("oracle2");
    assert_eq!(second.len(), 1);
    let missing = aggregator.get_signals_by_source("oracle3");
    assert_eq!(missing.len(), 0);
}

#[test]
fn test_recent_signals_window() {
    let mut aggregator = SignalAggregator::new(10);

    aggregator.add_signal(signal_at("oracle1", 1, 1000));
    aggregator.add_signal(signal_at("oracle1", 2, 2000));
    aggregator.add_signal(signal_at("oracle2", 3, 3000));

    let recent = aggregator.get_recent_signals_at(3000, 1000);
    assert_eq!(recent.len(), 2);
    assert!(recent.iter().all(|s| s.timestamp >= 2000));
}

#[test]
fn test_clear_old_signals_drops_empty_sources() {
    let mut aggregator = SignalAggregator::new(10);

    aggregator.add_signal(signal_at("oracle1", 1, 1000));
    aggregator.add_signal(signal_at("oracle2", 2, 5000));

    aggregator.clear_old_signals_at(6000, 2000);

    assert_eq!(aggregator.get_source_diversity(), 1);
    assert_eq!(aggregator.get_total_signal_count(), 1);
    assert_eq!(aggregator.get_signals_by_source("oracle2").len(), 1);
    assert_eq!(aggregator.get_signals_by_source("oracle1").len(), 0);
}

#[test]
fn test_average_by_type() {
    let mut aggregator = SignalAggregator::new(10);

    aggregator.add_signal(make_signal("oracle1", 300_000, SignalType::Sentiment));
    aggregator.add_signal(make_signal("oracle2", 500_000, SignalType::Sentiment));
    aggregator.add_signal(make_signal("oracle3", 900_000, SignalType::Probability));

    assert_eq!(aggregator.get_average_by_type(SignalType::Sentiment), Some(400_000));
    assert_eq!(aggregator.get_average_by_type(SignalType::Probability), Some(900_000));
    assert_eq!(aggregator.get_average_by_type(SignalType::Narrative), None);
}

#[test]
fn test_clear_empties_everything() {
    let mut aggregator = SignalAggregator::new(10);
    aggregator.add_signal(make_signal("oracle1", 1, SignalType::Sentiment));
    aggregator.clear();
    assert_eq!(aggregator.get_total_signal_count(), 0);
    assert_eq!(aggregator.get_source_diversity(), 0);
}
