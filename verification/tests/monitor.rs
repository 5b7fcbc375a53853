use preda_sdk::belief::{BeliefStateIndex, InflectionType};
use preda_sdk::monitor::BeliefMonitor;

fn sample(value: i64, velocity: i64, last_updated: i64) -> BeliefStateIndex {
    BeliefStateIndex {
        value,
        velocity,
        volatility: 0,
        last_updated,
        confidence: 800_000,
        signal_count: 5,
        domain: "BTC".to_string(),
    }
}

#[test]
fn test_belief_monitor() {
    let mut monitor = BeliefMonitor::new(500_000, 60);

    // A single sample is not enough history for any detector.
    let result = monitor.update(sample(300_000, 0, 1000));
    assert!(result.is_none());
    assert_eq!(monitor.get_history().len(), 1);
}

#[test]
fn test_threshold_crossing_detection() {
    let mut monitor = BeliefMonitor::new(500_000, 60);

    // Detectors only run once three samples of history exist; the third
    // sample crosses the 0.5 threshold from below.
    assert!(monitor.update(sample(300_000, 0, 1000)).is_none());
    assert!(monitor.update(sample(300_000, 0, 1100)).is_none());
    let result = monitor.update(sample(600_000, 100_000, 1200));

    assert!(result.is_some());
    let inflection = result.unwrap();
    assert_eq!(inflection.inflection_type, InflectionType::ThresholdCrossing);
    assert_eq!(inflection.bsi_value, 600_000);
    assert_eq!(inflection.sharpness, 300_000);
    assert!(!inflection.validated);
    assert_eq!(inflection.persistence_duration, 0);
}

#[test]
fn test_sentiment_reversal_detection() {
    let mut monitor = BeliefMonitor::new(500_000, 60);

    assert!(monitor.update(sample(400_000, 0, 1000)).is_none());
    assert!(monitor.update(sample(400_000, 0, 1100)).is_none());
    let result = monitor.update(sample(-600_000, 0, 1200));

    assert!(result.is_some());
    let inflection = result.unwrap();
    assert_eq!(inflection.inflection_type, InflectionType::SentimentReversal);
    // The trailing average includes the current sample: (0.4 + 0.4 - 0.6) / 3.
    assert_eq!(inflection.sharpness, 666_666);
}

#[test]
fn test_velocity_spike_detection() {
    let mut monitor = BeliefMonitor::new(500_000, 60);

    assert!(monitor.update(sample(0, 100_000, 1000)).is_none());
    assert!(monitor.update(sample(0, 100_000, 1100)).is_none());
    let result = monitor.update(sample(0, 500_000, 1200));

    assert!(result.is_some());
    let inflection = result.unwrap();
    assert_eq!(inflection.inflection_type, InflectionType::VelocitySpike);
    // The trailing average velocity is (0.1 + 0.1 + 0.5) / 3.
    assert_eq!(inflection.sharpness, 266_667);
}

#[test]
fn test_detectors_fire_in_priority_order() {
    let mut monitor = BeliefMonitor::new(500_000, 60);

    // The final sample satisfies both the sentiment-reversal and the
    // velocity-spike conditions; only the higher-priority reversal fires.
    assert!(monitor.update(sample(400_000, 0, 1000)).is_none());
    assert!(monitor.update(sample(400_000, 0, 1100)).is_none());
    let result = monitor.update(sample(-600_000, 900_000, 1200));

    assert_eq!(result.unwrap().inflection_type, InflectionType::SentimentReversal);
}

#[test]
fn test_no_spike_when_recent_velocities_vanish() {
    let mut monitor = BeliefMonitor::new(500_000, 60);

    // Twice the trailing average magnitude stays at or below 0.1, so the
    // spurious-spike suppression keeps the detector quiet.
    assert!(monitor.update(sample(0, 0, 1000)).is_none());
    assert!(monitor.update(sample(0, 0, 1100)).is_none());
    assert!(monitor.update(sample(0, 90_000, 1200)).is_none());
}

#[test]
fn test_history_bound_evicts_oldest() {
    let mut monitor = BeliefMonitor::new(900_000, 60);

    let mut i: i64 = 0;
    while i < 1001 {
        monitor.update(sample(0, 0, 1000 + i));
        i += 1;
    }

    let history = monitor.get_history();
    assert_eq!(history.len(), 1000);
    // The oldest retained sample is the second inserted, not the first.
    assert_eq!(history[0].last_updated, 1001);
    assert_eq!(history[999].last_updated, 2000);
}

#[test]
fn test_validate_persistence_rejects_backslide() {
    let mut monitor = BeliefMonitor::new(500_000, 60);

    assert!(monitor.update(sample(300_000, 0, 1000)).is_none());
    assert!(monitor.update(sample(300_000, 0, 1100)).is_none());
    let inflection = monitor.update(sample(600_000, 0, 1200)).unwrap();
    assert_eq!(inflection.inflection_type, InflectionType::ThresholdCrossing);

    // A later sample falls back below the threshold before a minute passes.
    assert!(monitor.update(sample(400_000, 0, 1210)).is_none());
    assert!(!monitor.validate_persistence(&inflection));
}

#[test]
fn test_validate_persistence_accepts_sustained_crossing() {
    let mut monitor = BeliefMonitor::new(500_000, 60);

    assert!(monitor.update(sample(300_000, 0, 1000)).is_none());
    assert!(monitor.update(sample(300_000, 0, 1100)).is_none());
    let inflection = monitor.update(sample(600_000, 0, 1200)).unwrap();

    assert!(monitor.update(sample(700_000, 0, 1230)).is_none());
    assert!(monitor.update(sample(650_000, 0, 1290)).is_none());
    assert!(monitor.validate_persistence(&inflection));
}

#[test]
fn test_validate_persistence_needs_minimum_duration() {
    let mut monitor = BeliefMonitor::new(500_000, 60);

    assert!(monitor.update(sample(300_000, 0, 1000)).is_none());
    assert!(monitor.update(sample(300_000, 0, 1100)).is_none());
    let inflection = monitor.update(sample(600_000, 0, 1200)).unwrap();

    // The condition holds but only 30 of the required 60 seconds passed.
    assert!(monitor.update(sample(700_000, 0, 1230)).is_none());
    assert!(!monitor.validate_persistence(&inflection));
}

#[test]
fn test_clear_history_empties_monitor() {
    let mut monitor = BeliefMonitor::new(500_000, 60);
    monitor.update(sample(300_000, 0, 1000));
    monitor.clear_history();
    assert_eq!(monitor.get_history().len(), 0);
}
