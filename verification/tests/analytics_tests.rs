use llm_analytics_hub::aggregation::AggregationEngine;
use llm_analytics_hub::analytics_config::AnalyticsConfig;
use llm_analytics_hub::anomaly::{AnomalyDetector, AnomalySeverity, AnomalyType};
use llm_analytics_hub::errors::AnalyticsError;
use llm_analytics_hub::events::default_schema_version;
use llm_analytics_hub::events::{
    AnalyticsEvent, CommonEventFields, EventPayload, EventType, LatencyMetrics, Severity,
    SourceModule, TelemetryPayload,
};
use llm_analytics_hub::prediction::PredictionEngine;

const UNIT: i64 = 1_000_000;

fn sensitive_config(sensitivity_permille: u32) -> AnalyticsConfig {
    AnalyticsConfig {
        anomaly_sensitivity_permille: sensitivity_permille,
        baseline_capacity: 100,
        prediction_history_capacity: 1000,
        prediction_cache_ttl_millis: 300_000,
    }
}

#[test]
fn warmup_never_flags_before_tenth_point() {
    let mut detector = AnomalyDetector::new(sensitive_config(1000));
    for i in 0..9 {
        // Wildly varying values: still no detection during warm-up.
        let value = if i % 2 == 0 { 1_000 * UNIT } else { -900 * UNIT };
        let r = detector.check_anomaly("jitter", value, i);
        assert!(r.is_none());
    }
}

#[test]
fn detection_sequence_is_deterministic() {
    let mut d1 = AnomalyDetector::new(sensitive_config(500));
    let mut d2 = AnomalyDetector::new(sensitive_config(500));
    let values: Vec<i64> = (0..40)
        .map(|i| (95 + (i * 7) % 11) * UNIT)
        .chain([400 * UNIT].into_iter())
        .collect();
    for (i, v) in values.iter().enumerate() {
        let a = d1.check_anomaly("m", *v, i as i64);
        let b = d2.check_anomaly("m", *v, i as i64);
        match (a, b) {
            (None, None) => {},
            (Some(x), Some(y)) => {
                assert_eq!(x.deviation_micros, y.deviation_micros);
                assert_eq!(x.anomaly_type, y.anomaly_type);
                assert_eq!(x.severity, y.severity);
            },
            _ => panic!("detectors disagreed"),
        }
    }
}

#[test]
fn zscore_classification_spike_from_flat_baseline() {
    // Baseline [100] x 20, then 250, with threshold 3.0.
    let mut detector = AnomalyDetector::new(sensitive_config(0));
    for i in 0..20 {
        assert!(detector.check_anomaly("metric", 100 * UNIT, i).is_none());
    }
    let r = detector.check_anomaly("metric", 250 * UNIT, 20).expect("anomaly expected");
    // 250 > 1.5 x previous (100), so this is a spike.
    assert_eq!(r.anomaly_type, AnomalyType::Spike);
    // Mean over the 21 retained values, truncated.
    assert_eq!(r.expected_micros, 2_250_000_000 / 21);
    assert_eq!(r.value_micros, 250 * UNIT);
    // z is about 4.36: severity follows the z-score thresholds.
    assert!(r.deviation_micros > 4_000_000);
    assert!(r.deviation_micros <= 5_000_000);
    assert_eq!(r.severity, AnomalySeverity::High);
}

#[test]
fn higher_sensitivity_lowers_the_threshold() {
    // The same moderate outlier is flagged at sensitivity 1.0
    // (threshold 1.0) but not at sensitivity 0.0 (threshold 3.0).
    let mut strict = AnomalyDetector::new(sensitive_config(1000));
    let mut lax = AnomalyDetector::new(sensitive_config(0));
    for i in 0..20 {
        let v = (100 + (i % 2) * 10) * UNIT;
        strict.check_anomaly("m", v, i);
        lax.check_anomaly("m", v, i);
    }
    let outlier = 120 * UNIT;
    assert!(strict.check_anomaly("m", outlier, 20).is_some());
    assert!(lax.check_anomaly("m", outlier, 20).is_none());
}

#[test]
fn anomaly_log_is_queryable_newest_first() {
    let mut detector = AnomalyDetector::new(sensitive_config(0));
    for i in 0..20 {
        detector.check_anomaly("m", 100 * UNIT, i);
    }
    detector.check_anomaly("m", 400 * UNIT, 100).expect("first");
    for i in 0..20 {
        detector.check_anomaly("m", 100 * UNIT, 200 + i);
    }
    detector.check_anomaly("m", 900 * UNIT, 300).expect("second");

    let newest = detector.get_anomalies("m", 1);
    assert_eq!(newest.len(), 1);
    assert_eq!(newest[0].timestamp_millis, 300);

    let all = detector.get_all_anomalies(10);
    assert_eq!(all.len(), 2);
    assert!(all[0].timestamp_millis >= all[1].timestamp_millis);

    let stats = detector.get_stats();
    assert_eq!(stats.total_metrics, 1);
    assert_eq!(stats.total_anomalies, 2);
}

#[test]
fn reset_baseline_forces_fresh_warmup() {
    let mut detector = AnomalyDetector::new(sensitive_config(0));
    for i in 0..20 {
        detector.check_anomaly("m", 100 * UNIT, i);
    }
    detector.reset_baseline("m");
    // After the reset the window restarts: nine points flag nothing.
    for i in 0..9 {
        assert!(detector.check_anomaly("m", 10_000 * UNIT, 100 + i).is_none());
    }
}

#[test]
fn end_to_end_single_spike_in_oscillating_stream() {
    // Ten thousand telemetry samples oscillating 90..110 with one
    // injected value of 10_000 at index 5_000: exactly one anomaly,
    // classified as a spike.
    let mut detector = AnomalyDetector::new(sensitive_config(0));
    for i in 0..10_000i64 {
        let units: i64 = if i == 5_000 { 10_000 } else { 90 + (i % 21) };
        detector.check_anomaly("latency", units * UNIT, i);
    }
    let found = detector.get_anomalies("latency", 100);
    assert_eq!(found.len(), 1);
    assert_eq!(found[0].anomaly_type, AnomalyType::Spike);
    // z is about 9.9 against the ~100-valued window: Critical.
    assert_eq!(found[0].severity, AnomalySeverity::Critical);
    assert_eq!(found[0].timestamp_millis, 5_000);
}

#[test]
fn forecast_is_deterministic_and_cached() {
    let mut e1 = PredictionEngine::new(AnalyticsConfig::default());
    let mut e2 = PredictionEngine::new(AnalyticsConfig::default());
    for i in 0..12i64 {
        let v = (100 + i) * UNIT;
        e1.add_data_point("m", v, i * 60_000);
        e2.add_data_point("m", v, i * 60_000);
    }
    let a = e1.predict_arima_at("m", 5, 0).expect("forecast");
    let b = e2.predict_arima_at("m", 5, 0).expect("forecast");
    assert_eq!(a, b);

    // A second call within the TTL returns the cached points, even
    // for a different requested horizon (the cache is not keyed by
    // horizon).
    let c = e1.predict_arima_at("m", 2, 100).expect("cache hit");
    assert_eq!(c, a);

    // New data invalidates the cache; the fresh forecast honours the
    // new horizon.
    e1.add_data_point("m", 500 * UNIT, 12 * 60_000);
    let d = e1.predict_arima_at("m", 2, 200).expect("recomputed");
    assert_eq!(d.len(), 2);
}

#[test]
fn flat_history_forecasts_flat_with_exact_confidence_band() {
    let mut engine = PredictionEngine::new(AnalyticsConfig::default());
    for i in 0..12i64 {
        engine.add_data_point("flat", 100 * UNIT, i * 1000);
    }
    let pts = engine.predict_arima_at("flat", 4, 0).expect("forecast");
    assert_eq!(pts.len(), 4);
    // A constant history has zero slope and no seasonal swing.
    assert_eq!(pts[0].value_micros, 100 * UNIT as i128);
    // Confidence decays linearly from 950 permille: step 1 of 4
    // loses 50/4 = 12 (truncated).
    assert_eq!(pts[0].confidence_permille, 938);
    // Bounds widen with (1000 - confidence) tenths of a permille.
    assert_eq!(pts[0].lower_micros, 100 * UNIT as i128 * (10_000 - 62) / 10_000);
    assert_eq!(pts[0].upper_micros, 100 * UNIT as i128 * (10_000 + 62) / 10_000);
    // The horizon is timestamped in whole minutes past the last
    // sample.
    assert_eq!(pts[0].timestamp_millis, 11_000 + 60_000);
    assert_eq!(pts[3].confidence_permille, 900);
}

#[test]
fn trend_forecast_needs_ten_points() {
    let mut engine = PredictionEngine::new(AnalyticsConfig::default());
    for i in 0..9i64 {
        engine.add_data_point("m", 100 * UNIT, i);
    }
    assert_eq!(engine.predict_arima_at("m", 3, 0), Err(AnalyticsError::InsufficientData));
    assert_eq!(engine.predict_arima_at("nope", 3, 0), Err(AnalyticsError::UnknownMetric));
    engine.add_data_point("m", 100 * UNIT, 9);
    assert!(engine.predict_arima_at("m", 3, 0).is_ok());
}

#[test]
fn smoothing_succeeds_from_a_single_point() {
    let mut engine = PredictionEngine::new(AnalyticsConfig::default());
    engine.add_data_point("one", 42 * UNIT, 0);
    let pts = engine.predict_exponential_smoothing("one", 3, 300).expect("forecast");
    assert_eq!(pts.len(), 3);
    for pt in &pts {
        assert_eq!(pt.value_micros, 42 * UNIT as i128);
        assert_eq!(pt.lower_micros, 42 * UNIT as i128 * 9 / 10);
        assert_eq!(pt.upper_micros, 42 * UNIT as i128 * 11 / 10);
    }
    assert_eq!(
        engine.predict_exponential_smoothing("absent", 3, 300),
        Err(AnalyticsError::UnknownMetric)
    );
}

#[test]
fn smoothing_folds_the_history() {
    let mut engine = PredictionEngine::new(AnalyticsConfig::default());
    engine.add_data_point("m", 100 * UNIT, 0);
    engine.add_data_point("m", 200 * UNIT, 1);
    // level = (500 * 200M + 500 * 100M) / 1000 = 150M.
    let pts = engine.predict_exponential_smoothing("m", 1, 500).expect("forecast");
    assert_eq!(pts[0].value_micros, 150 * UNIT as i128);
}

#[test]
fn history_eviction_keeps_most_recent() {
    // Capacity five: after seven points the window holds the last
    // five, which alpha = 0 smoothing exposes as its first value.
    let config = AnalyticsConfig {
        anomaly_sensitivity_permille: 500,
        baseline_capacity: 100,
        prediction_history_capacity: 5,
        prediction_cache_ttl_millis: 300_000,
    };
    let mut engine = PredictionEngine::new(config);
    for i in 1..=7i64 {
        engine.add_data_point("m", i * UNIT, i);
    }
    let pts = engine.predict_exponential_smoothing("m", 1, 0).expect("forecast");
    assert_eq!(pts[0].value_micros, 3 * UNIT as i128);
}

#[test]
fn cleanup_drops_old_history() {
    let mut engine = PredictionEngine::new(AnalyticsConfig::default());
    // A sample at the epoch is far older than any retention horizon
    // measured from the real clock.
    engine.add_data_point("m", 100 * UNIT, 0);
    engine.cleanup_old_data(1);
    assert_eq!(
        engine.predict_exponential_smoothing("m", 1, 500),
        Err(AnalyticsError::InsufficientData)
    );
    let stats = engine.get_stats();
    assert_eq!(stats.total_time_series, 1);
}

#[test]
fn error_names_are_stable() {
    assert_eq!(AnalyticsError::UnknownMetric.name(), "unknown metric");
    assert_eq!(AnalyticsError::InsufficientData.name(), "insufficient data");
    assert_eq!(AnalyticsError::TransportFailure.name(), "transport failure");
    assert_eq!(AnalyticsError::CircuitOpen.name(), "circuit open");
    assert_eq!(AnalyticsError::DeserializationFailure.name(), "deserialization failure");
}

#[test]
fn classification_covers_high_low_and_drop() {
    // Above the mean but within one and a half times the previous
    // value: a high value, not a spike.
    let mut d = AnomalyDetector::new(sensitive_config(0));
    for i in 0..20 {
        d.check_anomaly("m", 100 * UNIT, i);
    }
    let high = d.check_anomaly("m", 130 * UNIT, 20).expect("flagged");
    assert_eq!(high.anomaly_type, AnomalyType::HighValue);

    // Below the mean and under half the previous value: a drop.
    let mut d2 = AnomalyDetector::new(sensitive_config(0));
    for i in 0..20 {
        d2.check_anomaly("m", 100 * UNIT, i);
    }
    let drop = d2.check_anomaly("m", 40 * UNIT, 20).expect("flagged");
    assert_eq!(drop.anomaly_type, AnomalyType::Drop);

    // Below the mean but at least half the previous value: a low
    // value.
    let mut d3 = AnomalyDetector::new(sensitive_config(0));
    for i in 0..20 {
        d3.check_anomaly("m", 100 * UNIT, i);
    }
    let low = d3.check_anomaly("m", 60 * UNIT, 20).expect("flagged");
    assert_eq!(low.anomaly_type, AnomalyType::LowValue);
}

#[test]
fn smoothing_with_full_alpha_tracks_the_last_value() {
    let mut engine = PredictionEngine::new(AnalyticsConfig::default());
    engine.add_data_point("m", 10 * UNIT, 0);
    engine.add_data_point("m", 70 * UNIT, 1);
    engine.add_data_point("m", 20 * UNIT, 2);
    let pts = engine.predict_exponential_smoothing("m", 2, 1000).expect("forecast");
    assert_eq!(pts[0].value_micros, 20 * UNIT as i128);
    assert_eq!(pts[1].value_micros, 20 * UNIT as i128);
}

#[test]
fn stats_count_cached_forecast_points() {
    let mut engine = PredictionEngine::new(AnalyticsConfig::default());
    for i in 0..12i64 {
        engine.add_data_point("m", 100 * UNIT, i);
    }
    assert_eq!(engine.get_stats().total_prediction_points, 0);
    engine.predict_arima_at("m", 5, 0).expect("forecast");
    let stats = engine.get_stats();
    assert_eq!(stats.total_prediction_points, 5);
    assert_eq!(stats.total_cached_predictions, 1);
}

#[test]
fn forecast_cache_expires_after_its_ttl() {
    let mut engine = PredictionEngine::new(AnalyticsConfig::default());
    for i in 0..12i64 {
        engine.add_data_point("m", 100 * UNIT, i);
    }
    let first = engine.predict_arima_at("m", 5, 0).expect("forecast");
    assert_eq!(first.len(), 5);
    // Still inside the five-minute TTL: the cached horizon answers.
    let hit = engine.predict_arima_at("m", 2, 299_999).expect("cache hit");
    assert_eq!(hit.len(), 5);
    // Past the TTL the forecast is recomputed at the asked horizon.
    let fresh = engine.predict_arima_at("m", 2, 300_001).expect("recomputed");
    assert_eq!(fresh.len(), 2);
}

#[test]
fn aggregation_engine_wires_all_three_components() {
    let mut engine = AggregationEngine::new(sensitive_config(0));
    for i in 0..10_000i64 {
        let units: i64 = if i == 5_000 { 10_000 } else { 90 + (i % 21) };
        let event = AnalyticsEvent {
            common: CommonEventFields {
                event_id: i as u128 + 1,
                timestamp_millis: i,
                source_module: SourceModule::LlmObservatory,
                event_type: EventType::Telemetry,
                correlation_id: Some(7),
                parent_event_id: None,
                schema_version: default_schema_version(),
                severity: Severity::Info,
                environment: "test".to_string(),
                tags: Vec::new(),
            },
            payload: EventPayload::Telemetry(TelemetryPayload::Latency(LatencyMetrics {
                model_id: "m".to_string(),
                request_id: "r".to_string(),
                total_latency_micros: units * UNIT,
                ttft_micros: None,
                tokens_per_second_micros: None,
                breakdown: None,
            })),
        };
        engine.process_event(event);
    }
    // End to end: exactly one spike detection reaches the log, with
    // the severity the z-score thresholds dictate.
    let found = engine.detector.get_anomalies("latency", 100);
    assert_eq!(found.len(), 1);
    assert_eq!(found[0].anomaly_type, AnomalyType::Spike);
    assert_eq!(found[0].severity, AnomalySeverity::Critical);
    // The same stream filled the forecast history.
    assert!(engine.predictor.predict_arima_at("latency", 3, 0).is_ok());
    // And the correlator retained every event under the shared id.
    assert_eq!(engine.correlator.get_correlated_events(7).len(), 10_000);
}
