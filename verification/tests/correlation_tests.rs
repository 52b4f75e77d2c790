use llm_analytics_hub::analytics_config::AnalyticsConfig;
use llm_analytics_hub::correlation::{CorrelationEngine, CorrelationType};
use llm_analytics_hub::events::{
    AnalyticsEvent, CommonEventFields, CustomPayload, EventPayload, EventType, Severity,
    SourceModule,
};
use llm_analytics_hub::events::default_schema_version;

fn event(
    id: u128,
    ts: i64,
    module: SourceModule,
    correlation_id: Option<u128>,
    parent: Option<u128>,
) -> AnalyticsEvent {
    AnalyticsEvent {
        common: CommonEventFields {
            event_id: id,
            timestamp_millis: ts,
            source_module: module,
            event_type: EventType::Telemetry,
            correlation_id,
            parent_event_id: parent,
            schema_version: default_schema_version(),
            severity: Severity::Info,
            environment: "test".to_string(),
            tags: Vec::new(),
        },
        payload: EventPayload::Custom(CustomPayload {
            custom_type: "test".to_string(),
            data: "{}".to_string(),
        }),
    }
}

#[test]
fn correlation_round_trip_returns_all_members() {
    let mut engine = CorrelationEngine::new(AnalyticsConfig::default());
    let cid: u128 = 777;
    let ids: Vec<u128> = vec![1, 2, 3, 4];
    for (i, id) in ids.iter().enumerate() {
        engine.add_event(event(*id, i as i64 * 1000, SourceModule::LlmObservatory, Some(cid), None));
    }
    let got = engine.get_correlated_events(cid);
    assert_eq!(got.len(), 4);
    let mut got_ids: Vec<u128> = got.iter().map(|e| e.common.event_id).collect();
    got_ids.sort();
    assert_eq!(got_ids, ids);
    // The bodies come back whole: envelope strings, tags and payload.
    for e in &got {
        assert_eq!(e.common.environment, "test");
        assert_eq!(e.common.schema_version, "1.0.0");
        assert!(e.common.tags.is_empty());
        match &e.payload {
            EventPayload::Custom(c) => {
                assert_eq!(c.custom_type, "test");
                assert_eq!(c.data, "{}");
            },
            _ => panic!("wrong payload variant"),
        }
    }
}

#[test]
fn replacing_an_event_does_not_duplicate_membership() {
    let mut engine = CorrelationEngine::new(AnalyticsConfig::default());
    let cid: u128 = 9;
    engine.add_event(event(1, 0, SourceModule::LlmObservatory, Some(cid), None));
    engine.add_event(event(1, 5, SourceModule::LlmObservatory, Some(cid), None));
    let got = engine.get_correlated_events(cid);
    assert_eq!(got.len(), 1);
    assert_eq!(got[0].common.timestamp_millis, 5);
}

#[test]
fn graph_chain_has_three_nodes_and_two_causal_edges() {
    // A -> B -> C by parent references.
    let mut engine = CorrelationEngine::new(AnalyticsConfig::default());
    let cid: u128 = 5;
    engine.add_event(event(10, 0, SourceModule::LlmObservatory, Some(cid), None));
    engine.add_event(event(11, 1000, SourceModule::LlmSentinel, Some(cid), Some(10)));
    engine.add_event(event(12, 2000, SourceModule::LlmCostOps, Some(cid), Some(11)));

    let graph = engine.build_correlation_graph_at(cid, 0).expect("graph");
    assert_eq!(graph.correlation_id.id, cid);
    assert_eq!(graph.nodes.len(), 3);
    assert_eq!(graph.edges.len(), 2);
    assert_eq!(graph.edges[0].from_event_id, 10);
    assert_eq!(graph.edges[0].to_event_id, 11);
    assert_eq!(graph.edges[1].from_event_id, 11);
    assert_eq!(graph.edges[1].to_event_id, 12);
    for edge in &graph.edges {
        assert_eq!(edge.correlation_type, CorrelationType::Causal);
        assert_eq!(edge.confidence_permille, 1000);
        assert!(edge.latency_ms.is_none());
    }
}

#[test]
fn dangling_parent_produces_node_without_inbound_edge() {
    let mut engine = CorrelationEngine::new(AnalyticsConfig::default());
    let cid: u128 = 6;
    engine.add_event(event(20, 0, SourceModule::LlmObservatory, Some(cid), None));
    // Parent 999 was never retained: a node, but no edge.
    engine.add_event(event(21, 1000, SourceModule::LlmSentinel, Some(cid), Some(999)));

    let graph = engine.build_correlation_graph_at(cid, 0).expect("graph");
    assert_eq!(graph.nodes.len(), 2);
    assert_eq!(graph.edges.len(), 0);
    assert!(engine.build_correlation_graph_at(12345, 0).is_none());
}

#[test]
fn module_correlation_counts_and_confidence() {
    let mut engine = CorrelationEngine::new(AnalyticsConfig::default());
    engine.add_event(event(1, 0, SourceModule::LlmObservatory, None, None));
    // Added second, 60 seconds later: one co-occurrence recorded
    // under (Sentinel, Observatory).
    engine.add_event(event(2, 60_000, SourceModule::LlmSentinel, None, None));

    let analysis = engine
        .analyze_module_correlation(SourceModule::LlmSentinel, SourceModule::LlmObservatory)
        .expect("pattern");
    assert_eq!(analysis.correlation_count, 1);
    assert_eq!(analysis.avg_time_diff_seconds, 60);
    // min(1/100, 1) * 0.9 + 0.1 = 0.109.
    assert_eq!(analysis.confidence_permille, 109);

    // The ordered pair in the other direction saw no insertion-time
    // co-occurrence.
    assert!(engine
        .analyze_module_correlation(SourceModule::LlmObservatory, SourceModule::LlmSentinel)
        .is_none());
}

#[test]
fn events_outside_the_window_are_not_linked() {
    let mut engine = CorrelationEngine::new(AnalyticsConfig::default());
    engine.add_event(event(1, 0, SourceModule::LlmObservatory, None, None));
    // Six minutes later: outside the five-minute window.
    engine.add_event(event(2, 360_000, SourceModule::LlmSentinel, None, None));
    assert!(engine
        .analyze_module_correlation(SourceModule::LlmSentinel, SourceModule::LlmObservatory)
        .is_none());
}

#[test]
fn cleanup_evicts_bodies_but_keeps_membership() {
    let mut engine = CorrelationEngine::new(AnalyticsConfig::default());
    let cid: u128 = 3;
    engine.add_event(event(1, 100, SourceModule::LlmObservatory, Some(cid), None));
    engine.add_event(event(2, 900, SourceModule::LlmObservatory, Some(cid), None));

    let removed = engine.cleanup_events_before(500);
    assert_eq!(removed, 1);
    // Membership outlives the body: only the retained event returns.
    let got = engine.get_correlated_events(cid);
    assert_eq!(got.len(), 1);
    assert_eq!(got[0].common.event_id, 2);

    let stats = engine.get_stats();
    assert_eq!(stats.total_events, 1);
    assert_eq!(stats.total_correlations, 1);
}

#[test]
fn cleanup_by_retention_hours_uses_the_clock() {
    let mut engine = CorrelationEngine::new(AnalyticsConfig::default());
    // An event at the epoch is older than any retention horizon
    // measured from the real clock.
    engine.add_event(event(1, 0, SourceModule::LlmObservatory, None, None));
    let removed = engine.cleanup_old_events(1);
    assert_eq!(removed, 1);
    assert_eq!(engine.get_stats().total_events, 0);
}

#[test]
fn stats_count_patterns() {
    let mut engine = CorrelationEngine::new(AnalyticsConfig::default());
    engine.add_event(event(1, 0, SourceModule::LlmObservatory, None, None));
    engine.add_event(event(2, 1000, SourceModule::LlmSentinel, None, None));
    engine.add_event(event(3, 2000, SourceModule::LlmCostOps, None, None));
    // Patterns: (Sentinel, Observatory), (CostOps, Observatory),
    // (CostOps, Sentinel).
    assert_eq!(engine.get_stats().total_patterns, 3);
}
