use llm_analytics_hub::adapters::{
    AdapterHealth, AdapterManager, CostOpsConfig, MemoryGraphConfig, ObservatoryConfig,
    RegistryConfig,
};
use llm_analytics_hub::config::ConfigManagerConfig;
use llm_analytics_hub::events::{
    AnalyticsEvent, CommonEventFields, CustomPayload, EventPayload, EventType, Severity,
    SourceModule,
};
use llm_analytics_hub::events::default_schema_version;
use llm_analytics_hub::pipeline::EventBatcher;

fn sample_event(id: u128) -> AnalyticsEvent {
    AnalyticsEvent {
        common: CommonEventFields {
            event_id: id,
            timestamp_millis: id as i64,
            source_module: SourceModule::LlmObservatory,
            event_type: EventType::Telemetry,
            correlation_id: None,
            parent_event_id: None,
            schema_version: default_schema_version(),
            severity: Severity::Info,
            environment: "test".to_string(),
            tags: Vec::new(),
        },
        payload: EventPayload::Custom(CustomPayload {
            custom_type: "test".to_string(),
            data: "{}".to_string(),
        }),
    }
}

#[test]
fn batcher_flushes_at_threshold_in_arrival_order() {
    let mut batcher = EventBatcher::new(3);
    assert!(batcher.push(sample_event(1)).is_none());
    assert!(batcher.push(sample_event(2)).is_none());
    let batch = batcher.push(sample_event(3)).expect("full batch");
    assert_eq!(batch.len(), 3);
    assert_eq!(batch[0].common.event_id, 1);
    assert_eq!(batch[1].common.event_id, 2);
    assert_eq!(batch[2].common.event_id, 3);

    let stats = batcher.get_stats();
    assert_eq!(stats.events_received, 3);
    assert_eq!(stats.events_processed, 3);
    assert_eq!(stats.events_failed, 0);
}

#[test]
fn batcher_flush_drains_the_remainder() {
    let mut batcher = EventBatcher::new(10);
    batcher.push(sample_event(1));
    batcher.push(sample_event(2));
    let rest = batcher.flush();
    assert_eq!(rest.len(), 2);
    assert_eq!(batcher.flush().len(), 0);
    assert_eq!(batcher.get_stats().events_processed, 2);
}

#[test]
fn malformed_messages_are_counted_and_dropped() {
    let mut batcher = EventBatcher::new(2);
    batcher.record_malformed();
    batcher.record_malformed();
    assert!(batcher.push(sample_event(1)).is_none());
    let stats = batcher.get_stats();
    assert_eq!(stats.events_failed, 2);
    assert_eq!(stats.events_received, 1);
}

#[test]
fn adapter_manager_wires_all_five_adapters() {
    let manager = AdapterManager::new(
        ObservatoryConfig {
            endpoint: "http://localhost:8081".to_string(),
            api_key: None,
            timeout_secs: 30,
            batch_size: 100,
        },
        CostOpsConfig {
            endpoint: "http://localhost:8082".to_string(),
            api_key: None,
            timeout_secs: 30,
        },
        MemoryGraphConfig {
            endpoint: "http://localhost:8083".to_string(),
            api_key: None,
            timeout_secs: 30,
        },
        RegistryConfig {
            endpoint: "http://localhost:8084".to_string(),
            api_key: None,
            timeout_secs: 30,
        },
        ConfigManagerConfig {
            endpoint: "http://localhost:8085".to_string(),
            api_key: None,
            timeout_secs: 30,
            cache_ttl_secs: 300,
        },
    );
    assert!(!manager.observatory.connected);
    assert!(!manager.costops.connected);
    assert!(!manager.memory_graph.connected);
    assert!(!manager.registry.connected);
    assert!(!manager.config_manager.connected);
    assert_eq!(manager.registry.config.endpoint, "http://localhost:8084");
}

#[test]
fn adapter_health_reports() {
    let healthy = AdapterHealth::healthy("observatory", 12);
    assert!(healthy.is_healthy);
    assert_eq!(healthy.latency_ms, Some(12));
    assert!(healthy.last_successful_fetch_millis.is_some());
    assert!(healthy.error_message.is_none());

    let unhealthy = AdapterHealth::unhealthy("costops", "connection refused");
    assert!(!unhealthy.is_healthy);
    assert_eq!(unhealthy.error_message.as_deref(), Some("connection refused"));
    assert!(unhealthy.latency_ms.is_none());
}
