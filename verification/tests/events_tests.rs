use llm_analytics_hub::events::{
    AnalyticsEvent, AuthAction, AuthEvent, CommonEventFields, EventPayload, EventType,
    PrivacyEvent, PrivacyOperation, SecurityPayload, Severity, SourceModule, TelemetryPayload,
    ThreatLevel, TokenUsageMetrics, SCHEMA_VERSION,
};
use llm_analytics_hub::events::default_schema_version;

fn common(
    event_id: u128,
    timestamp_millis: i64,
    source_module: SourceModule,
    event_type: EventType,
    severity: Severity,
) -> CommonEventFields {
    CommonEventFields {
        event_id,
        timestamp_millis,
        source_module,
        event_type,
        correlation_id: None,
        parent_event_id: None,
        schema_version: default_schema_version(),
        severity,
        environment: "test".to_string(),
        tags: Vec::new(),
    }
}

#[test]
fn test_severity_ordering() {
    assert!(Severity::Critical > Severity::Error);
    assert!(Severity::Error > Severity::Warning);
    assert!(Severity::Warning > Severity::Info);
    assert!(Severity::Info > Severity::Debug);
}

#[test]
fn test_threat_level_ordering() {
    assert!(ThreatLevel::Critical > ThreatLevel::High);
    assert!(ThreatLevel::High > ThreatLevel::Medium);
    assert!(ThreatLevel::Medium > ThreatLevel::Low);
}

#[test]
fn test_auth_event() {
    let auth = AuthEvent {
        user_id: "user-123".to_string(),
        action: AuthAction::Login,
        resource: "/api/models".to_string(),
        success: true,
        failure_reason: None,
    };

    assert!(auth.success);
    assert!(auth.failure_reason.is_none());
}

#[test]
fn test_common_event_fields_default_values() {
    let common = CommonEventFields {
        event_id: 7,
        timestamp_millis: 1_700_000_000_000,
        source_module: SourceModule::LlmAnalyticsHub,
        event_type: EventType::Telemetry,
        correlation_id: None,
        parent_event_id: None,
        schema_version: SCHEMA_VERSION.to_string(),
        severity: Severity::Info,
        environment: "test".to_string(),
        tags: Vec::new(),
    };

    assert_eq!(common.schema_version, "1.0.0");
    assert!(common.correlation_id.is_none());
    assert!(common.parent_event_id.is_none());
    assert!(common.tags.is_empty());
}

#[test]
fn test_token_usage_metrics() {
    let metrics = TokenUsageMetrics {
        model_id: "gpt-4".to_string(),
        request_id: "req-456".to_string(),
        prompt_tokens: 100,
        completion_tokens: 200,
        total_tokens: 300,
    };

    assert_eq!(metrics.total_tokens, metrics.prompt_tokens + metrics.completion_tokens);
}

#[test]
fn test_privacy_event() {
    let privacy = PrivacyEvent {
        data_type: "pii".to_string(),
        operation: PrivacyOperation::DataAccess,
        user_consent: true,
        data_subjects: vec!["user-1".to_string(), "user-2".to_string()],
        purpose: "analytics".to_string(),
    };

    assert_eq!(privacy.data_subjects.len(), 2);
    assert!(privacy.user_consent);
}

#[test]
fn test_default_schema_version_matches_constant() {
    assert_eq!(default_schema_version(), SCHEMA_VERSION);
    assert_eq!(default_schema_version(), "1.0.0");
}

#[test]
fn test_event_clone_keeps_envelope() {
    let event = AnalyticsEvent {
        common: common(42, 1000, SourceModule::LlmSentinel, EventType::Security, Severity::Error),
        payload: EventPayload::Security(SecurityPayload::Auth(AuthEvent {
            user_id: "user-9".to_string(),
            action: AuthAction::PermissionDenied,
            resource: "/api/admin".to_string(),
            success: false,
            failure_reason: Some("denied".to_string()),
        })),
    };
    let copy = event.clone();
    assert_eq!(copy.common.event_id, 42);
    assert_eq!(copy.common.timestamp_millis, 1000);
    assert_eq!(copy.common.severity, Severity::Error);
}

#[test]
fn test_telemetry_payload_holds_usage() {
    let event = AnalyticsEvent {
        common: common(1, 0, SourceModule::LlmObservatory, EventType::Telemetry, Severity::Info),
        payload: EventPayload::Telemetry(TelemetryPayload::TokenUsage(TokenUsageMetrics {
            model_id: "gpt-4".to_string(),
            request_id: "req-123".to_string(),
            prompt_tokens: 10,
            completion_tokens: 20,
            total_tokens: 30,
        })),
    };
    match &event.payload {
        EventPayload::Telemetry(TelemetryPayload::TokenUsage(u)) => {
            assert_eq!(u.total_tokens, 30);
        },
        _ => panic!("wrong payload variant"),
    }
}
