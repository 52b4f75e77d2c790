use vstd::prelude::*;

verus! {

/// Schema version of the event wire contract.
pub const SCHEMA_VERSION: &'static str = "1.0.0";

/// The version string newly built events carry.
pub fn default_schema_version() -> (r: String)
    ensures
        r@ == SCHEMA_VERSION@,
{
    SCHEMA_VERSION.to_owned()
}

/// Source modules of the ecosystem.
#[derive(Clone, Copy, Debug, Hash, PartialEq, Eq, Structural)]
pub enum SourceModule {
    LlmObservatory,
    LlmSentinel,
    LlmCostOps,
    LlmGovernanceDashboard,
    LlmRegistry,
    LlmPolicyEngine,
    LlmAnalyticsHub,
}

/// High-level event classification.
#[derive(Clone, Copy, Debug, PartialEq, Eq, Structural)]
pub enum EventType {
    Telemetry,
    Security,
    Cost,
    Governance,
    Lifecycle,
    Audit,
    Alert,
}

/// Event severity, totally ordered from `Debug` up to `Critical`.
#[derive(Clone, Copy, Debug, PartialEq, Eq, PartialOrd, Ord, Structural)]
pub enum Severity {
    Debug,
    Info,
    Warning,
    Error,
    Critical,
}

// ---------------------------------------------------------------
// Exact duplication helpers. A cloned `String` is equal to its
// original as a value, so element-by-element copies of these vectors
// reproduce the original sequence exactly.
// ---------------------------------------------------------------
fn clone_strings(v: &Vec<String>) -> (r: Vec<String>)
    ensures
        r@ == v@,
{
    let mut r: Vec<String> = Vec::new();
    let n = v.len();
    let mut i: usize = 0;
    while i < n
        invariant
            n == v@.len(),
            0 <= i <= n,
            r@ == v@.take(i as int),
        decreases n - i,
    {
        r.push(v[i].clone());
        proof {
            assert(v@.take(i + 1 as int) =~= v@.take(i as int).push(v@[i as int]));
        }
        i = i + 1;
    }
    proof {
        assert(v@.take(n as int) =~= v@);
    }
    r
}

fn clone_string_pairs(v: &Vec<(String, String)>) -> (r: Vec<(String, String)>)
    ensures
        r@ == v@,
{
    let mut r: Vec<(String, String)> = Vec::new();
    let n = v.len();
    let mut i: usize = 0;
    while i < n
        invariant
            n == v@.len(),
            0 <= i <= n,
            r@ == v@.take(i as int),
        decreases n - i,
    {
        let entry = &v[i];
        r.push((entry.0.clone(), entry.1.clone()));
        proof {
            assert(v@.take(i + 1 as int) =~= v@.take(i as int).push(v@[i as int]));
        }
        i = i + 1;
    }
    proof {
        assert(v@.take(n as int) =~= v@);
    }
    r
}

fn clone_u64_pairs(v: &Vec<(String, u64)>) -> (r: Vec<(String, u64)>)
    ensures
        r@ == v@,
{
    let mut r: Vec<(String, u64)> = Vec::new();
    let n = v.len();
    let mut i: usize = 0;
    while i < n
        invariant
            n == v@.len(),
            0 <= i <= n,
            r@ == v@.take(i as int),
        decreases n - i,
    {
        let entry = &v[i];
        r.push((entry.0.clone(), entry.1));
        proof {
            assert(v@.take(i + 1 as int) =~= v@.take(i as int).push(v@[i as int]));
        }
        i = i + 1;
    }
    proof {
        assert(v@.take(n as int) =~= v@);
    }
    r
}

fn clone_i64_pairs(v: &Vec<(String, i64)>) -> (r: Vec<(String, i64)>)
    ensures
        r@ == v@,
{
    let mut r: Vec<(String, i64)> = Vec::new();
    let n = v.len();
    let mut i: usize = 0;
    while i < n
        invariant
            n == v@.len(),
            0 <= i <= n,
            r@ == v@.take(i as int),
        decreases n - i,
    {
        let entry = &v[i];
        r.push((entry.0.clone(), entry.1));
        proof {
            assert(v@.take(i + 1 as int) =~= v@.take(i as int).push(v@[i as int]));
        }
        i = i + 1;
    }
    proof {
        assert(v@.take(n as int) =~= v@);
    }
    r
}

fn clone_opt_string(v: &Option<String>) -> (r: Option<String>)
    ensures
        r == *v,
{
    match v {
        Some(s) => Some(s.clone()),
        None => None,
    }
}

/// Common envelope of every analytics event. Identifiers are carried
/// as 128-bit integers (the raw bits of the wire-format UUIDs),
/// timestamps as milliseconds since the Unix epoch.
#[derive(Debug)]
pub struct CommonEventFields {
    pub event_id: u128,
    pub timestamp_millis: i64,
    pub source_module: SourceModule,
    pub event_type: EventType,
    pub correlation_id: Option<u128>,
    pub parent_event_id: Option<u128>,
    pub schema_version: String,
    pub severity: Severity,
    pub environment: String,
    pub tags: Vec<(String, String)>,
}

/// Two envelopes carry the same content: every field equal, the tag
/// list compared as its sequence of pairs.
pub open spec fn common_matches(a: CommonEventFields, b: CommonEventFields) -> bool {
    &&& a.event_id == b.event_id
    &&& a.timestamp_millis == b.timestamp_millis
    &&& a.source_module == b.source_module
    &&& a.event_type == b.event_type
    &&& a.correlation_id == b.correlation_id
    &&& a.parent_event_id == b.parent_event_id
    &&& a.schema_version == b.schema_version
    &&& a.severity == b.severity
    &&& a.environment == b.environment
    &&& a.tags@ == b.tags@
}

impl Clone for CommonEventFields {
    fn clone(&self) -> (res: Self)
        ensures
            common_matches(res, *self),
    {
        CommonEventFields {
            event_id: self.event_id,
            timestamp_millis: self.timestamp_millis,
            source_module: self.source_module,
            event_type: self.event_type,
            correlation_id: self.correlation_id,
            parent_event_id: self.parent_event_id,
            schema_version: self.schema_version.clone(),
            severity: self.severity,
            environment: self.environment.clone(),
            tags: clone_string_pairs(&self.tags),
        }
    }
}

/// The unified analytics event: common envelope plus module-specific
/// payload.
#[derive(Debug)]
pub struct AnalyticsEvent {
    pub common: CommonEventFields,
    pub payload: EventPayload,
}

/// Two events carry the same content: matching envelopes and
/// matching payloads, down to every field (vectors compared as their
/// sequences).
pub open spec fn event_matches(a: AnalyticsEvent, b: AnalyticsEvent) -> bool {
    &&& common_matches(a.common, b.common)
    &&& payload_matches(a.payload, b.payload)
}

impl Clone for AnalyticsEvent {
    fn clone(&self) -> (res: Self)
        ensures
            event_matches(res, *self),
    {
        AnalyticsEvent { common: self.common.clone(), payload: self.payload.clone() }
    }
}

/// Module-specific payloads, one arm per producing subsystem.
#[derive(Debug)]
pub enum EventPayload {
    Telemetry(TelemetryPayload),
    Security(SecurityPayload),
    Cost(CostPayload),
    Governance(GovernancePayload),
    Custom(CustomPayload),
}

/// Same payload arm, same content.
pub open spec fn payload_matches(a: EventPayload, b: EventPayload) -> bool {
    match (a, b) {
        (EventPayload::Telemetry(x), EventPayload::Telemetry(y)) => telemetry_matches(x, y),
        (EventPayload::Security(x), EventPayload::Security(y)) => security_matches(x, y),
        (EventPayload::Cost(x), EventPayload::Cost(y)) => x == y,
        (EventPayload::Governance(x), EventPayload::Governance(y)) => governance_matches(x, y),
        (EventPayload::Custom(x), EventPayload::Custom(y)) => x == y,
        _ => false,
    }
}

impl Clone for EventPayload {
    fn clone(&self) -> (res: Self)
        ensures
            payload_matches(res, *self),
    {
        match self {
            EventPayload::Telemetry(x) => EventPayload::Telemetry(x.clone()),
            EventPayload::Security(x) => EventPayload::Security(x.clone()),
            EventPayload::Cost(x) => EventPayload::Cost(x.clone()),
            EventPayload::Governance(x) => EventPayload::Governance(x.clone()),
            EventPayload::Custom(x) => EventPayload::Custom(x.clone()),
        }
    }
}

// ---------------------------------------------------------------
// Telemetry payloads. Measures that the wire format carries as
// fractional numbers are fixed-point micro-units here: a field named
// `..._micros` holds a millionth of the original measure's unit.
// ---------------------------------------------------------------
#[derive(Debug)]
pub enum TelemetryPayload {
    Latency(LatencyMetrics),
    Throughput(ThroughputMetrics),
    ErrorRate(ErrorRateMetrics),
    TokenUsage(TokenUsageMetrics),
    ModelPerformance(ModelPerformanceMetrics),
}

pub open spec fn telemetry_matches(a: TelemetryPayload, b: TelemetryPayload) -> bool {
    match (a, b) {
        (TelemetryPayload::Latency(x), TelemetryPayload::Latency(y)) => x == y,
        (TelemetryPayload::Throughput(x), TelemetryPayload::Throughput(y)) => x == y,
        (TelemetryPayload::ErrorRate(x), TelemetryPayload::ErrorRate(y)) => error_rate_matches(
            x,
            y,
        ),
        (TelemetryPayload::TokenUsage(x), TelemetryPayload::TokenUsage(y)) => x == y,
        (TelemetryPayload::ModelPerformance(x), TelemetryPayload::ModelPerformance(y)) => {
            model_performance_matches(x, y)
        },
        _ => false,
    }
}

impl Clone for TelemetryPayload {
    fn clone(&self) -> (res: Self)
        ensures
            telemetry_matches(res, *self),
    {
        match self {
            TelemetryPayload::Latency(x) => TelemetryPayload::Latency(x.clone()),
            TelemetryPayload::Throughput(x) => TelemetryPayload::Throughput(x.clone()),
            TelemetryPayload::ErrorRate(x) => TelemetryPayload::ErrorRate(x.clone()),
            TelemetryPayload::TokenUsage(x) => TelemetryPayload::TokenUsage(x.clone()),
            TelemetryPayload::ModelPerformance(x) => TelemetryPayload::ModelPerformance(
                x.clone(),
            ),
        }
    }
}

#[derive(Debug)]
pub struct LatencyMetrics {
    pub model_id: String,
    pub request_id: String,
    /// Total latency, in micro-milliseconds.
    pub total_latency_micros: i64,
    /// Time to first token, in micro-milliseconds.
    pub ttft_micros: Option<i64>,
    pub tokens_per_second_micros: Option<i64>,
    pub breakdown: Option<LatencyBreakdown>,
}

impl Clone for LatencyMetrics {
    fn clone(&self) -> (res: Self)
        ensures
            res == *self,
    {
        LatencyMetrics {
            model_id: self.model_id.clone(),
            request_id: self.request_id.clone(),
            total_latency_micros: self.total_latency_micros,
            ttft_micros: self.ttft_micros,
            tokens_per_second_micros: self.tokens_per_second_micros,
            breakdown: self.breakdown,
        }
    }
}

#[derive(Clone, Copy, Debug, PartialEq, Eq, Structural)]
pub struct LatencyBreakdown {
    pub queue_time_micros: i64,
    pub processing_time_micros: i64,
    pub network_time_micros: i64,
    pub other_micros: i64,
}

#[derive(Debug)]
pub struct ThroughputMetrics {
    pub model_id: String,
    pub requests_per_second_micros: i64,
    pub tokens_per_second_micros: i64,
    pub concurrent_requests: u32,
    pub window_duration_seconds: u32,
}

impl Clone for ThroughputMetrics {
    fn clone(&self) -> (res: Self)
        ensures
            res == *self,
    {
        ThroughputMetrics {
            model_id: self.model_id.clone(),
            requests_per_second_micros: self.requests_per_second_micros,
            tokens_per_second_micros: self.tokens_per_second_micros,
            concurrent_requests: self.concurrent_requests,
            window_duration_seconds: self.window_duration_seconds,
        }
    }
}

#[derive(Debug)]
pub struct ErrorRateMetrics {
    pub model_id: String,
    pub total_requests: u64,
    pub failed_requests: u64,
    /// Error rate, in micro-percent.
    pub error_rate_micros: i64,
    pub error_breakdown: Vec<(String, u64)>,
    pub window_duration_seconds: u32,
}

pub open spec fn error_rate_matches(a: ErrorRateMetrics, b: ErrorRateMetrics) -> bool {
    &&& a.model_id == b.model_id
    &&& a.total_requests == b.total_requests
    &&& a.failed_requests == b.failed_requests
    &&& a.error_rate_micros == b.error_rate_micros
    &&& a.error_breakdown@ == b.error_breakdown@
    &&& a.window_duration_seconds == b.window_duration_seconds
}

impl Clone for ErrorRateMetrics {
    fn clone(&self) -> (res: Self)
        ensures
            error_rate_matches(res, *self),
    {
        ErrorRateMetrics {
            model_id: self.model_id.clone(),
            total_requests: self.total_requests,
            failed_requests: self.failed_requests,
            error_rate_micros: self.error_rate_micros,
            error_breakdown: clone_u64_pairs(&self.error_breakdown),
            window_duration_seconds: self.window_duration_seconds,
        }
    }
}

#[derive(Debug)]
pub struct TokenUsageMetrics {
    pub model_id: String,
    pub request_id: String,
    pub prompt_tokens: u32,
    pub completion_tokens: u32,
    pub total_tokens: u32,
}

impl Clone for TokenUsageMetrics {
    fn clone(&self) -> (res: Self)
        ensures
            res == *self,
    {
        TokenUsageMetrics {
            model_id: self.model_id.clone(),
            request_id: self.request_id.clone(),
            prompt_tokens: self.prompt_tokens,
            completion_tokens: self.completion_tokens,
            total_tokens: self.total_tokens,
        }
    }
}

#[derive(Debug)]
pub struct ModelPerformanceMetrics {
    pub model_id: String,
    pub accuracy_micros: Option<i64>,
    pub quality_score_micros: Option<i64>,
    pub user_satisfaction_micros: Option<i64>,
    pub custom_metrics: Vec<(String, i64)>,
}

pub open spec fn model_performance_matches(
    a: ModelPerformanceMetrics,
    b: ModelPerformanceMetrics,
) -> bool {
    &&& a.model_id == b.model_id
    &&& a.accuracy_micros == b.accuracy_micros
    &&& a.quality_score_micros == b.quality_score_micros
    &&& a.user_satisfaction_micros == b.user_satisfaction_micros
    &&& a.custom_metrics@ == b.custom_metrics@
}

impl Clone for ModelPerformanceMetrics {
    fn clone(&self) -> (res: Self)
        ensures
            model_performance_matches(res, *self),
    {
        ModelPerformanceMetrics {
            model_id: self.model_id.clone(),
            accuracy_micros: self.accuracy_micros,
            quality_score_micros: self.quality_score_micros,
            user_satisfaction_micros: self.user_satisfaction_micros,
            custom_metrics: clone_i64_pairs(&self.custom_metrics),
        }
    }
}

// ---------------------------------------------------------------
// Security payloads.
// ---------------------------------------------------------------
#[derive(Debug)]
pub enum SecurityPayload {
    Threat(ThreatEvent),
    Vulnerability(VulnerabilityEvent),
    ComplianceViolation(ComplianceViolationEvent),
    Auth(AuthEvent),
    Privacy(PrivacyEvent),
}

pub open spec fn security_matches(a: SecurityPayload, b: SecurityPayload) -> bool {
    match (a, b) {
        (SecurityPayload::Threat(x), SecurityPayload::Threat(y)) => threat_matches(x, y),
        (SecurityPayload::Vulnerability(x), SecurityPayload::Vulnerability(y)) => x == y,
        (SecurityPayload::ComplianceViolation(x), SecurityPayload::ComplianceViolation(y)) => {
            compliance_violation_matches(x, y)
        },
        (SecurityPayload::Auth(x), SecurityPayload::Auth(y)) => x == y,
        (SecurityPayload::Privacy(x), SecurityPayload::Privacy(y)) => privacy_matches(x, y),
        _ => false,
    }
}

impl Clone for SecurityPayload {
    fn clone(&self) -> (res: Self)
        ensures
            security_matches(res, *self),
    {
        match self {
            SecurityPayload::Threat(x) => SecurityPayload::Threat(x.clone()),
            SecurityPayload::Vulnerability(x) => SecurityPayload::Vulnerability(x.clone()),
            SecurityPayload::ComplianceViolation(x) => SecurityPayload::ComplianceViolation(
                x.clone(),
            ),
            SecurityPayload::Auth(x) => SecurityPayload::Auth(x.clone()),
            SecurityPayload::Privacy(x) => SecurityPayload::Privacy(x.clone()),
        }
    }
}

#[derive(Debug)]
pub struct ThreatEvent {
    pub threat_id: String,
    pub threat_type: ThreatType,
    pub threat_level: ThreatLevel,
    pub source_ip: Option<String>,
    pub target_resource: String,
    pub attack_vector: String,
    pub mitigation_status: MitigationStatus,
    pub indicators_of_compromise: Vec<String>,
}

pub open spec fn threat_matches(a: ThreatEvent, b: ThreatEvent) -> bool {
    &&& a.threat_id == b.threat_id
    &&& a.threat_type == b.threat_type
    &&& a.threat_level == b.threat_level
    &&& a.source_ip == b.source_ip
    &&& a.target_resource == b.target_resource
    &&& a.attack_vector == b.attack_vector
    &&& a.mitigation_status == b.mitigation_status
    &&& a.indicators_of_compromise@ == b.indicators_of_compromise@
}

impl Clone for ThreatEvent {
    fn clone(&self) -> (res: Self)
        ensures
            threat_matches(res, *self),
    {
        ThreatEvent {
            threat_id: self.threat_id.clone(),
            threat_type: self.threat_type.clone(),
            threat_level: self.threat_level,
            source_ip: clone_opt_string(&self.source_ip),
            target_resource: self.target_resource.clone(),
            attack_vector: self.attack_vector.clone(),
            mitigation_status: self.mitigation_status,
            indicators_of_compromise: clone_strings(&self.indicators_of_compromise),
        }
    }
}

#[derive(Debug, PartialEq, Eq)]
pub enum ThreatType {
    PromptInjection,
    DataExfiltration,
    ModelPoisoning,
    DenialOfService,
    UnauthorizedAccess,
    MaliciousInput,
    Other(String),
}

impl Clone for ThreatType {
    fn clone(&self) -> (res: Self)
        ensures
            res == *self,
    {
        match self {
            ThreatType::PromptInjection => ThreatType::PromptInjection,
            ThreatType::DataExfiltration => ThreatType::DataExfiltration,
            ThreatType::ModelPoisoning => ThreatType::ModelPoisoning,
            ThreatType::DenialOfService => ThreatType::DenialOfService,
            ThreatType::UnauthorizedAccess => ThreatType::UnauthorizedAccess,
            ThreatType::MaliciousInput => ThreatType::MaliciousInput,
            ThreatType::Other(s) => ThreatType::Other(s.clone()),
        }
    }
}

#[derive(Clone, Copy, Debug, PartialEq, Eq, PartialOrd, Ord, Structural)]
pub enum ThreatLevel {
    Low,
    Medium,
    High,
    Critical,
}

#[derive(Clone, Copy, Debug, PartialEq, Eq, Structural)]
pub enum MitigationStatus {
    Detected,
    Blocked,
    Mitigated,
    Investigating,
    Resolved,
}

#[derive(Debug)]
pub struct VulnerabilityEvent {
    pub vulnerability_id: String,
    pub cve_id: Option<String>,
    /// CVSS-style score, in micro-units.
    pub severity_score_micros: i64,
    pub affected_component: String,
    pub description: String,
    pub remediation_status: RemediationStatus,
}

impl Clone for VulnerabilityEvent {
    fn clone(&self) -> (res: Self)
        ensures
            res == *self,
    {
        VulnerabilityEvent {
            vulnerability_id: self.vulnerability_id.clone(),
            cve_id: clone_opt_string(&self.cve_id),
            severity_score_micros: self.severity_score_micros,
            affected_component: self.affected_component.clone(),
            description: self.description.clone(),
            remediation_status: self.remediation_status,
        }
    }
}

#[derive(Clone, Copy, Debug, PartialEq, Eq, Structural)]
pub enum RemediationStatus {
    Identified,
    PatchAvailable,
    Patching,
    Patched,
    Accepted,
}

#[derive(Debug)]
pub struct ComplianceViolationEvent {
    pub violation_id: String,
    pub regulation: String,
    pub requirement: String,
    pub violation_description: String,
    pub affected_data_types: Vec<String>,
    pub remediation_required: bool,
}

pub open spec fn compliance_violation_matches(
    a: ComplianceViolationEvent,
    b: ComplianceViolationEvent,
) -> bool {
    &&& a.violation_id == b.violation_id
    &&& a.regulation == b.regulation
    &&& a.requirement == b.requirement
    &&& a.violation_description == b.violation_description
    &&& a.affected_data_types@ == b.affected_data_types@
    &&& a.remediation_required == b.remediation_required
}

impl Clone for ComplianceViolationEvent {
    fn clone(&self) -> (res: Self)
        ensures
            compliance_violation_matches(res, *self),
    {
        ComplianceViolationEvent {
            violation_id: self.violation_id.clone(),
            regulation: self.regulation.clone(),
            requirement: self.requirement.clone(),
            violation_description: self.violation_description.clone(),
            affected_data_types: clone_strings(&self.affected_data_types),
            remediation_required: self.remediation_required,
        }
    }
}

#[derive(Debug)]
pub struct AuthEvent {
    pub user_id: String,
    pub action: AuthAction,
    pub resource: String,
    pub success: bool,
    pub failure_reason: Option<String>,
}

impl Clone for AuthEvent {
    fn clone(&self) -> (res: Self)
        ensures
            res == *self,
    {
        AuthEvent {
            user_id: self.user_id.clone(),
            action: self.action,
            resource: self.resource.clone(),
            success: self.success,
            failure_reason: clone_opt_string(&self.failure_reason),
        }
    }
}

#[derive(Clone, Copy, Debug, PartialEq, Eq, Structural)]
pub enum AuthAction {
    Login,
    Logout,
    AccessAttempt,
    PermissionDenied,
    TokenGenerated,
    TokenRevoked,
}

#[derive(Debug)]
pub struct PrivacyEvent {
    pub data_type: String,
    pub operation: PrivacyOperation,
    pub user_consent: bool,
    pub data_subjects: Vec<String>,
    pub purpose: String,
}

pub open spec fn privacy_matches(a: PrivacyEvent, b: PrivacyEvent) -> bool {
    &&& a.data_type == b.data_type
    &&& a.operation == b.operation
    &&& a.user_consent == b.user_consent
    &&& a.data_subjects@ == b.data_subjects@
    &&& a.purpose == b.purpose
}

impl Clone for PrivacyEvent {
    fn clone(&self) -> (res: Self)
        ensures
            privacy_matches(res, *self),
    {
        PrivacyEvent {
            data_type: self.data_type.clone(),
            operation: self.operation,
            user_consent: self.user_consent,
            data_subjects: clone_strings(&self.data_subjects),
            purpose: self.purpose.clone(),
        }
    }
}

#[derive(Clone, Copy, Debug, PartialEq, Eq, Structural)]
pub enum PrivacyOperation {
    DataAccess,
    DataCollection,
    DataSharing,
    DataDeletion,
    ConsentUpdate,
}

// ---------------------------------------------------------------
// Cost payloads. None of these carries a vector, so their clones
// reproduce the value exactly.
// ---------------------------------------------------------------
#[derive(Debug)]
pub enum CostPayload {
    TokenCost(TokenCostEvent),
    ApiCost(ApiCostEvent),
    ResourceConsumption(ResourceConsumptionEvent),
    BudgetAlert(BudgetAlertEvent),
}

impl Clone for CostPayload {
    fn clone(&self) -> (res: Self)
        ensures
            res == *self,
    {
        match self {
            CostPayload::TokenCost(x) => CostPayload::TokenCost(x.clone()),
            CostPayload::ApiCost(x) => CostPayload::ApiCost(x.clone()),
            CostPayload::ResourceConsumption(x) => CostPayload::ResourceConsumption(x.clone()),
            CostPayload::BudgetAlert(x) => CostPayload::BudgetAlert(x.clone()),
        }
    }
}

#[derive(Debug)]
pub struct TokenCostEvent {
    pub model_id: String,
    pub request_id: String,
    pub prompt_tokens: u32,
    pub completion_tokens: u32,
    pub total_tokens: u32,
    /// Costs in micro-dollars.
    pub cost_per_prompt_token_micros: i64,
    pub cost_per_completion_token_micros: i64,
    pub total_cost_micros: i64,
    pub currency: String,
}

impl Clone for TokenCostEvent {
    fn clone(&self) -> (res: Self)
        ensures
            res == *self,
    {
        TokenCostEvent {
            model_id: self.model_id.clone(),
            request_id: self.request_id.clone(),
            prompt_tokens: self.prompt_tokens,
            completion_tokens: self.completion_tokens,
            total_tokens: self.total_tokens,
            cost_per_prompt_token_micros: self.cost_per_prompt_token_micros,
            cost_per_completion_token_micros: self.cost_per_completion_token_micros,
            total_cost_micros: self.total_cost_micros,
            currency: self.currency.clone(),
        }
    }
}

#[derive(Debug)]
pub struct ApiCostEvent {
    pub provider: String,
    pub api_endpoint: String,
    pub request_count: u64,
    pub cost_per_request_micros: i64,
    pub total_cost_micros: i64,
    pub billing_period: String,
}

impl Clone for ApiCostEvent {
    fn clone(&self) -> (res: Self)
        ensures
            res == *self,
    {
        ApiCostEvent {
            provider: self.provider.clone(),
            api_endpoint: self.api_endpoint.clone(),
            request_count: self.request_count,
            cost_per_request_micros: self.cost_per_request_micros,
            total_cost_micros: self.total_cost_micros,
            billing_period: self.billing_period.clone(),
        }
    }
}

#[derive(Debug)]
pub struct ResourceConsumptionEvent {
    pub resource_type: ResourceType,
    pub resource_id: String,
    pub quantity_micros: i64,
    pub unit: String,
    pub cost_micros: i64,
    pub utilization_micros: i64,
}

impl Clone for ResourceConsumptionEvent {
    fn clone(&self) -> (res: Self)
        ensures
            res == *self,
    {
        ResourceConsumptionEvent {
            resource_type: self.resource_type.clone(),
            resource_id: self.resource_id.clone(),
            quantity_micros: self.quantity_micros,
            unit: self.unit.clone(),
            cost_micros: self.cost_micros,
            utilization_micros: self.utilization_micros,
        }
    }
}

#[derive(Debug, PartialEq, Eq)]
pub enum ResourceType {
    Compute,
    Storage,
    Network,
    Memory,
    Gpu,
    Other(String),
}

impl Clone for ResourceType {
    fn clone(&self) -> (res: Self)
        ensures
            res == *self,
    {
        match self {
            ResourceType::Compute => ResourceType::Compute,
            ResourceType::Storage => ResourceType::Storage,
            ResourceType::Network => ResourceType::Network,
            ResourceType::Memory => ResourceType::Memory,
            ResourceType::Gpu => ResourceType::Gpu,
            ResourceType::Other(s) => ResourceType::Other(s.clone()),
        }
    }
}

#[derive(Debug)]
pub struct BudgetAlertEvent {
    pub budget_id: String,
    pub budget_name: String,
    pub budget_limit_micros: i64,
    pub current_spend_micros: i64,
    pub threshold_micros: i64,
    pub alert_type: BudgetAlertType,
}

impl Clone for BudgetAlertEvent {
    fn clone(&self) -> (res: Self)
        ensures
            res == *self,
    {
        BudgetAlertEvent {
            budget_id: self.budget_id.clone(),
            budget_name: self.budget_name.clone(),
            budget_limit_micros: self.budget_limit_micros,
            current_spend_micros: self.current_spend_micros,
            threshold_micros: self.threshold_micros,
            alert_type: self.alert_type,
        }
    }
}

#[derive(Clone, Copy, Debug, PartialEq, Eq, Structural)]
pub enum BudgetAlertType {
    Warning,
    Critical,
    Exceeded,
}

// ---------------------------------------------------------------
// Governance payloads.
// ---------------------------------------------------------------
#[derive(Debug)]
pub enum GovernancePayload {
    PolicyViolation(PolicyViolationEvent),
    AuditTrail(AuditTrailEvent),
    ComplianceCheck(ComplianceCheckEvent),
    DataLineage(DataLineageEvent),
}

pub open spec fn governance_matches(a: GovernancePayload, b: GovernancePayload) -> bool {
    match (a, b) {
        (GovernancePayload::PolicyViolation(x), GovernancePayload::PolicyViolation(y)) => {
            policy_violation_matches(x, y)
        },
        (GovernancePayload::AuditTrail(x), GovernancePayload::AuditTrail(y)) => {
            audit_trail_matches(x, y)
        },
        (GovernancePayload::ComplianceCheck(x), GovernancePayload::ComplianceCheck(y)) => {
            compliance_check_matches(x, y)
        },
        (GovernancePayload::DataLineage(x), GovernancePayload::DataLineage(y)) => {
            data_lineage_matches(x, y)
        },
        _ => false,
    }
}

impl Clone for GovernancePayload {
    fn clone(&self) -> (res: Self)
        ensures
            governance_matches(res, *self),
    {
        match self {
            GovernancePayload::PolicyViolation(x) => GovernancePayload::PolicyViolation(
                x.clone(),
            ),
            GovernancePayload::AuditTrail(x) => GovernancePayload::AuditTrail(x.clone()),
            GovernancePayload::ComplianceCheck(x) => GovernancePayload::ComplianceCheck(
                x.clone(),
            ),
            GovernancePayload::DataLineage(x) => GovernancePayload::DataLineage(x.clone()),
        }
    }
}

#[derive(Debug)]
pub struct PolicyViolationEvent {
    pub policy_id: String,
    pub policy_name: String,
    pub violation_description: String,
    pub violated_rules: Vec<String>,
    pub resource_id: String,
    pub user_id: Option<String>,
    pub severity: PolicyViolationSeverity,
    pub auto_remediated: bool,
}

pub open spec fn policy_violation_matches(
    a: PolicyViolationEvent,
    b: PolicyViolationEvent,
) -> bool {
    &&& a.policy_id == b.policy_id
    &&& a.policy_name == b.policy_name
    &&& a.violation_description == b.violation_description
    &&& a.violated_rules@ == b.violated_rules@
    &&& a.resource_id == b.resource_id
    &&& a.user_id == b.user_id
    &&& a.severity == b.severity
    &&& a.auto_remediated == b.auto_remediated
}

impl Clone for PolicyViolationEvent {
    fn clone(&self) -> (res: Self)
        ensures
            policy_violation_matches(res, *self),
    {
        PolicyViolationEvent {
            policy_id: self.policy_id.clone(),
            policy_name: self.policy_name.clone(),
            violation_description: self.violation_description.clone(),
            violated_rules: clone_strings(&self.violated_rules),
            resource_id: self.resource_id.clone(),
            user_id: clone_opt_string(&self.user_id),
            severity: self.severity,
            auto_remediated: self.auto_remediated,
        }
    }
}

#[derive(Clone, Copy, Debug, PartialEq, Eq, PartialOrd, Ord, Structural)]
pub enum PolicyViolationSeverity {
    Low,
    Medium,
    High,
    Critical,
}

/// Changed fields are carried as their serialized text.
#[derive(Debug)]
pub struct AuditTrailEvent {
    pub action: String,
    pub actor: String,
    pub resource_type: String,
    pub resource_id: String,
    pub changes: Vec<(String, String)>,
    pub ip_address: Option<String>,
    pub user_agent: Option<String>,
}

pub open spec fn audit_trail_matches(a: AuditTrailEvent, b: AuditTrailEvent) -> bool {
    &&& a.action == b.action
    &&& a.actor == b.actor
    &&& a.resource_type == b.resource_type
    &&& a.resource_id == b.resource_id
    &&& a.changes@ == b.changes@
    &&& a.ip_address == b.ip_address
    &&& a.user_agent == b.user_agent
}

impl Clone for AuditTrailEvent {
    fn clone(&self) -> (res: Self)
        ensures
            audit_trail_matches(res, *self),
    {
        AuditTrailEvent {
            action: self.action.clone(),
            actor: self.actor.clone(),
            resource_type: self.resource_type.clone(),
            resource_id: self.resource_id.clone(),
            changes: clone_string_pairs(&self.changes),
            ip_address: clone_opt_string(&self.ip_address),
            user_agent: clone_opt_string(&self.user_agent),
        }
    }
}

#[derive(Debug)]
pub struct ComplianceCheckEvent {
    pub check_id: String,
    pub framework: String,
    pub controls_checked: Vec<String>,
    pub passed: bool,
    pub findings: Vec<ComplianceFinding>,
    pub score_micros: i64,
}

pub open spec fn compliance_check_matches(
    a: ComplianceCheckEvent,
    b: ComplianceCheckEvent,
) -> bool {
    &&& a.check_id == b.check_id
    &&& a.framework == b.framework
    &&& a.controls_checked@ == b.controls_checked@
    &&& a.passed == b.passed
    &&& a.findings@ == b.findings@
    &&& a.score_micros == b.score_micros
}

impl Clone for ComplianceCheckEvent {
    fn clone(&self) -> (res: Self)
        ensures
            compliance_check_matches(res, *self),
    {
        ComplianceCheckEvent {
            check_id: self.check_id.clone(),
            framework: self.framework.clone(),
            controls_checked: clone_strings(&self.controls_checked),
            passed: self.passed,
            findings: clone_findings(&self.findings),
            score_micros: self.score_micros,
        }
    }
}

fn clone_findings(v: &Vec<ComplianceFinding>) -> (r: Vec<ComplianceFinding>)
    ensures
        r@ == v@,
{
    let mut r: Vec<ComplianceFinding> = Vec::new();
    let n = v.len();
    let mut i: usize = 0;
    while i < n
        invariant
            n == v@.len(),
            0 <= i <= n,
            r@ == v@.take(i as int),
        decreases n - i,
    {
        r.push(v[i].clone());
        proof {
            assert(v@.take(i + 1 as int) =~= v@.take(i as int).push(v@[i as int]));
        }
        i = i + 1;
    }
    proof {
        assert(v@.take(n as int) =~= v@);
    }
    r
}

#[derive(Debug)]
pub struct ComplianceFinding {
    pub control_id: String,
    pub status: ComplianceStatus,
    pub description: String,
    pub evidence: Option<String>,
}

impl Clone for ComplianceFinding {
    fn clone(&self) -> (res: Self)
        ensures
            res == *self,
    {
        ComplianceFinding {
            control_id: self.control_id.clone(),
            status: self.status,
            description: self.description.clone(),
            evidence: clone_opt_string(&self.evidence),
        }
    }
}

#[derive(Clone, Copy, Debug, PartialEq, Eq, Structural)]
pub enum ComplianceStatus {
    Pass,
    Fail,
    NotApplicable,
    Manual,
}

#[derive(Debug)]
pub struct DataLineageEvent {
    pub data_asset_id: String,
    pub operation: DataOperation,
    pub source: Option<String>,
    pub destination: Option<String>,
    pub transformation: Option<String>,
    pub lineage_path: Vec<String>,
}

pub open spec fn data_lineage_matches(a: DataLineageEvent, b: DataLineageEvent) -> bool {
    &&& a.data_asset_id == b.data_asset_id
    &&& a.operation == b.operation
    &&& a.source == b.source
    &&& a.destination == b.destination
    &&& a.transformation == b.transformation
    &&& a.lineage_path@ == b.lineage_path@
}

impl Clone for DataLineageEvent {
    fn clone(&self) -> (res: Self)
        ensures
            data_lineage_matches(res, *self),
    {
        DataLineageEvent {
            data_asset_id: self.data_asset_id.clone(),
            operation: self.operation,
            source: clone_opt_string(&self.source),
            destination: clone_opt_string(&self.destination),
            transformation: clone_opt_string(&self.transformation),
            lineage_path: clone_strings(&self.lineage_path),
        }
    }
}

#[derive(Clone, Copy, Debug, PartialEq, Eq, Structural)]
pub enum DataOperation {
    Create,
    Read,
    Update,
    Delete,
    Transform,
    Aggregate,
}

/// Free-form extension payload; the data is carried as its
/// serialized text.
#[derive(Debug)]
pub struct CustomPayload {
    pub custom_type: String,
    pub data: String,
}

impl Clone for CustomPayload {
    fn clone(&self) -> (res: Self)
        ensures
            res == *self,
    {
        CustomPayload { custom_type: self.custom_type.clone(), data: self.data.clone() }
    }
}

} // verus!
