use crate::config::ConfigManagerConfig;
use crate::window::TS_LIMIT_MILLIS;
use vstd::prelude::*;

verus! {

/// Health report of one sibling-service adapter.
#[derive(Clone, Debug)]
pub struct AdapterHealth {
    pub adapter_name: String,
    pub is_healthy: bool,
    pub latency_ms: Option<u64>,
    pub last_successful_fetch_millis: Option<i64>,
    pub error_message: Option<String>,
}

impl AdapterHealth {
    /// A healthy report, stamped with the wall clock.
    pub fn healthy(adapter_name: &str, latency_ms: u64) -> (r: AdapterHealth)
        ensures
            r.adapter_name@ == adapter_name@,
            r.is_healthy,
            r.latency_ms == Some(latency_ms),
            r.last_successful_fetch_millis is Some,
            r.error_message is None,
    {
        let raw = crate::clock::now_millis();
        let now = crate::num::clamp_i64(raw, 0, TS_LIMIT_MILLIS);
        AdapterHealth {
            adapter_name: adapter_name.to_owned(),
            is_healthy: true,
            latency_ms: Some(latency_ms),
            last_successful_fetch_millis: Some(now),
            error_message: None,
        }
    }

    /// An unhealthy report carrying the error text.
    pub fn unhealthy(adapter_name: &str, error: &str) -> (r: AdapterHealth)
        ensures
            r.adapter_name@ == adapter_name@,
            !r.is_healthy,
            r.latency_ms is None,
            r.last_successful_fetch_millis is None,
            match r.error_message {
                Some(e) => e@ == error@,
                None => false,
            },
    {
        AdapterHealth {
            adapter_name: adapter_name.to_owned(),
            is_healthy: false,
            latency_ms: None,
            last_successful_fetch_millis: None,
            error_message: Some(error.to_owned()),
        }
    }
}

/// Connection settings of the telemetry-observatory adapter.
#[derive(Clone, Debug)]
pub struct ObservatoryConfig {
    pub endpoint: String,
    pub api_key: Option<String>,
    pub timeout_secs: u64,
    pub batch_size: usize,
}

/// Status of one usage trace.
#[derive(Clone, Copy, Debug, PartialEq, Eq, Structural)]
pub enum TraceStatus {
    Completed,
    Error,
    Timeout,
}

/// Token counts of one traced interaction.
#[derive(Clone, Copy, Debug, PartialEq, Eq, Structural)]
pub struct TokenUsage {
    pub prompt_tokens: u64,
    pub completion_tokens: u64,
    pub total_tokens: u64,
}

/// Read-only adapter for the telemetry observatory; its fetch
/// operations run over HTTP with the surrounding application.
pub struct ObservatoryAdapter {
    pub config: ObservatoryConfig,
    pub connected: bool,
}

impl ObservatoryAdapter {
    pub open spec fn is_connected(&self) -> bool {
        self.connected
    }

    pub fn new(config: ObservatoryConfig) -> (r: Self)
        ensures
            r.config == config,
            !r.is_connected(),
    {
        ObservatoryAdapter { config, connected: false }
    }

    /// Mark the adapter connected or disconnected.
    pub fn set_connected(&mut self, connected: bool)
        ensures
            final(self).is_connected() == connected,
            final(self).config == old(self).config,
    {
        self.connected = connected;
    }
}

/// Connection settings of the cost-accounting adapter.
#[derive(Clone, Debug)]
pub struct CostOpsConfig {
    pub endpoint: String,
    pub api_key: Option<String>,
    pub timeout_secs: u64,
}

/// Kind of a cost consumer.
#[derive(Clone, Copy, Debug, PartialEq, Eq, Structural)]
pub enum ConsumerType {
    User,
    Team,
    Application,
    Pipeline,
}

/// Horizon of a cost projection.
#[derive(Clone, Copy, Debug, PartialEq, Eq, Structural)]
pub enum ProjectionPeriod {
    Daily,
    Weekly,
    Monthly,
    Quarterly,
}

/// Direction of a cost trend.
#[derive(Clone, Copy, Debug, PartialEq, Eq, Structural)]
pub enum CostTrend {
    Increasing,
    Stable,
    Decreasing,
}

/// Token counts of an accounting baseline.
#[derive(Clone, Debug)]
pub struct TokenMetrics {
    pub total_tokens: u64,
    pub prompt_tokens: u64,
    pub completion_tokens: u64,
    pub cached_tokens: u64,
    pub by_model: Vec<(String, u64)>,
}

/// Reporting granularity of a cost summary.
#[derive(Clone, Copy, Debug, PartialEq, Eq, Structural)]
pub enum Granularity {
    Hourly,
    Daily,
    Weekly,
    Monthly,
}

/// Read-only adapter for the cost-accounting service.
pub struct CostOpsAdapter {
    pub config: CostOpsConfig,
    pub connected: bool,
}

impl CostOpsAdapter {
    pub open spec fn is_connected(&self) -> bool {
        self.connected
    }

    pub fn new(config: CostOpsConfig) -> (r: Self)
        ensures
            r.config == config,
            !r.is_connected(),
    {
        CostOpsAdapter { config, connected: false }
    }

    pub fn set_connected(&mut self, connected: bool)
        ensures
            final(self).is_connected() == connected,
            final(self).config == old(self).config,
    {
        self.connected = connected;
    }
}

/// Connection settings of the memory-graph adapter.
#[derive(Clone, Debug)]
pub struct MemoryGraphConfig {
    pub endpoint: String,
    pub api_key: Option<String>,
    pub timeout_secs: u64,
}

/// Kind of a context-lineage node.
#[derive(Clone, Copy, Debug, PartialEq, Eq, Structural)]
pub enum NodeType {
    UserMessage,
    AssistantResponse,
    SystemPrompt,
    ToolCall,
    ToolResult,
    ContextInjection,
    Summary,
}

/// Kind of a context-lineage edge.
#[derive(Clone, Copy, Debug, PartialEq, Eq, Structural)]
pub enum EdgeType {
    Follows,
    References,
    Summarizes,
    DerivedFrom,
    ToolInvocation,
}

/// Kind of a stored memory.
#[derive(Clone, Copy, Debug, PartialEq, Eq, Structural)]
pub enum MemoryType {
    ShortTerm,
    LongTerm,
    Working,
    Episodic,
    Semantic,
}

/// Read-only adapter for the memory/context-graph service.
pub struct MemoryGraphAdapter {
    pub config: MemoryGraphConfig,
    pub connected: bool,
}

impl MemoryGraphAdapter {
    pub open spec fn is_connected(&self) -> bool {
        self.connected
    }

    pub fn new(config: MemoryGraphConfig) -> (r: Self)
        ensures
            r.config == config,
            !r.is_connected(),
    {
        MemoryGraphAdapter { config, connected: false }
    }

    pub fn set_connected(&mut self, connected: bool)
        ensures
            final(self).is_connected() == connected,
            final(self).config == old(self).config,
    {
        self.connected = connected;
    }
}

/// Connection settings of the model-registry adapter.
#[derive(Clone, Debug)]
pub struct RegistryConfig {
    pub endpoint: String,
    pub api_key: Option<String>,
    pub timeout_secs: u64,
}

/// Kind of a registered model.
#[derive(Clone, Copy, Debug, PartialEq, Eq, Structural)]
pub enum ModelType {
    TextGeneration,
    TextEmbedding,
    ImageGeneration,
    ImageAnalysis,
    AudioTranscription,
    AudioGeneration,
    MultiModal,
    CodeGeneration,
    FineTuned,
}

/// A capability a registered model offers.
#[derive(Clone, Copy, Debug, PartialEq, Eq, Structural)]
pub enum ModelCapability {
    Chat,
    Completion,
    Embedding,
    FunctionCalling,
    Vision,
    Audio,
    Streaming,
    BatchProcessing,
    FineTuning,
}

/// Lifecycle status of a registered model.
#[derive(Clone, Copy, Debug, PartialEq, Eq, Structural)]
pub enum ModelStatus {
    Active,
    Deprecated,
    Preview,
    Maintenance,
    Retired,
}

/// Kind of a pipeline stage.
#[derive(Clone, Copy, Debug, PartialEq, Eq, Structural)]
pub enum StageType {
    ModelInference,
    Preprocessing,
    Postprocessing,
    Embedding,
    Retrieval,
    Routing,
    Aggregation,
    Transform,
    Cache,
    RateLimit,
}

/// Lifecycle status of a registered pipeline.
#[derive(Clone, Copy, Debug, PartialEq, Eq, Structural)]
pub enum PipelineStatus {
    Active,
    Paused,
    Draft,
    Archived,
}

/// Operational status of a provider.
#[derive(Clone, Copy, Debug, PartialEq, Eq, Structural)]
pub enum ProviderStatus {
    Operational,
    Degraded,
    Outage,
}

/// A provider's declared rate limits.
#[derive(Clone, Copy, Debug, PartialEq, Eq, Structural)]
pub struct RateLimits {
    pub requests_per_minute: u64,
    pub tokens_per_minute: u64,
    pub tokens_per_day: Option<u64>,
}

/// Filter for model listings.
#[derive(Clone, Debug)]
pub struct ModelQuery {
    pub providers: Option<Vec<String>>,
    pub model_types: Option<Vec<ModelType>>,
    pub capabilities: Option<Vec<ModelCapability>>,
    pub status: Option<ModelStatus>,
    pub min_context_window: Option<u64>,
    pub tags: Option<Vec<(String, String)>>,
}

/// Read-only adapter for the model registry.
pub struct RegistryAdapter {
    pub config: RegistryConfig,
    pub connected: bool,
}

impl RegistryAdapter {
    pub open spec fn is_connected(&self) -> bool {
        self.connected
    }

    pub fn new(config: RegistryConfig) -> (r: Self)
        ensures
            r.config == config,
            !r.is_connected(),
    {
        RegistryAdapter { config, connected: false }
    }

    pub fn set_connected(&mut self, connected: bool)
        ensures
            final(self).is_connected() == connected,
            final(self).config == old(self).config,
    {
        self.connected = connected;
    }
}

/// Read-only adapter for the configuration manager.
pub struct ConfigManagerAdapter {
    pub config: ConfigManagerConfig,
    pub connected: bool,
}

impl ConfigManagerAdapter {
    pub open spec fn is_connected(&self) -> bool {
        self.connected
    }

    pub fn new(config: ConfigManagerConfig) -> (r: Self)
        ensures
            r.config == config,
            !r.is_connected(),
    {
        ConfigManagerAdapter { config, connected: false }
    }

    pub fn set_connected(&mut self, connected: bool)
        ensures
            final(self).is_connected() == connected,
            final(self).config == old(self).config,
    {
        self.connected = connected;
    }
}

/// All five sibling-service adapters under one roof. The transports
/// behind them belong to the surrounding application; the core only
/// depends on the data shapes these adapters hand it.
pub struct AdapterManager {
    pub observatory: ObservatoryAdapter,
    pub costops: CostOpsAdapter,
    pub memory_graph: MemoryGraphAdapter,
    pub registry: RegistryAdapter,
    pub config_manager: ConfigManagerAdapter,
}

impl AdapterManager {
    /// Assemble the manager from explicit per-adapter configuration.
    pub fn new(
        observatory: ObservatoryConfig,
        costops: CostOpsConfig,
        memory_graph: MemoryGraphConfig,
        registry: RegistryConfig,
        config_manager: ConfigManagerConfig,
    ) -> (r: Self)
        ensures
            r.observatory.config == observatory,
            r.costops.config == costops,
            r.memory_graph.config == memory_graph,
            r.registry.config == registry,
            r.config_manager.config == config_manager,
            !r.observatory.is_connected(),
            !r.costops.is_connected(),
            !r.memory_graph.is_connected(),
            !r.registry.is_connected(),
            !r.config_manager.is_connected(),
    {
        AdapterManager {
            observatory: ObservatoryAdapter::new(observatory),
            costops: CostOpsAdapter::new(costops),
            memory_graph: MemoryGraphAdapter::new(memory_graph),
            registry: RegistryAdapter::new(registry),
            config_manager: ConfigManagerAdapter::new(config_manager),
        }
    }
}

} // verus!
