use vstd::prelude::*;

verus! {

/// Connection settings of the configuration-manager adapter.
#[derive(Clone, Debug)]
pub struct ConfigManagerConfig {
    pub endpoint: String,
    pub api_key: Option<String>,
    pub timeout_secs: u64,
    pub cache_ttl_secs: u64,
}

/// One named rollup window of the aggregation pipeline.
#[derive(Clone, Debug)]
pub struct RollupWindow {
    pub name: String,
    pub duration_minutes: u32,
    pub aggregations: Vec<String>,
}

/// Anomaly detection algorithm selector.
#[derive(Clone, Copy, Debug, PartialEq, Eq, Structural)]
pub enum AnomalyAlgorithm {
    ZScore,
    IQR,
    DBSCAN,
    IsolationForest,
    Prophet,
}

/// Forecasting model selector.
#[derive(Clone, Copy, Debug, PartialEq, Eq, Structural)]
pub enum ForecastModel {
    ARIMA,
    Prophet,
    ExponentialSmoothing,
    LinearRegression,
    LSTM,
}

/// Alert routing configuration.
#[derive(Clone, Debug)]
pub struct AlertingConfig {
    pub enabled: bool,
    pub default_severity: AlertSeverity,
    pub channels: Vec<AlertChannel>,
    pub rate_limit_per_hour: u32,
    pub grouping_window_minutes: u32,
}

#[derive(Clone, Copy, Debug, PartialEq, Eq, PartialOrd, Ord, Structural)]
pub enum AlertSeverity {
    Info,
    Warning,
    Error,
    Critical,
}

#[derive(Clone, Debug)]
pub struct AlertChannel {
    pub channel_type: ChannelType,
    pub config: Vec<(String, String)>,
    pub enabled: bool,
}

#[derive(Clone, Copy, Debug, PartialEq, Eq, Structural)]
pub enum ChannelType {
    Email,
    Slack,
    PagerDuty,
    Webhook,
    SNS,
}

/// One data-retention policy.
#[derive(Clone, Debug)]
pub struct RetentionPolicy {
    pub policy_id: String,
    pub name: String,
    pub data_type: DataType,
    pub retention_days: u32,
    pub tier: StorageTier,
    pub compress_after_days: Option<u32>,
    pub archive_after_days: Option<u32>,
}

#[derive(Clone, Copy, Debug, PartialEq, Eq, Structural)]
pub enum DataType {
    RawEvents,
    AggregatedMetrics,
    Traces,
    Logs,
    Alerts,
    Audits,
}

#[derive(Clone, Copy, Debug, PartialEq, Eq, Structural)]
pub enum StorageTier {
    Hot,
    Warm,
    Cold,
    Archive,
}

/// Where and how evicted data is archived.
#[derive(Clone, Debug)]
pub struct ArchivalConfig {
    pub enabled: bool,
    pub destination: ArchivalDestination,
    pub compression: CompressionType,
    pub encryption_enabled: bool,
}

#[derive(Clone, Debug)]
pub enum ArchivalDestination {
    S3 { bucket: String, prefix: String },
    GCS { bucket: String, prefix: String },
    Azure { container: String, prefix: String },
}

#[derive(Clone, Copy, Debug, PartialEq, Eq, Structural)]
pub enum CompressionType {
    Uncompressed,
    Gzip,
    Zstd,
    Lz4,
    Snappy,
}

/// Storage compaction schedule.
#[derive(Clone, Debug)]
pub struct CompactionConfig {
    pub enabled: bool,
    pub schedule_cron: String,
    pub target_file_size_mb: u64,
    pub max_concurrent_jobs: u32,
}

/// Environment-specific operational configuration.
#[derive(Clone, Debug)]
pub struct EnvironmentConfig {
    pub environment: String,
    pub endpoints: Vec<(String, String)>,
    pub limits: ResourceLimits,
    pub security: SecurityConfig,
}

#[derive(Clone, Copy, Debug, PartialEq, Eq, Structural)]
pub struct ResourceLimits {
    pub max_concurrent_queries: u32,
    pub max_query_timeout_secs: u32,
    pub max_result_rows: u64,
    pub max_memory_mb: u64,
}

#[derive(Clone, Debug)]
pub struct SecurityConfig {
    pub require_auth: bool,
    pub allowed_origins: Vec<String>,
    pub rate_limit_rps: u32,
    pub ip_whitelist: Option<Vec<String>>,
}

} // verus!
