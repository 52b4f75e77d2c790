//! Real-time analytics and correlation engine for an LLM operations
//! event stream: rolling statistical baselines with anomaly detection,
//! short-horizon forecasting, cross-event correlation graphs, and the
//! resilience layer (circuit breaker, retry backoff) that guards the
//! ingestion path.
//!
//! Metric values are carried as fixed-point integers in micro-units
//! (one unit equals 1_000_000 micros), timestamps as milliseconds, so
//! that every statistic the engines derive is an exact, verified
//! integer computation.

pub mod adapters;
pub mod aggregation;
pub mod analytics_config;
pub mod anomaly;
pub mod circuit_breaker;
pub mod clock;
pub mod config;
pub mod correlation;
pub mod errors;
pub mod events;
pub mod kv;
pub mod kv_u;
pub mod num;
pub mod pipeline;
pub mod prediction;
pub mod resilience;
pub mod retry;
pub mod window;

pub use errors::AnalyticsError;
