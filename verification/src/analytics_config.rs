use crate::window::MAX_WINDOW_CAPACITY;
use vstd::prelude::*;

verus! {

/// Explicit configuration handed to each analytics engine at
/// construction; there is no ambient global configuration.
///
/// The sensitivity is carried in permille (0..=1000 standing for
/// 0.0..=1.0); the anomaly threshold derived from it spans 3.0 down
/// to 1.0 z-score units.
#[derive(Clone, Copy, Debug, PartialEq, Eq, Structural)]
pub struct AnalyticsConfig {
    /// Anomaly sensitivity in permille of 1.0.
    pub anomaly_sensitivity_permille: u32,
    /// Capacity of each metric's anomaly baseline window.
    pub baseline_capacity: usize,
    /// Capacity of each metric's forecasting history window.
    pub prediction_history_capacity: usize,
    /// How long a cached forecast stays fresh, in milliseconds.
    pub prediction_cache_ttl_millis: i64,
}

impl AnalyticsConfig {
    pub open spec fn inv(&self) -> bool {
        &&& self.anomaly_sensitivity_permille <= 1000
        &&& 1 <= self.baseline_capacity <= MAX_WINDOW_CAPACITY
        &&& 1 <= self.prediction_history_capacity <= MAX_WINDOW_CAPACITY
        &&& 0 <= self.prediction_cache_ttl_millis <= 86_400_000
    }
}

impl Default for AnalyticsConfig {
    /// Moderate sensitivity (threshold 2.0), one hundred samples per
    /// baseline, a thousand samples of forecasting history, and a
    /// five-minute forecast cache.
    fn default() -> (r: Self)
        ensures
            r.inv(),
            r.anomaly_sensitivity_permille == 500,
            r.baseline_capacity == 100,
            r.prediction_history_capacity == 1000,
            r.prediction_cache_ttl_millis == 300_000,
    {
        AnalyticsConfig {
            anomaly_sensitivity_permille: 500,
            baseline_capacity: 100,
            prediction_history_capacity: 1000,
            prediction_cache_ttl_millis: 300_000,
        }
    }
}

} // verus!
