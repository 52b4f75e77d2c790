use crate::analytics_config::AnalyticsConfig;
use crate::anomaly::{is_anomalous, Anomaly, AnomalyDetector};
use crate::correlation::CorrelationEngine;
use crate::events::{AnalyticsEvent, EventPayload, TelemetryPayload};
use crate::num::clamped;
use crate::prediction::PredictionEngine;
use crate::window::{evict_push, TS_LIMIT_MILLIS, VALUE_LIMIT_MICROS};
use vstd::prelude::*;

verus! {

/// The scalar sample a telemetry event contributes to the metric
/// stream, if any: latency, throughput and error-rate payloads each
/// feed one named metric; other payloads feed none.
pub open spec fn sample_of(event: AnalyticsEvent) -> Option<(Seq<char>, i64)> {
    match event.payload {
        EventPayload::Telemetry(TelemetryPayload::Latency(m)) => Some(
            ("latency"@, m.total_latency_micros),
        ),
        EventPayload::Telemetry(TelemetryPayload::Throughput(m)) => Some(
            ("throughput"@, m.tokens_per_second_micros),
        ),
        EventPayload::Telemetry(TelemetryPayload::ErrorRate(m)) => Some(
            ("error_rate"@, m.error_rate_micros),
        ),
        _ => None,
    }
}

/// The metric name and raw value of a telemetry event, exactly
/// `sample_of`.
pub fn telemetry_sample(event: &AnalyticsEvent) -> (r: Option<(&'static str, i64)>)
    ensures
        match r {
            Some(s) => sample_of(*event) == Some((s.0@, s.1)),
            None => sample_of(*event) is None,
        },
{
    match &event.payload {
        EventPayload::Telemetry(TelemetryPayload::Latency(m)) => Some(
            ("latency", m.total_latency_micros),
        ),
        EventPayload::Telemetry(TelemetryPayload::Throughput(m)) => Some(
            ("throughput", m.tokens_per_second_micros),
        ),
        EventPayload::Telemetry(TelemetryPayload::ErrorRate(m)) => Some(
            ("error_rate", m.error_rate_micros),
        ),
        _ => None,
    }
}

/// The composition root: wires each incoming event into the anomaly
/// detector, the prediction engine and the correlation engine. The
/// engines stay independently owned and queryable.
pub struct AggregationEngine {
    pub detector: AnomalyDetector,
    pub predictor: PredictionEngine,
    pub correlator: CorrelationEngine,
}

impl AggregationEngine {
    pub open spec fn inv(&self) -> bool {
        &&& self.detector.inv()
        &&& self.predictor.inv()
        &&& self.correlator.inv()
    }

    pub fn new(config: AnalyticsConfig) -> (r: Self)
        requires
            config.inv(),
        ensures
            r.inv(),
            r.detector.spec_config() == config,
            r.predictor.spec_config() == config,
            r.correlator.spec_config() == config,
    {
        AggregationEngine {
            detector: AnomalyDetector::new(config),
            predictor: PredictionEngine::new(config),
            correlator: CorrelationEngine::new(config),
        }
    }

    /// Feed one event through the whole pipeline: the event is
    /// stored and linked by the correlator; a telemetry sample (with
    /// its value and timestamp confined to the fixed-point limits)
    /// extends both the metric's anomaly baseline and its forecast
    /// history, and any resulting detection is returned.
    pub fn process_event(&mut self, event: AnalyticsEvent) -> (r: Option<Anomaly>)
        requires
            old(self).inv(),
        ensures
            final(self).inv(),
            final(self).correlator.event_of(event.common.event_id) == Some(event),
            ({
                let ts = clamped(event.common.timestamp_millis as int, -TS_LIMIT_MILLIS as int,
                    TS_LIMIT_MILLIS as int);
                match sample_of(event) {
                    None => {
                        &&& r is None
                        &&& forall|name: Seq<char>|
                            #[trigger] final(self).detector.baseline_of(name) == old(
                                self,
                            ).detector.baseline_of(name)
                        &&& forall|name: Seq<char>|
                            #[trigger] final(self).predictor.history_of(name) == old(
                                self,
                            ).predictor.history_of(name)
                    },
                    Some(sample) => {
                        let vc = clamped(sample.1 as int, -VALUE_LIMIT_MICROS as int,
                            VALUE_LIMIT_MICROS as int);
                        &&& final(self).detector.baseline_of(sample.0) == Some(
                            old(self).detector.pushed_baseline(sample.0, vc as i64),
                        )
                        &&& final(self).predictor.history_of(sample.0) == Some(
                            evict_push(
                                match old(self).predictor.history_of(sample.0) {
                                    Some(w) => w,
                                    None => Seq::<i64>::empty(),
                                },
                                old(self).predictor.spec_config().prediction_history_capacity
                                    as int,
                                vc as i64,
                            ),
                        )
                        &&& final(self).predictor.cache_of(sample.0) is None
                        &&& (r is Some <==> is_anomalous(
                            old(self).detector.pushed_baseline(sample.0, vc as i64),
                            vc as i64,
                            old(self).detector.sensitivity(),
                        ))
                        &&& match r {
                            Some(a) => a.metric_name@ == sample.0 && a.value_micros == vc
                                && a.timestamp_millis == ts,
                            None => true,
                        }
                    },
                }
            }),
    {
        let ts = crate::num::clamp_i64(
            event.common.timestamp_millis,
            -TS_LIMIT_MILLIS,
            TS_LIMIT_MILLIS,
        );
        let detection = match telemetry_sample(&event) {
            Some((metric, raw)) => {
                let value = crate::num::clamp_i64(raw, -VALUE_LIMIT_MICROS, VALUE_LIMIT_MICROS);
                let found = self.detector.check_anomaly(metric, value, ts);
                self.predictor.add_data_point(metric, value, ts);
                found
            },
            None => None,
        };
        self.correlator.add_event(event);
        detection
    }
}

} // verus!
