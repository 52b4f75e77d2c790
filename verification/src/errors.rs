use vstd::prelude::*;

verus! {

/// Error taxonomy of the analytics core.
///
/// `UnknownMetric`: no history exists for the requested metric.
/// `InsufficientData`: history exists but holds fewer points than the
/// requested algorithm needs.
/// `TransportFailure`: a transient transport fault, eligible for retry.
/// `CircuitOpen`: the operation was rejected without being attempted.
/// `DeserializationFailure`: a malformed inbound message; non-fatal,
/// the message is dropped.
#[derive(Clone, Copy, Debug, PartialEq, Eq, Structural)]
pub enum AnalyticsError {
    UnknownMetric,
    InsufficientData,
    TransportFailure,
    CircuitOpen,
    DeserializationFailure,
}

impl AnalyticsError {
    /// Short stable name of the error, for logs and messages.
    pub fn name(&self) -> (r: &'static str)
        ensures
            r@ == self.spec_name(),
    {
        match self {
            AnalyticsError::UnknownMetric => "unknown metric",
            AnalyticsError::InsufficientData => "insufficient data",
            AnalyticsError::TransportFailure => "transport failure",
            AnalyticsError::CircuitOpen => "circuit open",
            AnalyticsError::DeserializationFailure => "deserialization failure",
        }
    }

    pub open spec fn spec_name(&self) -> Seq<char> {
        match self {
            AnalyticsError::UnknownMetric => "unknown metric"@,
            AnalyticsError::InsufficientData => "insufficient data"@,
            AnalyticsError::TransportFailure => "transport failure"@,
            AnalyticsError::CircuitOpen => "circuit open"@,
            AnalyticsError::DeserializationFailure => "deserialization failure"@,
        }
    }
}

} // verus!
