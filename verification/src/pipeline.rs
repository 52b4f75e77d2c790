use crate::events::AnalyticsEvent;
use vstd::prelude::*;

verus! {

/// Configuration of the ingestion pipeline: where the partitioned
/// stream lives, how large the bounded in-process channel is, and at
/// how many buffered events a batch is flushed downstream.
#[derive(Clone, Debug)]
pub struct PipelineConfig {
    pub kafka_brokers: Vec<String>,
    pub buffer_size: usize,
    pub batch_size: usize,
}

impl PipelineConfig {
    pub open spec fn inv(&self) -> bool {
        &&& self.buffer_size >= 1
        &&& self.batch_size >= 1
    }
}

/// Ingestion counters: messages whose events reached the buffer,
/// events flushed downstream, and malformed messages dropped.
#[derive(Clone, Copy, Debug, PartialEq, Eq, Structural)]
pub struct IngestionStats {
    pub events_received: u64,
    pub events_processed: u64,
    pub events_failed: u64,
}

/// The bounded batching stage of the consumer loop: deserialized
/// events are buffered and handed out as a full batch once the
/// flush threshold is reached; malformed messages are counted and
/// dropped without stopping the loop.
pub struct EventBatcher {
    buffer: Vec<AnalyticsEvent>,
    threshold: usize,
    received: u64,
    processed: u64,
    failed: u64,
}

impl EventBatcher {
    pub closed spec fn inv(&self) -> bool {
        &&& self.threshold >= 1
        &&& self.buffer@.len() < self.threshold
    }

    /// The events currently buffered, in arrival order.
    pub closed spec fn buffered(&self) -> Seq<AnalyticsEvent> {
        self.buffer@
    }

    pub closed spec fn spec_threshold(&self) -> int {
        self.threshold as int
    }

    pub closed spec fn spec_received(&self) -> int {
        self.received as int
    }

    pub closed spec fn spec_processed(&self) -> int {
        self.processed as int
    }

    pub closed spec fn spec_failed(&self) -> int {
        self.failed as int
    }

    pub fn new(flush_threshold: usize) -> (r: Self)
        requires
            flush_threshold >= 1,
        ensures
            r.inv(),
            r.buffered() == Seq::<AnalyticsEvent>::empty(),
            r.spec_threshold() == flush_threshold,
            r.spec_received() == 0,
            r.spec_processed() == 0,
            r.spec_failed() == 0,
    {
        EventBatcher {
            buffer: Vec::new(),
            threshold: flush_threshold,
            received: 0,
            processed: 0,
            failed: 0,
        }
    }

    /// Buffer one event; when the buffer reaches the threshold, the
    /// whole batch is handed back (in arrival order) and the buffer
    /// starts over empty.
    pub fn push(&mut self, event: AnalyticsEvent) -> (r: Option<Vec<AnalyticsEvent>>)
        requires
            old(self).inv(),
            old(self).spec_received() < u64::MAX,
            old(self).spec_processed() + old(self).spec_threshold() < u64::MAX,
        ensures
            final(self).inv(),
            final(self).spec_threshold() == old(self).spec_threshold(),
            final(self).spec_received() == old(self).spec_received() + 1,
            final(self).spec_failed() == old(self).spec_failed(),
            match r {
                Some(batch) => {
                    &&& old(self).buffered().len() + 1 == old(self).spec_threshold()
                    &&& batch@ == old(self).buffered().push(event)
                    &&& final(self).buffered() == Seq::<AnalyticsEvent>::empty()
                    &&& final(self).spec_processed() == old(self).spec_processed()
                        + batch@.len()
                },
                None => {
                    &&& old(self).buffered().len() + 1 < old(self).spec_threshold()
                    &&& final(self).buffered() == old(self).buffered().push(event)
                    &&& final(self).spec_processed() == old(self).spec_processed()
                },
            },
    {
        self.received = self.received + 1;
        self.buffer.push(event);
        if self.buffer.len() >= self.threshold {
            let mut out: Vec<AnalyticsEvent> = Vec::new();
            core::mem::swap(&mut self.buffer, &mut out);
            self.processed = self.processed + out.len() as u64;
            Some(out)
        } else {
            None
        }
    }

    /// Hand back whatever is buffered, short of the threshold, and
    /// start over empty.
    pub fn flush(&mut self) -> (r: Vec<AnalyticsEvent>)
        requires
            old(self).inv(),
            old(self).spec_processed() + old(self).spec_threshold() < u64::MAX,
        ensures
            final(self).inv(),
            final(self).spec_threshold() == old(self).spec_threshold(),
            r@ == old(self).buffered(),
            final(self).buffered() == Seq::<AnalyticsEvent>::empty(),
            final(self).spec_received() == old(self).spec_received(),
            final(self).spec_processed() == old(self).spec_processed() + r@.len(),
            final(self).spec_failed() == old(self).spec_failed(),
    {
        let mut out: Vec<AnalyticsEvent> = Vec::new();
        core::mem::swap(&mut self.buffer, &mut out);
        self.processed = self.processed + out.len() as u64;
        out
    }

    /// Count a malformed inbound message, dropped with no further
    /// effect.
    pub fn record_malformed(&mut self)
        requires
            old(self).inv(),
            old(self).spec_failed() < u64::MAX,
        ensures
            final(self).inv(),
            final(self).spec_threshold() == old(self).spec_threshold(),
            final(self).buffered() == old(self).buffered(),
            final(self).spec_received() == old(self).spec_received(),
            final(self).spec_processed() == old(self).spec_processed(),
            final(self).spec_failed() == old(self).spec_failed() + 1,
    {
        self.failed = self.failed + 1;
    }

    /// The ingestion counters.
    pub fn get_stats(&self) -> (r: IngestionStats)
        ensures
            r.events_received == self.spec_received(),
            r.events_processed == self.spec_processed(),
            r.events_failed == self.spec_failed(),
    {
        IngestionStats {
            events_received: self.received,
            events_processed: self.processed,
            events_failed: self.failed,
        }
    }
}

} // verus!
