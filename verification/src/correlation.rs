use crate::analytics_config::AnalyticsConfig;
use crate::events::{event_matches, AnalyticsEvent, EventType, Severity, SourceModule};
use crate::kv_u::{
    lemma_uassoc_push, lemma_uassoc_update, uassoc_find, uassoc_lookup, ukeys_unique,
};
use crate::num::{abs_i, div_tz};
use crate::window::{sum_of, TS_LIMIT_MILLIS};
use vstd::prelude::*;

verus! {

/// Two events are temporally linked when they lie within this many
/// milliseconds of each other (five minutes, symmetric).
pub const CORRELATION_WINDOW_MILLIS: i64 = 300_000;

/// An accumulating temporal co-occurrence pattern for one ordered
/// pair of source modules: the timestamps at which co-occurrences
/// were observed, and the absolute time gaps (in whole seconds) that
/// produced them.
#[derive(Clone, Debug)]
pub struct TemporalPattern {
    pub occurrences: Vec<i64>,
    pub time_diffs: Vec<i64>,
}

/// Kind of a link in a correlation graph.
#[derive(Clone, Copy, Debug, PartialEq, Eq, Structural)]
pub enum CorrelationType {
    Causal,
    Temporal,
}

/// The identifier a graph was built for, and when.
#[derive(Clone, Copy, Debug, PartialEq, Eq, Structural)]
pub struct CorrelationId {
    pub id: u128,
    pub created_at_millis: i64,
}

/// One event in a correlation graph.
#[derive(Clone, Copy, Debug, PartialEq, Eq, Structural)]
pub struct EventNode {
    pub event_id: u128,
    pub timestamp_millis: i64,
    pub source_module: SourceModule,
    pub event_type: EventType,
    pub severity: Severity,
}

/// One directed causal link: parent to child, from an explicit
/// parent-event reference.
#[derive(Clone, Copy, Debug, PartialEq, Eq, Structural)]
pub struct EventEdge {
    pub from_event_id: u128,
    pub to_event_id: u128,
    pub correlation_type: CorrelationType,
    pub confidence_permille: u32,
    pub latency_ms: Option<i64>,
}

/// A materialized causal graph over one correlation group.
#[derive(Clone, Debug)]
pub struct EventGraph {
    pub correlation_id: CorrelationId,
    pub nodes: Vec<EventNode>,
    pub edges: Vec<EventEdge>,
}

/// Cross-module correlation-strength statistics.
#[derive(Clone, Copy, Debug, PartialEq, Eq, Structural)]
pub struct CorrelationAnalysis {
    pub module1: SourceModule,
    pub module2: SourceModule,
    pub correlation_count: usize,
    pub avg_time_diff_seconds: i64,
    pub confidence_permille: u32,
}

/// Counters describing the engine's state.
#[derive(Clone, Copy, Debug, PartialEq, Eq, Structural)]
pub struct CorrelationStats {
    pub total_correlations: usize,
    pub total_events: usize,
    pub total_patterns: usize,
}

/// Pairwise-distinct identifiers.
pub open spec fn ids_distinct(s: Seq<u128>) -> bool {
    forall|a: int, b: int| 0 <= a < b < s.len() ==> #[trigger] s[a] != #[trigger] s[b]
}

/// A stable small code for each source module.
pub open spec fn module_code_spec(m: SourceModule) -> int {
    match m {
        SourceModule::LlmObservatory => 0,
        SourceModule::LlmSentinel => 1,
        SourceModule::LlmCostOps => 2,
        SourceModule::LlmGovernanceDashboard => 3,
        SourceModule::LlmRegistry => 4,
        SourceModule::LlmPolicyEngine => 5,
        SourceModule::LlmAnalyticsHub => 6,
    }
}

fn module_code(m: SourceModule) -> (r: u8)
    ensures
        r as int == module_code_spec(m),
{
    match m {
        SourceModule::LlmObservatory => 0,
        SourceModule::LlmSentinel => 1,
        SourceModule::LlmCostOps => 2,
        SourceModule::LlmGovernanceDashboard => 3,
        SourceModule::LlmRegistry => 4,
        SourceModule::LlmPolicyEngine => 5,
        SourceModule::LlmAnalyticsHub => 6,
    }
}

/// The table key of the ordered module pair (a, b).
pub open spec fn pair_key(a: SourceModule, b: SourceModule) -> u128 {
    (module_code_spec(a) * 8 + module_code_spec(b)) as u128
}

pub proof fn lemma_pair_key_injective(a: SourceModule, b: SourceModule, c: SourceModule, d: SourceModule)
    requires
        pair_key(a, b) == pair_key(c, d),
    ensures
        a == c,
        b == d,
{
}

/// Whether storing `e` records a co-occurrence with retained event
/// `o` under the ordered module pair (a, b): a different event,
/// within the correlation window, with the matching modules.
pub open spec fn matches_scan(
    e: AnalyticsEvent,
    o: AnalyticsEvent,
    a: SourceModule,
    b: SourceModule,
) -> bool {
    &&& o.common.event_id != e.common.event_id
    &&& abs_i(e.common.timestamp_millis - o.common.timestamp_millis)
        <= CORRELATION_WINDOW_MILLIS
    &&& e.common.source_module == a
    &&& o.common.source_module == b
}

/// The occurrence timestamps of pattern (a, b) after scanning the
/// retained events for co-occurrences with `e`.
pub open spec fn scan_occ(
    base: Seq<i64>,
    evs: Seq<(u128, AnalyticsEvent)>,
    e: AnalyticsEvent,
    a: SourceModule,
    b: SourceModule,
) -> Seq<i64>
    decreases evs.len(),
{
    if evs.len() == 0 {
        base
    } else {
        let pre = scan_occ(base, evs.drop_last(), e, a, b);
        if matches_scan(e, evs.last().1, a, b) {
            pre.push(e.common.timestamp_millis)
        } else {
            pre
        }
    }
}

/// The recorded time gaps of pattern (a, b) after the same scan, in
/// whole seconds.
pub open spec fn scan_diffs(
    base: Seq<i64>,
    evs: Seq<(u128, AnalyticsEvent)>,
    e: AnalyticsEvent,
    a: SourceModule,
    b: SourceModule,
) -> Seq<i64>
    decreases evs.len(),
{
    if evs.len() == 0 {
        base
    } else {
        let pre = scan_diffs(base, evs.drop_last(), e, a, b);
        if matches_scan(e, evs.last().1, a, b) {
            pre.push(
                (abs_i(e.common.timestamp_millis - evs.last().1.common.timestamp_millis)
                    / 1000) as i64,
            )
        } else {
            pre
        }
    }
}

/// The members of a correlation group whose event bodies are still
/// retained, in membership order.
pub open spec fn retained_members(ms: Seq<u128>, evs: Seq<(u128, AnalyticsEvent)>) -> Seq<u128>
    decreases ms.len(),
{
    if ms.len() == 0 {
        Seq::empty()
    } else {
        let pre = retained_members(ms.drop_last(), evs);
        if uassoc_lookup(evs, ms.last()) is Some {
            pre.push(ms.last())
        } else {
            pre
        }
    }
}

pub proof fn lemma_retained_members_lookup(ms: Seq<u128>, evs: Seq<(u128, AnalyticsEvent)>)
    ensures
        forall|i: int|
            0 <= i < retained_members(ms, evs).len() ==> uassoc_lookup(
                evs,
                #[trigger] retained_members(ms, evs)[i],
            ) is Some,
    decreases ms.len(),
{
    if ms.len() > 0 {
        lemma_retained_members_lookup(ms.drop_last(), evs);
    }
}

/// Completeness of the correlation round trip: when every member's
/// event body is retained, the retained members are exactly the
/// members, in order.
pub proof fn lemma_correlated_complete(ms: Seq<u128>, evs: Seq<(u128, AnalyticsEvent)>)
    requires
        forall|i: int| 0 <= i < ms.len() ==> uassoc_lookup(evs, #[trigger] ms[i]) is Some,
    ensures
        retained_members(ms, evs) == ms,
    decreases ms.len(),
{
    if ms.len() > 0 {
        assert(forall|i: int|
            0 <= i < ms.drop_last().len() ==> uassoc_lookup(
                evs,
                #[trigger] ms.drop_last()[i],
            ) is Some);
        lemma_correlated_complete(ms.drop_last(), evs);
        assert(retained_members(ms, evs) =~= ms);
    }
}

/// The causal edges over the first `k` of the graph's node ids: one
/// edge per node whose parent reference points at another node of
/// the graph; dangling parent references produce none.
pub open spec fn edge_seq(ids: Seq<u128>, evs: Seq<(u128, AnalyticsEvent)>, k: int) -> Seq<
    (u128, u128),
>
    decreases k,
{
    if k <= 0 {
        Seq::empty()
    } else {
        let pre = edge_seq(ids, evs, k - 1);
        match uassoc_lookup(evs, ids[k - 1]) {
            Some(ev) => match ev.common.parent_event_id {
                Some(p) => if ids.contains(p) {
                    pre.push((p, ids[k - 1]))
                } else {
                    pre
                },
                None => pre,
            },
            None => pre,
        }
    }
}

/// Every edge of a correlation graph runs between retained nodes: a
/// node whose parent is not among the nodes gets no inbound edge.
pub proof fn lemma_edges_within_nodes(ids: Seq<u128>, evs: Seq<(u128, AnalyticsEvent)>, k: int)
    requires
        0 <= k <= ids.len(),
    ensures
        forall|i: int|
            0 <= i < edge_seq(ids, evs, k).len() ==> ids.contains(
                (#[trigger] edge_seq(ids, evs, k)[i]).0,
            ) && ids.contains(edge_seq(ids, evs, k)[i].1),
    decreases k,
{
    if k > 0 {
        lemma_edges_within_nodes(ids, evs, k - 1);
        let pre = edge_seq(ids, evs, k - 1);
        let cur = edge_seq(ids, evs, k);
        assert forall|i: int|
            0 <= i < cur.len() implies ids.contains((#[trigger] cur[i]).0) && ids.contains(
            cur[i].1,
        ) by {
            if i < pre.len() {
                assert(cur[i] == pre[i]);
                assert(ids.contains(pre[i].0) && ids.contains(pre[i].1));
            } else {
                assert(0 <= k - 1 < ids.len() && ids[k - 1] == ids[k - 1]);
                assert(ids.contains(ids[k - 1]));
            }
        }
    }
}

/// The saturating confidence score from an occurrence count:
/// `min(count/100, 1) * 0.9 + 0.1`, in permille; a single occurrence
/// scores 109, a hundred or more scores 1000.
pub open spec fn correlation_confidence(count: int) -> int {
    if count >= 100 {
        1000
    } else {
        9 * count + 100
    }
}

/// Links events that share an explicit correlation identifier or lie
/// close in time, and materializes causal graphs and cross-module
/// statistics from what it has retained.
pub struct CorrelationEngine {
    config: AnalyticsConfig,
    events: Vec<(u128, AnalyticsEvent)>,
    correlations: Vec<(u128, Vec<u128>)>,
    patterns: Vec<(u128, TemporalPattern)>,
}

impl CorrelationEngine {
    pub closed spec fn inv(&self) -> bool {
        &&& self.config.inv()
        &&& ukeys_unique(self.events@)
        &&& ukeys_unique(self.correlations@)
        &&& ukeys_unique(self.patterns@)
        &&& forall|i: int|
            0 <= i < self.events@.len() ==> (#[trigger] self.events@[i]).0
                == self.events@[i].1.common.event_id
        &&& forall|i: int|
            0 <= i < self.correlations@.len() ==> ids_distinct(
                (#[trigger] self.correlations@[i]).1@,
            )
        &&& forall|i: int|
            0 <= i < self.patterns@.len() ==> {
                let p = (#[trigger] self.patterns@[i]).1;
                &&& p.occurrences@.len() == p.time_diffs@.len()
                &&& forall|q: int| 0 <= q < p.time_diffs@.len() ==> 0 <= #[trigger] p.time_diffs@[q] <= 300
            }
    }

    /// The stored key/event pairs, the scan order of the temporal
    /// pass.
    pub closed spec fn raw_events(&self) -> Seq<(u128, AnalyticsEvent)> {
        self.events@
    }

    /// The retained event under an id, if any: the lookup in
    /// `raw_events`, so contracts over either compose.
    pub open spec fn event_of(&self, id: u128) -> Option<AnalyticsEvent> {
        uassoc_lookup(self.raw_events(), id)
    }

    /// The member event ids of a correlation group, oldest first.
    pub closed spec fn members_of(&self, cid: u128) -> Seq<u128> {
        match uassoc_lookup(self.correlations@, cid) {
            Some(v) => v@,
            None => Seq::empty(),
        }
    }

    pub closed spec fn has_pattern(&self, a: SourceModule, b: SourceModule) -> bool {
        uassoc_lookup(self.patterns@, pair_key(a, b)) is Some
    }

    pub closed spec fn pattern_occ(&self, a: SourceModule, b: SourceModule) -> Seq<i64> {
        match uassoc_lookup(self.patterns@, pair_key(a, b)) {
            Some(p) => p.occurrences@,
            None => Seq::empty(),
        }
    }

    pub closed spec fn pattern_diffs(&self, a: SourceModule, b: SourceModule) -> Seq<i64> {
        match uassoc_lookup(self.patterns@, pair_key(a, b)) {
            Some(p) => p.time_diffs@,
            None => Seq::empty(),
        }
    }

    pub closed spec fn spec_config(&self) -> AnalyticsConfig {
        self.config
    }

    pub fn new(config: AnalyticsConfig) -> (r: Self)
        requires
            config.inv(),
        ensures
            r.inv(),
            r.spec_config() == config,
            r.raw_events() == Seq::<(u128, AnalyticsEvent)>::empty(),
            forall|cid: u128| #[trigger] r.members_of(cid) == Seq::<u128>::empty(),
            forall|a: SourceModule, b: SourceModule| !#[trigger] r.has_pattern(a, b),
    {
        CorrelationEngine {
            config,
            events: Vec::new(),
            correlations: Vec::new(),
            patterns: Vec::new(),
        }
    }

    /// Store the event (replacing any prior copy under its id), index
    /// it by its correlation id if it carries one, and fold it into
    /// the temporal co-occurrence patterns against every retained
    /// event within the correlation window.
    #[verifier::rlimit(100)]
    pub fn add_event(&mut self, event: AnalyticsEvent)
        requires
            old(self).inv(),
        ensures
            final(self).inv(),
            final(self).spec_config() == old(self).spec_config(),
            final(self).event_of(event.common.event_id) == Some(event),
            forall|id: u128|
                id != event.common.event_id ==> #[trigger] final(self).event_of(id) == old(
                    self,
                ).event_of(id),
            match event.common.correlation_id {
                Some(cid) => {
                    &&& final(self).members_of(cid) == (if old(self).members_of(cid).contains(
                        event.common.event_id,
                    ) {
                        old(self).members_of(cid)
                    } else {
                        old(self).members_of(cid).push(event.common.event_id)
                    })
                    &&& forall|c2: u128|
                        c2 != cid ==> #[trigger] final(self).members_of(c2) == old(
                            self,
                        ).members_of(c2)
                },
                None => forall|c2: u128| #[trigger]
                    final(self).members_of(c2) == old(self).members_of(c2),
            },
            forall|a: SourceModule, b: SourceModule|
                #[trigger] final(self).pattern_occ(a, b) == scan_occ(
                    old(self).pattern_occ(a, b),
                    final(self).raw_events(),
                    event,
                    a,
                    b,
                ),
            forall|a: SourceModule, b: SourceModule|
                #[trigger] final(self).pattern_diffs(a, b) == scan_diffs(
                    old(self).pattern_diffs(a, b),
                    final(self).raw_events(),
                    event,
                    a,
                    b,
                ),
    {
        let ghost e0 = event;
        let event_id = event.common.event_id;
        let event_ts = event.common.timestamp_millis;
        let event_src = event.common.source_module;
        let correlation_id = event.common.correlation_id;

        // Store the event, replacing any prior copy with its id.
        match uassoc_find(&self.events, event_id) {
            Some(j) => {
                let ghost pre = self.events@;
                let entry = &mut self.events[j];
                entry.1 = event;
                proof {
                    assert(self.events@[j as int].1 == e0);
                    assert(self.events@ == pre.update(
                        j as int,
                        (pre[j as int].0, self.events@[j as int].1),
                    ));
                    lemma_uassoc_update(pre, j as int, self.events@[j as int].1, pre[j as int].0);
                    assert(ukeys_unique(self.events@));
                    assert forall|k2: u128|
                        uassoc_lookup(self.events@, k2) == (if k2 == event_id {
                            Some(self.events@[j as int].1)
                        } else {
                            uassoc_lookup(pre, k2)
                        }) by {
                        lemma_uassoc_update(pre, j as int, self.events@[j as int].1, k2);
                    }
                }
            },
            None => {
                let ghost pre = self.events@;
                let ghost eg = event;
                self.events.push((event_id, event));
                proof {
                    assert(self.events@ == pre.push((event_id, eg)));
                    lemma_uassoc_push(pre, event_id, eg, event_id);
                    assert(ukeys_unique(self.events@));
                    assert forall|k2: u128|
                        uassoc_lookup(self.events@, k2) == (if k2 == event_id {
                            Some(eg)
                        } else {
                            uassoc_lookup(pre, k2)
                        }) by {
                        lemma_uassoc_push(pre, event_id, eg, k2);
                    }
                }
            },
        }

        // Index by correlation id, if the event carries one.
        match correlation_id {
            None => {},
            Some(cid) => {
                match uassoc_find(&self.correlations, cid) {
                    Some(j) => {
                        let present = {
                            let members = &self.correlations[j].1;
                            contains_id(members, event_id)
                        };
                        if !present {
                            let ghost pre = self.correlations@;
                            let entry = &mut self.correlations[j];
                            entry.1.push(event_id);
                            proof {
                                assert(self.correlations@ == pre.update(
                                    j as int,
                                    (pre[j as int].0, self.correlations@[j as int].1),
                                ));
                                lemma_uassoc_update(
                                    pre,
                                    j as int,
                                    self.correlations@[j as int].1,
                                    pre[j as int].0,
                                );
                                assert(ukeys_unique(self.correlations@));
                                assert forall|k2: u128|
                                    uassoc_lookup(self.correlations@, k2) == (if k2 == cid {
                                        Some(self.correlations@[j as int].1)
                                    } else {
                                        uassoc_lookup(pre, k2)
                                    }) by {
                                    lemma_uassoc_update(
                                        pre,
                                        j as int,
                                        self.correlations@[j as int].1,
                                        k2,
                                    );
                                }
                            }
                        }
                    },
                    None => {
                        let ghost pre = self.correlations@;
                        let mut members: Vec<u128> = Vec::new();
                        members.push(event_id);
                        let ghost mg = members;
                        self.correlations.push((cid, members));
                        proof {
                            assert(self.correlations@ == pre.push((cid, mg)));
                            lemma_uassoc_push(pre, cid, mg, cid);
                            assert(ukeys_unique(self.correlations@));
                            assert forall|k2: u128|
                                uassoc_lookup(self.correlations@, k2) == (if k2 == cid {
                                    Some(mg)
                                } else {
                                    uassoc_lookup(pre, k2)
                                }) by {
                                lemma_uassoc_push(pre, cid, mg, k2);
                            }
                        }
                    },
                }
            },
        }

        // Temporal pass: record a co-occurrence against every other
        // retained event within the window.
        let ghost evs = self.events@;
        let ghost corr0 = self.correlations@;
        let n = self.events.len();
        let ghost pat0 = self.patterns@;
        let mut i: usize = 0;
        while i < n
            invariant
                n == self.events@.len(),
                evs == self.events@,
                corr0 == self.correlations@,
                self.config == old(self).config,
                event_id == e0.common.event_id,
                event_ts == e0.common.timestamp_millis,
                event_src == e0.common.source_module,
                ukeys_unique(self.patterns@),
                forall|q: int|
                    0 <= q < self.patterns@.len() ==> {
                        let p = (#[trigger] self.patterns@[q]).1;
                        &&& p.occurrences@.len() == p.time_diffs@.len()
                        &&& forall|t: int|
                            0 <= t < p.time_diffs@.len() ==> 0 <= #[trigger] p.time_diffs@[t]
                                <= 300
                    },
                0 <= i <= n,
                forall|a: SourceModule, b: SourceModule|
                    #[trigger] pattern_occ_of(self.patterns@, a, b) == scan_occ(
                        pattern_occ_of(pat0, a, b),
                        evs.take(i as int),
                        e0,
                        a,
                        b,
                    ),
                forall|a: SourceModule, b: SourceModule|
                    #[trigger] pattern_diffs_of(self.patterns@, a, b) == scan_diffs(
                        pattern_diffs_of(pat0, a, b),
                        evs.take(i as int),
                        e0,
                        a,
                        b,
                    ),
            decreases n - i,
        {
            proof {
                assert(evs.take(i + 1 as int).drop_last() =~= evs.take(i as int));
                assert(evs.take(i + 1 as int).last() == evs[i as int]);
            }
            let other_id = self.events[i].1.common.event_id;
            let other_ts = self.events[i].1.common.timestamp_millis;
            let other_src = self.events[i].1.common.source_module;
            let d: i128 = event_ts as i128 - other_ts as i128;
            let dabs: i128 = if d >= 0 {
                d
            } else {
                -d
            };
            if other_id != event_id && dabs <= CORRELATION_WINDOW_MILLIS as i128 {
                let diff_secs: i64 = (dabs / 1000) as i64;
                let pk: u128 = (module_code(event_src) as u128) * 8 + (module_code(other_src)
                    as u128);
                proof {
                    assert(pk == pair_key(event_src, other_src));
                    assert(event_id == e0.common.event_id);
                    assert(event_ts == e0.common.timestamp_millis);
                    assert(event_src == e0.common.source_module);
                    assert(other_id == evs[i as int].1.common.event_id);
                    assert(other_ts == evs[i as int].1.common.timestamp_millis);
                    assert(other_src == evs[i as int].1.common.source_module);
                    assert(dabs as int == abs_i(event_ts as int - other_ts as int));
                    assert(matches_scan(e0, evs[i as int].1, event_src, other_src));
                }
                match uassoc_find(&self.patterns, pk) {
                    Some(j) => {
                        let ghost pre = self.patterns@;
                        let entry = &mut self.patterns[j];
                        entry.1.occurrences.push(event_ts);
                        entry.1.time_diffs.push(diff_secs);
                        proof {
                            assert(self.patterns@ == pre.update(
                                j as int,
                                (pre[j as int].0, self.patterns@[j as int].1),
                            ));
                            lemma_uassoc_update(
                                pre,
                                j as int,
                                self.patterns@[j as int].1,
                                pre[j as int].0,
                            );
                            assert(ukeys_unique(self.patterns@));
                            assert forall|k2: u128|
                                uassoc_lookup(self.patterns@, k2) == (if k2 == pk {
                                    Some(self.patterns@[j as int].1)
                                } else {
                                    uassoc_lookup(pre, k2)
                                }) by {
                                lemma_uassoc_update(
                                    pre,
                                    j as int,
                                    self.patterns@[j as int].1,
                                    k2,
                                );
                            }
                            assert forall|a: SourceModule, b: SourceModule|
                                #[trigger] pattern_occ_of(self.patterns@, a, b) == scan_occ(
                                    pattern_occ_of(pat0, a, b),
                                    evs.take(i + 1 as int),
                                    e0,
                                    a,
                                    b,
                                ) by {
                                if pair_key(a, b) == pk {
                                    lemma_pair_key_injective(a, b, event_src, other_src);
                                    assert(a == event_src && b == other_src);
                                    assert(matches_scan(e0, evs.take(i + 1 as int).last().1, a, b));
                                    assert(pattern_occ_of(self.patterns@, a, b)
                                        == self.patterns@[j as int].1.occurrences@);
                                    assert(self.patterns@[j as int].1.occurrences@
                                        == pre[j as int].1.occurrences@.push(event_ts));
                                    assert(pattern_occ_of(pre, a, b)
                                        == pre[j as int].1.occurrences@);
                                    assert(scan_occ(
                                        pattern_occ_of(pat0, a, b),
                                        evs.take(i + 1 as int),
                                        e0,
                                        a,
                                        b,
                                    ) == scan_occ(
                                        pattern_occ_of(pat0, a, b),
                                        evs.take(i as int),
                                        e0,
                                        a,
                                        b,
                                    ).push(e0.common.timestamp_millis));
                                } else {
                                    assert(!matches_scan(e0, evs.take(i + 1 as int).last().1, a, b));
                                    assert(pattern_occ_of(self.patterns@, a, b)
                                        == pattern_occ_of(pre, a, b));
                                }
                            }
                            assert forall|a: SourceModule, b: SourceModule|
                                #[trigger] pattern_diffs_of(self.patterns@, a, b) == scan_diffs(
                                    pattern_diffs_of(pat0, a, b),
                                    evs.take(i + 1 as int),
                                    e0,
                                    a,
                                    b,
                                ) by {
                                if pair_key(a, b) == pk {
                                    lemma_pair_key_injective(a, b, event_src, other_src);
                                    assert(a == event_src && b == other_src);
                                    assert(matches_scan(e0, evs.take(i + 1 as int).last().1, a, b));
                                    assert(pattern_diffs_of(self.patterns@, a, b)
                                        == self.patterns@[j as int].1.time_diffs@);
                                    assert(self.patterns@[j as int].1.time_diffs@
                                        == pre[j as int].1.time_diffs@.push(diff_secs));
                                    assert(pattern_diffs_of(pre, a, b)
                                        == pre[j as int].1.time_diffs@);
                                    assert(0 <= abs_i(
                                        e0.common.timestamp_millis
                                            - evs.take(i + 1 as int).last().1.common.timestamp_millis,
                                    ) <= 300_000);
                                    assert(diff_secs as int == abs_i(
                                        e0.common.timestamp_millis
                                            - evs.take(i + 1 as int).last().1.common.timestamp_millis,
                                    ) / 1000);
                                    assert(scan_diffs(
                                        pattern_diffs_of(pat0, a, b),
                                        evs.take(i + 1 as int),
                                        e0,
                                        a,
                                        b,
                                    ) == scan_diffs(
                                        pattern_diffs_of(pat0, a, b),
                                        evs.take(i as int),
                                        e0,
                                        a,
                                        b,
                                    ).push(diff_secs));
                                } else {
                                    assert(!matches_scan(e0, evs.take(i + 1 as int).last().1, a, b));
                                    assert(pattern_diffs_of(self.patterns@, a, b)
                                        == pattern_diffs_of(pre, a, b));
                                }
                            }
                        }
                    },
                    None => {
                        let ghost pre = self.patterns@;
                        let mut occurrences: Vec<i64> = Vec::new();
                        occurrences.push(event_ts);
                        let mut time_diffs: Vec<i64> = Vec::new();
                        time_diffs.push(diff_secs);
                        let fresh = TemporalPattern { occurrences, time_diffs };
                        let ghost fg = fresh;
                        self.patterns.push((pk, fresh));
                        proof {
                            assert(self.patterns@ == pre.push((pk, fg)));
                            lemma_uassoc_push(pre, pk, fg, pk);
                            assert(ukeys_unique(self.patterns@));
                            assert forall|k2: u128|
                                uassoc_lookup(self.patterns@, k2) == (if k2 == pk {
                                    Some(fg)
                                } else {
                                    uassoc_lookup(pre, k2)
                                }) by {
                                lemma_uassoc_push(pre, pk, fg, k2);
                            }
                            assert(fg.occurrences@ =~= Seq::<i64>::empty().push(event_ts));
                            assert(fg.time_diffs@ =~= Seq::<i64>::empty().push(diff_secs));
                            assert forall|a: SourceModule, b: SourceModule|
                                #[trigger] pattern_occ_of(self.patterns@, a, b) == scan_occ(
                                    pattern_occ_of(pat0, a, b),
                                    evs.take(i + 1 as int),
                                    e0,
                                    a,
                                    b,
                                ) by {
                                if pair_key(a, b) == pk {
                                    lemma_pair_key_injective(a, b, event_src, other_src);
                                    assert(a == event_src && b == other_src);
                                    assert(matches_scan(e0, evs.take(i + 1 as int).last().1, a, b));
                                    assert(pattern_occ_of(pre, a, b) == Seq::<i64>::empty());
                                    assert(pattern_occ_of(self.patterns@, a, b) == fg.occurrences@);
                                    assert(scan_occ(
                                        pattern_occ_of(pat0, a, b),
                                        evs.take(i as int),
                                        e0,
                                        a,
                                        b,
                                    ) == Seq::<i64>::empty());
                                    assert(scan_occ(
                                        pattern_occ_of(pat0, a, b),
                                        evs.take(i + 1 as int),
                                        e0,
                                        a,
                                        b,
                                    ) == Seq::<i64>::empty().push(e0.common.timestamp_millis));
                                } else {
                                    assert(!matches_scan(e0, evs.take(i + 1 as int).last().1, a, b));
                                    assert(pattern_occ_of(self.patterns@, a, b)
                                        == pattern_occ_of(pre, a, b));
                                }
                            }
                            assert forall|a: SourceModule, b: SourceModule|
                                #[trigger] pattern_diffs_of(self.patterns@, a, b) == scan_diffs(
                                    pattern_diffs_of(pat0, a, b),
                                    evs.take(i + 1 as int),
                                    e0,
                                    a,
                                    b,
                                ) by {
                                if pair_key(a, b) == pk {
                                    lemma_pair_key_injective(a, b, event_src, other_src);
                                    assert(a == event_src && b == other_src);
                                    assert(matches_scan(e0, evs.take(i + 1 as int).last().1, a, b));
                                    assert(pattern_diffs_of(pre, a, b) == Seq::<i64>::empty());
                                    assert(pattern_diffs_of(self.patterns@, a, b)
                                        == fg.time_diffs@);
                                    assert(0 <= abs_i(
                                        e0.common.timestamp_millis
                                            - evs.take(i + 1 as int).last().1.common.timestamp_millis,
                                    ) <= 300_000);
                                    assert(diff_secs as int == abs_i(
                                        e0.common.timestamp_millis
                                            - evs.take(i + 1 as int).last().1.common.timestamp_millis,
                                    ) / 1000);
                                    assert(scan_diffs(
                                        pattern_diffs_of(pat0, a, b),
                                        evs.take(i as int),
                                        e0,
                                        a,
                                        b,
                                    ) == Seq::<i64>::empty());
                                    assert(scan_diffs(
                                        pattern_diffs_of(pat0, a, b),
                                        evs.take(i + 1 as int),
                                        e0,
                                        a,
                                        b,
                                    ) == Seq::<i64>::empty().push(diff_secs));
                                } else {
                                    assert(!matches_scan(e0, evs.take(i + 1 as int).last().1, a, b));
                                    assert(pattern_diffs_of(self.patterns@, a, b)
                                        == pattern_diffs_of(pre, a, b));
                                }
                            }
                        }
                    },
                }
            } else {
                proof {
                    assert(event_id == e0.common.event_id);
                    assert(other_id == evs[i as int].1.common.event_id);
                    assert(other_ts == evs[i as int].1.common.timestamp_millis);
                    assert(dabs as int == abs_i(event_ts as int - other_ts as int));
                    assert forall|a: SourceModule, b: SourceModule| !matches_scan(
                        e0,
                        evs[i as int].1,
                        a,
                        b,
                    ) by {}
                }
            }
            i = i + 1;
        }
        proof {
            assert(evs.take(n as int) =~= evs);
            assert(pat0 == old(self).patterns@);
            assert forall|a: SourceModule, b: SourceModule|
                #[trigger] self.pattern_occ(a, b) == scan_occ(
                    old(self).pattern_occ(a, b),
                    self.raw_events(),
                    e0,
                    a,
                    b,
                ) by {
                assert(pattern_occ_of(self.patterns@, a, b) == scan_occ(
                    pattern_occ_of(pat0, a, b),
                    evs.take(n as int),
                    e0,
                    a,
                    b,
                ));
                assert(self.pattern_occ(a, b) == pattern_occ_of(self.patterns@, a, b));
                assert(old(self).pattern_occ(a, b) == pattern_occ_of(pat0, a, b));
                assert(self.raw_events() == evs);
            }
            assert forall|a: SourceModule, b: SourceModule|
                #[trigger] self.pattern_diffs(a, b) == scan_diffs(
                    old(self).pattern_diffs(a, b),
                    self.raw_events(),
                    e0,
                    a,
                    b,
                ) by {
                assert(pattern_diffs_of(self.patterns@, a, b) == scan_diffs(
                    pattern_diffs_of(pat0, a, b),
                    evs.take(n as int),
                    e0,
                    a,
                    b,
                ));
                assert(self.pattern_diffs(a, b) == pattern_diffs_of(self.patterns@, a, b));
                assert(old(self).pattern_diffs(a, b) == pattern_diffs_of(pat0, a, b));
            }
        }
    }
}

/// The eviction pass against a clock reading: bodies older than the
/// retention horizon measured back from `now` are gone, the rest
/// stay.
pub open spec fn events_cleaned_at_clock(
    pre: CorrelationEngine,
    post: CorrelationEngine,
    retention_hours: i64,
    now: i64,
) -> bool {
    events_cleaned(pre, post, (now - retention_hours * 3_600_000) as i64)
}

/// Every metric retained in `post` is the `pre` event with a
/// timestamp after the cutoff; older bodies are evicted.
pub open spec fn events_cleaned(pre: CorrelationEngine, post: CorrelationEngine, cutoff: i64) -> bool {
    forall|id: u128|
        #[trigger] post.event_of(id) == match pre.event_of(id) {
            Some(e) => if e.common.timestamp_millis > cutoff {
                Some(e)
            } else {
                None::<AnalyticsEvent>
            },
            None => None::<AnalyticsEvent>,
        }
}

/// What building the graph of `correlation_id` at clock reading
/// `now` yields: `None` exactly when no member's body is retained;
/// otherwise one node per retained member carrying its envelope, and
/// exactly the causal edges of `edge_seq` - one per parent reference
/// that resolves among the nodes, each tagged Causal with full
/// confidence.
pub open spec fn graph_outcome(
    engine: CorrelationEngine,
    correlation_id: u128,
    now: i64,
    r: Option<EventGraph>,
) -> bool {
    let rets = retained_members(engine.members_of(correlation_id), engine.raw_events());
    match r {
        None => rets.len() == 0,
        Some(g) => {
            &&& rets.len() > 0
            &&& g.correlation_id.id == correlation_id
            &&& g.correlation_id.created_at_millis == now
            &&& g.nodes@.len() == rets.len()
            &&& forall|i: int|
                0 <= i < rets.len() ==> {
                    let ev = uassoc_lookup(engine.raw_events(), rets[i])->Some_0;
                    let node = #[trigger] g.nodes@[i];
                    &&& node.event_id == rets[i]
                    &&& node.timestamp_millis == ev.common.timestamp_millis
                    &&& node.source_module == ev.common.source_module
                    &&& node.event_type == ev.common.event_type
                    &&& node.severity == ev.common.severity
                }
            &&& g.edges@.len() == edge_seq(rets, engine.raw_events(), rets.len() as int).len()
            &&& forall|i: int|
                0 <= i < g.edges@.len() ==> {
                    let spec_edge = edge_seq(rets, engine.raw_events(), rets.len() as int)[i];
                    let edge = #[trigger] g.edges@[i];
                    &&& edge.from_event_id == spec_edge.0
                    &&& edge.to_event_id == spec_edge.1
                    &&& edge.correlation_type == CorrelationType::Causal
                    &&& edge.confidence_permille == 1000
                    &&& edge.latency_ms is None
                }
        },
    }
}

impl CorrelationEngine {
    /// The retained events of a correlation group: every member
    /// whose body is still held, in membership order. Members whose
    /// body has been evicted are silently omitted.
    pub fn get_correlated_events(&self, correlation_id: u128) -> (r: Vec<AnalyticsEvent>)
        requires
            self.inv(),
        ensures
            ({
                let rets = retained_members(self.members_of(correlation_id), self.raw_events());
                &&& r@.len() == rets.len()
                &&& forall|i: int|
                    0 <= i < rets.len() ==> {
                        let got = #[trigger] r@[i];
                        &&& got.common.event_id == rets[i]
                        &&& event_matches(got, self.event_of(rets[i])->Some_0)
                    }
            }),
    {
        let mut r: Vec<AnalyticsEvent> = Vec::new();
        let j: usize = match uassoc_find(&self.correlations, correlation_id) {
            None => {
                return r;
            },
            Some(j) => j,
        };
        let ghost ms = self.correlations@[j as int].1@;
        let ghost evs = self.events@;
        let n = self.correlations[j].1.len();
        let mut i: usize = 0;
        while i < n
            invariant
                self.inv(),
                j < self.correlations@.len(),
                ms == self.correlations@[j as int].1@,
                evs == self.events@,
                n == ms.len(),
                0 <= i <= n,
                r@.len() == retained_members(ms.take(i as int), evs).len(),
                forall|q: int|
                    0 <= q < retained_members(ms.take(i as int), evs).len() ==> {
                        let rets = retained_members(ms.take(i as int), evs);
                        let got = #[trigger] r@[q];
                        &&& got.common.event_id == rets[q]
                        &&& event_matches(got, uassoc_lookup(evs, rets[q])->Some_0)
                    },
            decreases n - i,
        {
            proof {
                assert(ms.take(i + 1 as int).drop_last() =~= ms.take(i as int));
                assert(ms.take(i + 1 as int).last() == ms[i as int]);
            }
            let member = self.correlations[j].1[i];
            match uassoc_find(&self.events, member) {
                Some(k) => {
                    let found = &self.events[k].1;
                    proof {
                        assert(found.common.event_id == member);
                    }
                    r.push(found.clone());
                },
                None => {},
            }
            i = i + 1;
        }
        proof {
            assert(ms.take(n as int) =~= ms);
        }
        r
    }

    /// Materialize the causal graph of a correlation group: one node
    /// per retained member, one causal edge per parent reference that
    /// points at another node; `None` when nothing is retained for
    /// the id. The graph records when it was built.
    pub fn build_correlation_graph_at(&self, correlation_id: u128, now_millis: i64) -> (r: Option<
        EventGraph,
    >)
        requires
            self.inv(),
        ensures
            graph_outcome(*self, correlation_id, now_millis, r),
    {
        let events = self.get_correlated_events(correlation_id);
        if events.len() == 0 {
            return None;
        }
        let ghost rets = retained_members(self.members_of(correlation_id), self.raw_events());
        let ghost evs = self.events@;
        proof {
            lemma_retained_members_lookup(self.members_of(correlation_id), self.raw_events());
        }

        let n = events.len();
        let mut ids: Vec<u128> = Vec::new();
        let mut nodes: Vec<EventNode> = Vec::new();
        let mut i: usize = 0;
        while i < n
            invariant
                n == events@.len() == rets.len(),
                0 <= i <= n,
                ids@.len() == i,
                nodes@.len() == i,
                forall|q: int| 0 <= q < i ==> #[trigger] ids@[q] == rets[q],
                forall|q: int| 0 <= q < n ==> (#[trigger] events@[q]).common.event_id == rets[q],
                forall|q: int|
                    0 <= q < n ==> {
                        let ev = uassoc_lookup(evs, rets[q])->Some_0;
                        let got = #[trigger] events@[q];
                        &&& got.common.timestamp_millis == ev.common.timestamp_millis
                        &&& got.common.source_module == ev.common.source_module
                        &&& got.common.event_type == ev.common.event_type
                        &&& got.common.severity == ev.common.severity
                        &&& got.common.parent_event_id == ev.common.parent_event_id
                    },
                forall|q: int|
                    0 <= q < i ==> {
                        let ev = uassoc_lookup(evs, rets[q])->Some_0;
                        let node = #[trigger] nodes@[q];
                        &&& node.event_id == rets[q]
                        &&& node.timestamp_millis == ev.common.timestamp_millis
                        &&& node.source_module == ev.common.source_module
                        &&& node.event_type == ev.common.event_type
                        &&& node.severity == ev.common.severity
                    },
            decreases n - i,
        {
            let ev = &events[i];
            ids.push(ev.common.event_id);
            nodes.push(
                EventNode {
                    event_id: ev.common.event_id,
                    timestamp_millis: ev.common.timestamp_millis,
                    source_module: ev.common.source_module,
                    event_type: ev.common.event_type,
                    severity: ev.common.severity,
                },
            );
            i = i + 1;
        }
        proof {
            assert(ids@ =~= rets);
        }

        let mut edges: Vec<EventEdge> = Vec::new();
        let mut k: usize = 0;
        while k < n
            invariant
                n == events@.len() == rets.len(),
                ids@ == rets,
                evs == self.events@,
                self.inv(),
                forall|q: int| 0 <= q < n ==> (#[trigger] events@[q]).common.event_id == rets[q],
                forall|q: int|
                    0 <= q < n ==> (#[trigger] events@[q]).common.parent_event_id
                        == uassoc_lookup(evs, rets[q])->Some_0.common.parent_event_id,
                forall|q: int| 0 <= q < n ==> uassoc_lookup(evs, #[trigger] rets[q]) is Some,
                0 <= k <= n,
                edges@.len() == edge_seq(rets, evs, k as int).len(),
                forall|q: int|
                    0 <= q < edges@.len() ==> {
                        let spec_edge = edge_seq(rets, evs, k as int)[q];
                        let edge = #[trigger] edges@[q];
                        &&& edge.from_event_id == spec_edge.0
                        &&& edge.to_event_id == spec_edge.1
                        &&& edge.correlation_type == CorrelationType::Causal
                        &&& edge.confidence_permille == 1000
                        &&& edge.latency_ms is None
                    },
            decreases n - k,
        {
            proof {
                assert(uassoc_lookup(evs, rets[k as int]) is Some);
            }
            let parent_opt = events[k].common.parent_event_id;
            match parent_opt {
                Some(p) => {
                    let present = contains_id(&ids, p);
                    if present {
                        let child = events[k].common.event_id;
                        edges.push(
                            EventEdge {
                                from_event_id: p,
                                to_event_id: child,
                                correlation_type: CorrelationType::Causal,
                                confidence_permille: 1000,
                                latency_ms: None,
                            },
                        );
                    }
                },
                None => {},
            }
            proof {
                let prev = edge_seq(rets, evs, k as int);
                let cur = edge_seq(rets, evs, k + 1 as int);
                assert forall|q: int|
                    0 <= q < edges@.len() implies {
                    let spec_edge = cur[q];
                    let edge = #[trigger] edges@[q];
                    &&& edge.from_event_id == spec_edge.0
                    &&& edge.to_event_id == spec_edge.1
                    &&& edge.correlation_type == CorrelationType::Causal
                    &&& edge.confidence_permille == 1000
                    &&& edge.latency_ms is None
                } by {
                    if q < prev.len() {
                        assert(cur[q] == prev[q]);
                    }
                }
            }
            k = k + 1;
        }

        Some(
            EventGraph {
                correlation_id: CorrelationId { id: correlation_id, created_at_millis: now_millis },
                nodes,
                edges,
            },
        )
    }

    /// `build_correlation_graph_at` against the wall clock: the
    /// whole graph outcome holds for some clock reading, which only
    /// the graph's creation stamp depends on.
    pub fn build_correlation_graph(&self, correlation_id: u128) -> (r: Option<EventGraph>)
        requires
            self.inv(),
        ensures
            exists|now: i64|
                0 <= now <= TS_LIMIT_MILLIS && #[trigger] graph_outcome(
                    *self,
                    correlation_id,
                    now,
                    r,
                ),
    {
        let raw = crate::clock::now_millis();
        let now = crate::num::clamp_i64(raw, 0, TS_LIMIT_MILLIS);
        let r = self.build_correlation_graph_at(correlation_id, now);
        proof {
            assert(graph_outcome(*self, correlation_id, now, r));
        }
        r
    }

    /// Cross-module correlation strength for the ordered pair
    /// (module1, module2): occurrence count, average absolute time
    /// gap in whole seconds, and the saturating confidence score.
    pub fn analyze_module_correlation(&self, module1: SourceModule, module2: SourceModule) -> (r:
        Option<CorrelationAnalysis>)
        requires
            self.inv(),
        ensures
            match r {
                None => !self.has_pattern(module1, module2),
                Some(a) => {
                    &&& self.has_pattern(module1, module2)
                    &&& a.module1 == module1
                    &&& a.module2 == module2
                    &&& a.correlation_count == self.pattern_occ(module1, module2).len()
                    &&& a.avg_time_diff_seconds == (if self.pattern_occ(module1, module2).len()
                        > 0 {
                        div_tz(
                            sum_of(self.pattern_diffs(module1, module2)),
                            self.pattern_occ(module1, module2).len() as int,
                        )
                    } else {
                        0
                    })
                    &&& a.confidence_permille == correlation_confidence(
                        self.pattern_occ(module1, module2).len() as int,
                    )
                },
            },
    {
        let pk: u128 = (module_code(module1) as u128) * 8 + (module_code(module2) as u128);
        proof {
            assert(pk == pair_key(module1, module2));
        }
        let j: usize = match uassoc_find(&self.patterns, pk) {
            None => {
                return None;
            },
            Some(j) => j,
        };
        let pattern = &self.patterns[j].1;
        let count = pattern.occurrences.len();

        let avg: i64 = if count > 0 {
            let dn = pattern.time_diffs.len();
            let mut sum: u128 = 0;
            let mut q: usize = 0;
            while q < dn
                invariant
                    dn == pattern.time_diffs@.len(),
                    forall|t: int|
                        0 <= t < dn ==> 0 <= #[trigger] pattern.time_diffs@[t] <= 300,
                    0 <= q <= dn,
                    sum == sum_of(pattern.time_diffs@.take(q as int)),
                    0 <= sum <= q * 300,
                decreases dn - q,
            {
                proof {
                    assert(pattern.time_diffs@.take(q + 1 as int).drop_last()
                        =~= pattern.time_diffs@.take(q as int));
                    assert(pattern.time_diffs@.take(q + 1 as int).last()
                        == pattern.time_diffs@[q as int]);
                }
                sum = sum + pattern.time_diffs[q] as u128;
                q = q + 1;
            }
            proof {
                assert(pattern.time_diffs@.take(dn as int) =~= pattern.time_diffs@);
                assert(dn == count);
                crate::num::lemma_div_tz_bounded(sum as int, count as int, 300);
                vstd::arithmetic::div_mod::lemma_div_pos_is_pos(sum as int, count as int);
            }
            (sum / (count as u128)) as i64
        } else {
            0
        };

        let confidence: u32 = if count >= 100 {
            1000
        } else {
            9 * (count as u32) + 100
        };

        Some(
            CorrelationAnalysis {
                module1,
                module2,
                correlation_count: count,
                avg_time_diff_seconds: avg,
                confidence_permille: confidence,
            },
        )
    }

    /// Evict retained event bodies older than the cutoff, returning
    /// how many were evicted. Correlation-id membership and temporal
    /// patterns are left as they are.
    #[verifier::rlimit(100)]
    pub fn cleanup_events_before(&mut self, cutoff_millis: i64) -> (removed: usize)
        requires
            old(self).inv(),
        ensures
            final(self).inv(),
            final(self).spec_config() == old(self).spec_config(),
            events_cleaned(*old(self), *final(self), cutoff_millis),
            removed as int == old(self).raw_events().len() - final(self).raw_events().len(),
            forall|cid: u128| #[trigger] final(self).members_of(cid) == old(self).members_of(cid),
            forall|a: SourceModule, b: SourceModule|
                #[trigger] final(self).pattern_occ(a, b) == old(self).pattern_occ(a, b)
                    && final(self).pattern_diffs(a, b) == old(self).pattern_diffs(a, b)
                    && (final(self).has_pattern(a, b) <==> old(self).has_pattern(a, b)),
    {
        let ghost orig = self.events@;
        let n_saved = self.events.len();
        let ghost mut j: int = 0;
        let mut i: usize = 0;
        while i < self.events.len()
            invariant
                old(self).inv(),
                orig == old(self).events@,
                self.config == old(self).config,
                self.correlations@ == old(self).correlations@,
                self.patterns@ == old(self).patterns@,
                0 <= i <= self.events@.len(),
                i <= j <= orig.len(),
                self.events@.len() - i == orig.len() - j,
                self.events@.subrange(i as int, self.events@.len() as int) == orig.subrange(
                    j,
                    orig.len() as int,
                ),
                ukeys_unique(self.events@),
                forall|q: int|
                    0 <= q < self.events@.len() ==> (#[trigger] self.events@[q]).0
                        == self.events@[q].1.common.event_id,
                forall|id: u128|
                    #[trigger] uassoc_lookup(self.events@.take(i as int), id) == match
                        uassoc_lookup(orig.take(j), id) {
                        Some(e) => if e.common.timestamp_millis > cutoff_millis {
                            Some(e)
                        } else {
                            None::<AnalyticsEvent>
                        },
                        None => None::<AnalyticsEvent>,
                    },
            decreases self.events@.len() - i,
        {
            proof {
                assert(self.events@.subrange(i as int, self.events@.len() as int)[0]
                    == self.events@[i as int]);
                assert(orig.subrange(j, orig.len() as int)[0] == orig[j]);
                assert(self.events@[i as int] == orig[j]);
                assert(orig.take(j + 1).drop_last() =~= orig.take(j));
                assert(orig.take(j + 1).last() == orig[j]);
                crate::kv_u::lemma_uassoc_lookup_at(orig, j);
                assert(forall|q: int| 0 <= q < j ==> (#[trigger] orig[q]).0 != orig[j].0);
                crate::kv_u::lemma_uassoc_lookup_none(orig.take(j), orig[j].0);
                assert(uassoc_lookup(self.events@.take(i as int), orig[j].0) is None);
                assert forall|id2: u128|
                    #[trigger] uassoc_lookup(orig.take(j + 1), id2) == (if id2 == orig[j].0 {
                        Some(orig[j].1)
                    } else {
                        uassoc_lookup(orig.take(j), id2)
                    }) by {}
            }
            let ts = self.events[i].1.common.timestamp_millis;
            if ts > cutoff_millis {
                proof {
                    let pre = self.events@;
                    assert(pre.take(i + 1 as int) =~= pre.take(i as int).push(orig[j]));
                    assert forall|id2: u128|
                        uassoc_lookup(pre.take(i + 1 as int), id2) == (if id2 == orig[j].0 {
                            Some(orig[j].1)
                        } else {
                            uassoc_lookup(pre.take(i as int), id2)
                        }) by {
                        assert forall|q: int|
                            0 <= q < pre.take(i as int).len() implies (#[trigger] pre.take(
                            i as int,
                        )[q]).0 != orig[j].0 by {
                            if pre.take(i as int)[q].0 == orig[j].0 {
                                crate::kv_u::lemma_uassoc_lookup_at(pre.take(i as int), q);
                            }
                        }
                        lemma_uassoc_push(pre.take(i as int), orig[j].0, orig[j].1, id2);
                    }
                    assert forall|t: int|
                        0 <= t < pre.len() - i - 1 implies #[trigger] pre.subrange(
                        i + 1 as int,
                        pre.len() as int,
                    )[t] == orig.subrange(j + 1, orig.len() as int)[t] by {
                        assert(pre.subrange(i + 1 as int, pre.len() as int)[t] == pre[i + 1 + t]);
                        assert(pre[i + 1 + t] == pre.subrange(i as int, pre.len() as int)[t + 1]);
                        assert(orig.subrange(j, orig.len() as int)[t + 1] == orig[j + 1 + t]);
                        assert(orig.subrange(j + 1, orig.len() as int)[t] == orig[j + 1 + t]);
                    }
                    assert(pre.subrange(i + 1 as int, pre.len() as int) =~= orig.subrange(
                        j + 1,
                        orig.len() as int,
                    ));
                    assert forall|id2: u128|
                        #[trigger] uassoc_lookup(self.events@.take(i + 1 as int), id2) == match
                            uassoc_lookup(orig.take(j + 1), id2) {
                            Some(e) => if e.common.timestamp_millis > cutoff_millis {
                                Some(e)
                            } else {
                                None::<AnalyticsEvent>
                            },
                            None => None::<AnalyticsEvent>,
                        } by {
                        assert(uassoc_lookup(self.events@.take(i as int), id2) == match
                            uassoc_lookup(orig.take(j), id2) {
                            Some(e) => if e.common.timestamp_millis > cutoff_millis {
                                Some(e)
                            } else {
                                None::<AnalyticsEvent>
                            },
                            None => None::<AnalyticsEvent>,
                        });
                    }
                }
                i = i + 1;
                proof {
                    j = j + 1;
                }
            } else {
                let ghost pre = self.events@;
                self.events.remove(i);
                proof {
                    assert(self.events@ =~= pre.remove(i as int));
                    assert(self.events@.take(i as int) =~= pre.take(i as int));
                    assert forall|t: int|
                        0 <= t < self.events@.len() - i implies #[trigger] self.events@.subrange(
                        i as int,
                        self.events@.len() as int,
                    )[t] == orig.subrange(j + 1, orig.len() as int)[t] by {
                        assert(self.events@.subrange(i as int, self.events@.len() as int)[t]
                            == self.events@[i + t]);
                        assert(self.events@[i + t] == pre[i + t + 1]);
                        assert(pre[i + t + 1] == pre.subrange(i as int, pre.len() as int)[t + 1]);
                        assert(orig.subrange(j, orig.len() as int)[t + 1] == orig[j + 1 + t]);
                        assert(orig.subrange(j + 1, orig.len() as int)[t] == orig[j + 1 + t]);
                    }
                    assert(self.events@.subrange(i as int, self.events@.len() as int)
                        =~= orig.subrange(j + 1, orig.len() as int));
                    assert forall|id2: u128|
                        #[trigger] uassoc_lookup(self.events@.take(i as int), id2) == match
                            uassoc_lookup(orig.take(j + 1), id2) {
                            Some(e) => if e.common.timestamp_millis > cutoff_millis {
                                Some(e)
                            } else {
                                None::<AnalyticsEvent>
                            },
                            None => None::<AnalyticsEvent>,
                        } by {
                        assert(uassoc_lookup(pre.take(i as int), id2) == match uassoc_lookup(
                            orig.take(j),
                            id2,
                        ) {
                            Some(e) => if e.common.timestamp_millis > cutoff_millis {
                                Some(e)
                            } else {
                                None::<AnalyticsEvent>
                            },
                            None => None::<AnalyticsEvent>,
                        });
                        assert(uassoc_lookup(self.events@.take(i as int), id2) == uassoc_lookup(
                            pre.take(i as int),
                            id2,
                        ));
                    }
                    assert forall|a2: int, b2: int|
                        0 <= a2 < b2 < self.events@.len() implies (#[trigger] self.events@[
                        a2
                    ]).0 != (#[trigger] self.events@[b2]).0 by {
                        let a0 = if a2 < i as int {
                            a2
                        } else {
                            a2 + 1
                        };
                        let b0 = if b2 < i as int {
                            b2
                        } else {
                            b2 + 1
                        };
                        assert(self.events@[a2] == pre[a0]);
                        assert(self.events@[b2] == pre[b0]);
                    }
                    j = j + 1;
                }
            }
        }
        proof {
            assert(orig.take(orig.len() as int) =~= orig);
            assert(self.events@.take(self.events@.len() as int) =~= self.events@);
            assert(j == orig.len());
        }
        let removed = n_saved - self.events.len();
        removed
    }

    /// `cleanup_events_before` against the wall clock, with the
    /// cutoff a whole number of hours in the past.
    pub fn cleanup_old_events(&mut self, retention_hours: i64) -> (removed: usize)
        requires
            old(self).inv(),
            0 <= retention_hours <= 1_000_000,
        ensures
            final(self).inv(),
            final(self).spec_config() == old(self).spec_config(),
            removed as int == old(self).raw_events().len() - final(self).raw_events().len(),
            forall|cid: u128| #[trigger] final(self).members_of(cid) == old(self).members_of(cid),
            forall|a: SourceModule, b: SourceModule|
                #[trigger] final(self).pattern_occ(a, b) == old(self).pattern_occ(a, b)
                    && final(self).pattern_diffs(a, b) == old(self).pattern_diffs(a, b)
                    && (final(self).has_pattern(a, b) <==> old(self).has_pattern(a, b)),
            exists|now: i64|
                0 <= now <= TS_LIMIT_MILLIS && #[trigger] events_cleaned_at_clock(
                    *old(self),
                    *final(self),
                    retention_hours,
                    now,
                ),
    {
        let raw = crate::clock::now_millis();
        let now = crate::num::clamp_i64(raw, 0, TS_LIMIT_MILLIS);
        let cutoff = now - retention_hours * 3_600_000;
        let removed = self.cleanup_events_before(cutoff);
        proof {
            assert(events_cleaned_at_clock(*old(self), *self, retention_hours, now));
        }
        removed
    }

    /// Counters: correlation groups, retained events, and module
    /// pairs with a temporal pattern.
    pub fn get_stats(&self) -> (r: CorrelationStats)
        requires
            self.inv(),
        ensures
            r.total_correlations == self.correlations_len(),
            r.total_events == self.raw_events().len(),
            r.total_patterns == self.patterns_len(),
    {
        CorrelationStats {
            total_correlations: self.correlations.len(),
            total_events: self.events.len(),
            total_patterns: self.patterns.len(),
        }
    }

    pub closed spec fn correlations_len(&self) -> int {
        self.correlations@.len() as int
    }

    pub closed spec fn patterns_len(&self) -> int {
        self.patterns@.len() as int
    }
}

/// The occurrence column of the pattern stored under (a, b) in a raw
/// pattern table.
pub open spec fn pattern_occ_of(
    ps: Seq<(u128, TemporalPattern)>,
    a: SourceModule,
    b: SourceModule,
) -> Seq<i64> {
    match uassoc_lookup(ps, pair_key(a, b)) {
        Some(p) => p.occurrences@,
        None => Seq::empty(),
    }
}

/// The time-gap column of the pattern stored under (a, b).
pub open spec fn pattern_diffs_of(
    ps: Seq<(u128, TemporalPattern)>,
    a: SourceModule,
    b: SourceModule,
) -> Seq<i64> {
    match uassoc_lookup(ps, pair_key(a, b)) {
        Some(p) => p.time_diffs@,
        None => Seq::empty(),
    }
}

/// Whether `x` occurs in `v`.
pub fn contains_id(v: &Vec<u128>, x: u128) -> (r: bool)
    ensures
        r == v@.contains(x),
{
    let n = v.len();
    let mut i: usize = 0;
    while i < n
        invariant
            n == v@.len(),
            0 <= i <= n,
            forall|q: int| 0 <= q < i ==> #[trigger] v@[q] != x,
        decreases n - i,
    {
        if v[i] == x {
            return true;
        }
        i = i + 1;
    }
    false
}

} // verus!
