use crate::analytics_config::AnalyticsConfig;
use crate::kv::{
    assoc_find, assoc_lookup, keys_unique, lemma_assoc_push, lemma_assoc_remove,
    lemma_assoc_update,
};
use crate::num::{abs_i, div_tz};
use crate::window::{
    evict_push, mean_of, stddev_of, window_mean, window_stddev, SampleWindow, TS_LIMIT_MILLIS,
    VALUE_LIMIT_MICROS,
};
use vstd::prelude::*;

verus! {

/// Kind of a detected anomaly; the classification rule is
/// deterministic and the kinds are mutually exclusive. `Pattern` is a
/// reserved kind that the z-score detector never produces.
#[derive(Clone, Copy, Debug, PartialEq, Eq, Structural)]
pub enum AnomalyType {
    Spike,
    Drop,
    HighValue,
    LowValue,
    Pattern,
}

/// Severity of a detected anomaly, totally ordered.
#[derive(Clone, Copy, Debug, PartialEq, Eq, PartialOrd, Ord, Structural)]
pub enum AnomalySeverity {
    Low,
    Medium,
    High,
    Critical,
}

/// A point-in-time detection record. Values are micro-units,
/// timestamps milliseconds; `deviation_micros` is the z-score in
/// micro-units (2_500_000 stands for a z-score of 2.5).
#[derive(Debug)]
pub struct Anomaly {
    pub metric_name: String,
    pub timestamp_millis: i64,
    pub value_micros: i64,
    pub expected_micros: i64,
    pub deviation_micros: i64,
    pub anomaly_type: AnomalyType,
    pub severity: AnomalySeverity,
}

impl Clone for Anomaly {
    fn clone(&self) -> (res: Self)
        ensures
            res == *self,
    {
        Anomaly {
            metric_name: self.metric_name.clone(),
            timestamp_millis: self.timestamp_millis,
            value_micros: self.value_micros,
            expected_micros: self.expected_micros,
            deviation_micros: self.deviation_micros,
            anomaly_type: self.anomaly_type,
            severity: self.severity,
        }
    }
}

/// Counters describing the detector's state.
#[derive(Clone, Copy, Debug, PartialEq, Eq, Structural)]
pub struct DetectorStats {
    pub total_metrics: usize,
    pub total_anomalies: usize,
    pub active_baselines: usize,
}

/// The z-score threshold for a sensitivity in permille: sensitivity
/// 0 asks for 3.0, sensitivity 1000 for 1.0 (higher sensitivity means
/// more detections). In micro-units.
pub open spec fn threshold_micros(sensitivity_permille: u32) -> int {
    3_000_000 - 2000 * sensitivity_permille
}

/// Whether the freshly extended window `w` flags its newest value as
/// anomalous: at least ten samples are held and the z-score of the
/// new value against the window's statistics exceeds the threshold.
/// The comparison `|v - mean| / stddev > threshold` is carried out
/// exactly, by cross-multiplication.
pub open spec fn is_anomalous(w: Seq<i64>, value: i64, sensitivity_permille: u32) -> bool {
    &&& w.len() >= 10
    &&& abs_i(value - mean_of(w)) * 1_000_000 > threshold_micros(sensitivity_permille)
        * stddev_of(w)
}

/// The z-score of `value` against the window, truncated, in
/// micro-units.
pub open spec fn deviation_of(w: Seq<i64>, value: i64) -> int {
    div_tz(abs_i(value - mean_of(w)) * 1_000_000, stddev_of(w))
}

/// The deterministic classification rule: above the mean, a value
/// more than one and a half times the immediately preceding value is
/// a spike, otherwise a high value; below the mean, a value under
/// half the preceding value is a drop, otherwise a low value.
pub open spec fn classify(value: i64, mean: int, previous: i64) -> AnomalyType {
    if value > mean {
        if 2 * value > 3 * previous {
            AnomalyType::Spike
        } else {
            AnomalyType::HighValue
        }
    } else {
        if 2 * value < previous {
            AnomalyType::Drop
        } else {
            AnomalyType::LowValue
        }
    }
}

/// Severity from the z-score (in micro-units): above 5 critical,
/// above 4 high, above 3 medium, otherwise low.
pub open spec fn severity_of(deviation_micros: int) -> AnomalySeverity {
    if deviation_micros > 5_000_000 {
        AnomalySeverity::Critical
    } else if deviation_micros > 4_000_000 {
        AnomalySeverity::High
    } else if deviation_micros > 3_000_000 {
        AnomalySeverity::Medium
    } else {
        AnomalySeverity::Low
    }
}

/// Total number of anomalies across all per-metric logs.
pub open spec fn logs_total(s: Seq<(String, Vec<Anomaly>)>) -> int
    decreases s.len(),
{
    if s.len() == 0 {
        0
    } else {
        logs_total(s.drop_last()) + s.last().1@.len()
    }
}

/// All logged anomalies, in per-metric log order.
pub open spec fn logs_flat(s: Seq<(String, Vec<Anomaly>)>) -> Seq<Anomaly>
    decreases s.len(),
{
    if s.len() == 0 {
        Seq::empty()
    } else {
        logs_flat(s.drop_last()) + s.last().1@
    }
}

/// Statistical anomaly detector: one rolling baseline per metric,
/// plus a per-metric append-only log of the detections.
pub struct AnomalyDetector {
    config: AnalyticsConfig,
    baselines: Vec<(String, SampleWindow)>,
    anomalies: Vec<(String, Vec<Anomaly>)>,
}

impl AnomalyDetector {
    pub closed spec fn inv(&self) -> bool {
        &&& self.config.inv()
        &&& keys_unique(self.baselines@)
        &&& keys_unique(self.anomalies@)
        &&& forall|i: int|
            0 <= i < self.baselines@.len() ==> (#[trigger] self.baselines@[i].1).inv()
                && self.baselines@[i].1.capacity == self.config.baseline_capacity
    }

    /// The retained window of values for a metric, if any.
    pub closed spec fn baseline_of(&self, name: Seq<char>) -> Option<Seq<i64>> {
        match assoc_lookup(self.baselines@, name) {
            Some(w) => Some(w.values@),
            None => None,
        }
    }

    /// The anomaly log of a metric, oldest first.
    pub closed spec fn log_of(&self, name: Seq<char>) -> Seq<Anomaly> {
        match assoc_lookup(self.anomalies@, name) {
            Some(v) => v@,
            None => Seq::empty(),
        }
    }

    /// The configured sensitivity, in permille.
    pub open spec fn sensitivity(&self) -> u32 {
        self.spec_config().anomaly_sensitivity_permille
    }

    /// The configured baseline capacity.
    pub open spec fn capacity(&self) -> int {
        self.spec_config().baseline_capacity as int
    }

    pub closed spec fn spec_config(&self) -> AnalyticsConfig {
        self.config
    }

    pub fn new(config: AnalyticsConfig) -> (r: Self)
        requires
            config.inv(),
        ensures
            r.inv(),
            r.spec_config() == config,
            forall|name: Seq<char>| #[trigger] r.baseline_of(name) is None,
            forall|name: Seq<char>| #[trigger] r.log_of(name) == Seq::<Anomaly>::empty(),
    {
        AnomalyDetector { config, baselines: Vec::new(), anomalies: Vec::new() }
    }

    /// The window the metric would hold after this value is added.
    pub open spec fn pushed_baseline(&self, name: Seq<char>, value: i64) -> Seq<i64> {
        evict_push(
            match self.baseline_of(name) {
                Some(w) => w,
                None => Seq::empty(),
            },
            self.capacity(),
            value,
        )
    }

    /// Insert a value into the metric's baseline and flag it if it is
    /// a statistical outlier. No anomaly is reported before the tenth
    /// sample of a fresh baseline (warm-up). A reported anomaly is
    /// also appended to the metric's log.
    pub fn check_anomaly(&mut self, metric_name: &str, value_micros: i64, timestamp_millis: i64)
        -> (r: Option<Anomaly>)
        requires
            old(self).inv(),
            -VALUE_LIMIT_MICROS <= value_micros <= VALUE_LIMIT_MICROS,
            -TS_LIMIT_MILLIS <= timestamp_millis <= TS_LIMIT_MILLIS,
        ensures
            final(self).inv(),
            final(self).spec_config() == old(self).spec_config(),
            final(self).baseline_of(metric_name@) == Some(
                old(self).pushed_baseline(metric_name@, value_micros),
            ),
            forall|other: Seq<char>|
                other != metric_name@ ==> #[trigger] final(self).baseline_of(other) == old(
                    self,
                ).baseline_of(other),
            forall|other: Seq<char>|
                other != metric_name@ ==> #[trigger] final(self).log_of(other) == old(
                    self,
                ).log_of(other),
            ({
                let w = old(self).pushed_baseline(metric_name@, value_micros);
                match r {
                    Some(a) => {
                        &&& is_anomalous(w, value_micros, old(self).sensitivity())
                        &&& a.metric_name@ == metric_name@
                        &&& a.timestamp_millis == timestamp_millis
                        &&& a.value_micros == value_micros
                        &&& a.expected_micros == mean_of(w)
                        &&& a.deviation_micros == deviation_of(w, value_micros)
                        &&& a.anomaly_type == classify(
                            value_micros,
                            mean_of(w),
                            w[w.len() - 2],
                        )
                        &&& a.severity == severity_of(deviation_of(w, value_micros))
                        &&& final(self).log_of(metric_name@) == old(self).log_of(
                            metric_name@,
                        ).push(a)
                    },
                    None => {
                        &&& !is_anomalous(w, value_micros, old(self).sensitivity())
                        &&& final(self).log_of(metric_name@) == old(self).log_of(metric_name@)
                    },
                }
            }),
    {
        let key: String = metric_name.to_owned();
        let cap = self.config.baseline_capacity;
        let sens = self.config.anomaly_sensitivity_permille;

        // Feed the value into the metric's baseline window.
        let i: usize;
        match assoc_find(&self.baselines, &key) {
            Some(j) => {
                i = j;
                let ghost pre = self.baselines@;
                let entry = &mut self.baselines[i];
                entry.1.push(value_micros, timestamp_millis);
                proof {
                    assert(self.baselines@ == pre.update(
                        i as int,
                        (pre[i as int].0, self.baselines@[i as int].1),
                    ));
                    lemma_assoc_update(pre, i as int, self.baselines@[i as int].1, pre[i as int].0@);
                    assert(keys_unique(self.baselines@));
                    assert forall|k2: Seq<char>|
                        assoc_lookup(self.baselines@, k2) == (if k2 == pre[i as int].0@ {
                            Some(self.baselines@[i as int].1)
                        } else {
                            assoc_lookup(pre, k2)
                        }) by {
                        lemma_assoc_update(pre, i as int, self.baselines@[i as int].1, k2);
                    }
                }
            },
            None => {
                let mut w = SampleWindow::new(cap);
                w.push(value_micros, timestamp_millis);
                let ghost pre = self.baselines@;
                let ghost wg = w;
                self.baselines.push((key.clone(), w));
                i = self.baselines.len() - 1;
                proof {
                    assert(self.baselines@ == pre.push((self.baselines@[pre.len() as int].0, wg)));
                    lemma_assoc_push(pre, self.baselines@[pre.len() as int].0, wg, key@);
                    assert(keys_unique(self.baselines@));
                    assert forall|k2: Seq<char>|
                        assoc_lookup(self.baselines@, k2) == (if k2 == key@ {
                            Some(wg)
                        } else {
                            assoc_lookup(pre, k2)
                        }) by {
                        lemma_assoc_push(pre, self.baselines@[pre.len() as int].0, wg, k2);
                        assert(self.baselines@ == pre.push((
                            self.baselines@[pre.len() as int].0,
                            wg,
                        )));
                    }
                }
            },
        }

        let window = &self.baselines[i].1;
        let ghost w = window.values@;
        proof {
            assert(w == old(self).pushed_baseline(metric_name@, value_micros));
        }
        let n = window.values.len();
        if n < 10 {
            return None;
        }

        // Exact integer statistics over the current window.
        let mean = window_mean(&window.values);
        let stddev = window_stddev(&window.values, mean);
        let threshold: i64 = 3_000_000 - 2000 * (sens as i64);

        let diff: i128 = value_micros as i128 - mean as i128;
        let adiff: i128 = if diff >= 0 {
            diff
        } else {
            -diff
        };
        let lhs: i128 = adiff * 1_000_000;
        proof {
            assert(0 <= (threshold as i128) * (stddev as i128) <= 400_000_000_000_000_000_000)
                by (nonlinear_arith)
                requires
                    0 <= threshold as i128 <= 3_000_000,
                    0 <= stddev as i128 <= 130_000_000_000_000,
            ;
        }
        let rhs: i128 = (threshold as i128) * (stddev as i128);
        if lhs <= rhs {
            return None;
        }

        let deviation: i64 = (lhs / (stddev as i128)) as i64;
        proof {
            vstd::arithmetic::div_mod::lemma_div_pos_is_pos(lhs as int, stddev as int);
            vstd::arithmetic::div_mod::lemma_div_nonincreasing(lhs as int, stddev as int);
        }
        let previous = window.values[n - 2];
        let anomaly_type = if value_micros > mean {
            if 2 * (value_micros as i128) > 3 * (previous as i128) {
                AnomalyType::Spike
            } else {
                AnomalyType::HighValue
            }
        } else {
            if 2 * (value_micros as i128) < previous as i128 {
                AnomalyType::Drop
            } else {
                AnomalyType::LowValue
            }
        };
        let severity = if deviation > 5_000_000 {
            AnomalySeverity::Critical
        } else if deviation > 4_000_000 {
            AnomalySeverity::High
        } else if deviation > 3_000_000 {
            AnomalySeverity::Medium
        } else {
            AnomalySeverity::Low
        };

        let anomaly = Anomaly {
            metric_name: key.clone(),
            timestamp_millis,
            value_micros,
            expected_micros: mean,
            deviation_micros: deviation,
            anomaly_type,
            severity,
        };

        // Append to the metric's anomaly log.
        match assoc_find(&self.anomalies, &key) {
            Some(j) => {
                let ghost pre = self.anomalies@;
                let log = &mut self.anomalies[j];
                log.1.push(anomaly.clone());
                proof {
                    assert(self.anomalies@ == pre.update(
                        j as int,
                        (pre[j as int].0, self.anomalies@[j as int].1),
                    ));
                    lemma_assoc_update(pre, j as int, self.anomalies@[j as int].1, pre[j as int].0@);
                    assert(keys_unique(self.anomalies@));
                    assert forall|k2: Seq<char>|
                        assoc_lookup(self.anomalies@, k2) == (if k2 == pre[j as int].0@ {
                            Some(self.anomalies@[j as int].1)
                        } else {
                            assoc_lookup(pre, k2)
                        }) by {
                        lemma_assoc_update(pre, j as int, self.anomalies@[j as int].1, k2);
                    }
                }
            },
            None => {
                let ghost pre = self.anomalies@;
                let mut log: Vec<Anomaly> = Vec::new();
                log.push(anomaly.clone());
                let ghost lg = log;
                self.anomalies.push((key, log));
                proof {
                    assert(self.anomalies@ == pre.push((self.anomalies@[pre.len() as int].0, lg)));
                    lemma_assoc_push(pre, self.anomalies@[pre.len() as int].0, lg, metric_name@);
                    assert(keys_unique(self.anomalies@));
                    assert forall|k2: Seq<char>|
                        assoc_lookup(self.anomalies@, k2) == (if k2 == metric_name@ {
                            Some(lg)
                        } else {
                            assoc_lookup(pre, k2)
                        }) by {
                        lemma_assoc_push(pre, self.anomalies@[pre.len() as int].0, lg, k2);
                        assert(self.anomalies@ == pre.push((
                            self.anomalies@[pre.len() as int].0,
                            lg,
                        )));
                    }
                }
            },
        }

        Some(anomaly)
    }

    /// The most recent anomalies of one metric, newest first, at most
    /// `limit` of them.
    pub fn get_anomalies(&self, metric_name: &str, limit: usize) -> (r: Vec<Anomaly>)
        requires
            self.inv(),
        ensures
            ({
                let log = self.log_of(metric_name@);
                &&& r@.len() == (if limit as int <= log.len() {
                    limit as int
                } else {
                    log.len() as int
                })
                &&& forall|i: int| 0 <= i < r@.len() ==> r@[i] == log[log.len() - 1 - i]
            }),
    {
        let key: String = metric_name.to_owned();
        let mut r: Vec<Anomaly> = Vec::new();
        match assoc_find(&self.anomalies, &key) {
            None => r,
            Some(j) => {
                let log = &self.anomalies[j].1;
                let n = log.len();
                let count = if limit <= n {
                    limit
                } else {
                    n
                };
                let mut i: usize = 0;
                while i < count
                    invariant
                        count <= n == log@.len(),
                        0 <= i <= count,
                        r@.len() == i,
                        forall|q: int| 0 <= q < i ==> r@[q] == log@[n - 1 - q],
                    decreases count - i,
                {
                    r.push(log[n - 1 - i].clone());
                    i = i + 1;
                }
                r
            },
        }
    }

    /// All anomalies across all metrics, in descending order of
    /// timestamp, at most `limit` of them: a newest-first sort of
    /// the union of the per-metric logs, cut down to the caller's
    /// bound.
    pub fn get_all_anomalies(&self, limit: usize) -> (r: Vec<Anomaly>)
        requires
            self.inv(),
        ensures
            sorted_desc(r@),
            r@.len() == (if limit as int <= logs_flat(self.all_logs()).len() {
                limit as int
            } else {
                logs_flat(self.all_logs()).len() as int
            }),
            forall|i: int| 0 <= i < r@.len() ==> logs_flat(self.all_logs()).contains(#[trigger] r@[i]),
            sorted_cut_of(logs_flat(self.all_logs()), limit as int, r@),
    {
        let ghost flat = logs_flat(self.anomalies@);

        // Gather every logged anomaly.
        let mut all: Vec<Anomaly> = Vec::new();
        let outer = self.anomalies.len();
        let mut j: usize = 0;
        while j < outer
            invariant
                outer == self.anomalies@.len(),
                0 <= j <= outer,
                all@ == logs_flat(self.anomalies@.take(j as int)),
            decreases outer - j,
        {
            let log = &self.anomalies[j].1;
            let inner = log.len();
            let mut i: usize = 0;
            while i < inner
                invariant
                    j < outer == self.anomalies@.len(),
                    inner == log@.len(),
                    log == &self.anomalies@[j as int].1,
                    0 <= i <= inner,
                    all@ == logs_flat(self.anomalies@.take(j as int)) + log@.take(i as int),
                decreases inner - i,
            {
                all.push(log[i].clone());
                proof {
                    assert(log@.take(i + 1 as int) =~= log@.take(i as int).push(log@[i as int]));
                }
                i = i + 1;
            }
            proof {
                assert(self.anomalies@.take(j + 1 as int).drop_last() =~= self.anomalies@.take(
                    j as int,
                ));
                assert(self.anomalies@.take(j + 1 as int).last() == self.anomalies@[j as int]);
                assert(log@.take(inner as int) =~= log@);
            }
            j = j + 1;
        }
        proof {
            assert(self.anomalies@.take(outer as int) =~= self.anomalies@);
            assert(all@ == flat);
        }

        // Insertion sort, newest first.
        let total = all.len();
        let mut out: Vec<Anomaly> = Vec::new();
        proof {
            assert(flat.take(0) =~= Seq::<Anomaly>::empty());
        }
        let mut k: usize = 0;
        while k < total
            invariant
                total == all@.len(),
                all@ == flat,
                0 <= k <= total,
                out@.len() == k,
                sorted_desc(out@),
                out@.to_multiset() == flat.take(k as int).to_multiset(),
                forall|q: int| 0 <= q < out@.len() ==> flat.contains(#[trigger] out@[q]),
            decreases total - k,
        {
            let a = all[k].clone();
            proof {
                assert(flat.contains(flat[k as int]));
            }
            let mut p: usize = 0;
            while p < out.len() && out[p].timestamp_millis >= a.timestamp_millis
                invariant
                    0 <= p <= out@.len(),
                    forall|q: int|
                        0 <= q < p ==> (#[trigger] out@[q]).timestamp_millis
                            >= a.timestamp_millis,
                decreases out@.len() - p,
            {
                p = p + 1;
            }
            let ghost pre = out@;
            out.insert(p, a);
            proof {
                broadcast use vstd::seq_lib::group_to_multiset_ensures;

                assert(out@ == pre.insert(p as int, a));
                assert(out@.to_multiset() == pre.to_multiset().insert(a));
                assert(flat.take(k + 1 as int) =~= flat.take(k as int).push(flat[k as int]));
                assert(flat.take(k + 1 as int).to_multiset() == flat.take(
                    k as int,
                ).to_multiset().insert(flat[k as int]));
                assert forall|x: int, y: int| 0 <= x < y < out@.len() implies (#[trigger] out@[
                    x
                ]).timestamp_millis >= (#[trigger] out@[y]).timestamp_millis by {
                    if x < p && y < p {
                        assert(out@[x] == pre[x] && out@[y] == pre[y]);
                    } else if x < p && y == p {
                        assert(out@[x] == pre[x]);
                    } else if x < p && y > p {
                        assert(out@[x] == pre[x] && out@[y] == pre[y - 1]);
                        assert(pre[x].timestamp_millis >= a.timestamp_millis);
                        if (p as int) < pre.len() {
                            assert(pre[p as int].timestamp_millis < a.timestamp_millis);
                        }
                    } else if x == p {
                        assert(out@[y] == pre[y - 1]);
                        assert(pre[y - 1].timestamp_millis < a.timestamp_millis);
                    } else {
                        assert(out@[x] == pre[x - 1] && out@[y] == pre[y - 1]);
                    }
                }
            }
            k = k + 1;
        }

        // Caller-bounded count.
        proof {
            assert(flat.take(total as int) =~= flat);
        }
        let ghost full = out@;
        out.truncate(limit);
        proof {
            if limit as int <= flat.len() {
                assert forall|x: int, y: int| 0 <= x < y < out@.len() implies (#[trigger] out@[
                    x
                ]).timestamp_millis >= (#[trigger] out@[y]).timestamp_millis by {}
            }
            if limit as int <= full.len() {
                assert(out@ =~= full.take(limit as int));
            } else {
                assert(out@ =~= full.take(full.len() as int));
            }
            assert(full.to_multiset() == flat.to_multiset());
            assert(sorted_cut_of(flat, limit as int, out@));
        }
        out
    }

    /// Drop the metric's rolling window, forcing a fresh warm-up; the
    /// anomaly log is kept.
    pub fn reset_baseline(&mut self, metric_name: &str)
        requires
            old(self).inv(),
        ensures
            final(self).inv(),
            final(self).spec_config() == old(self).spec_config(),
            final(self).baseline_of(metric_name@) is None,
            forall|other: Seq<char>|
                other != metric_name@ ==> #[trigger] final(self).baseline_of(other) == old(
                    self,
                ).baseline_of(other),
            forall|name: Seq<char>| #[trigger] final(self).log_of(name) == old(self).log_of(name),
    {
        let key: String = metric_name.to_owned();
        match assoc_find(&self.baselines, &key) {
            None => {},
            Some(j) => {
                let ghost pre = self.baselines@;
                self.baselines.remove(j);
                proof {
                    lemma_assoc_remove(pre, j as int, key@);
                    assert forall|k2: Seq<char>|
                        assoc_lookup(self.baselines@, k2) == (if k2 == key@ {
                            None::<SampleWindow>
                        } else {
                            assoc_lookup(pre, k2)
                        }) by {
                        lemma_assoc_remove(pre, j as int, k2);
                    }
                }
            },
        }
    }

    /// Counters: how many metrics hold a baseline and how many
    /// anomalies have been logged in total (saturating at the machine
    /// limit).
    pub fn get_stats(&self) -> (r: DetectorStats)
        requires
            self.inv(),
        ensures
            r.total_metrics == self.tracked_metrics(),
            r.active_baselines == self.tracked_metrics(),
            r.total_anomalies as int == (if logs_total(self.all_logs()) <= usize::MAX as int {
                logs_total(self.all_logs())
            } else {
                usize::MAX as int
            }),
    {
        let n = self.anomalies.len();
        let mut acc: usize = 0;
        let mut j: usize = 0;
        while j < n
            invariant
                n == self.anomalies@.len(),
                0 <= j <= n,
                acc as int == (if logs_total(self.anomalies@.take(j as int)) <= usize::MAX as int {
                    logs_total(self.anomalies@.take(j as int))
                } else {
                    usize::MAX as int
                }),
            decreases n - j,
        {
            let len = self.anomalies[j].1.len();
            proof {
                assert(self.anomalies@.take(j + 1 as int).drop_last() =~= self.anomalies@.take(
                    j as int,
                ));
                assert(self.anomalies@.take(j + 1 as int).last() == self.anomalies@[j as int]);
                lemma_logs_total_nonneg(self.anomalies@.take(j as int));
            }
            acc = match acc.checked_add(len) {
                Some(s) => s,
                None => usize::MAX,
            };
            j = j + 1;
        }
        proof {
            assert(self.anomalies@.take(n as int) =~= self.anomalies@);
        }
        DetectorStats {
            total_metrics: self.baselines.len(),
            total_anomalies: acc,
            active_baselines: self.baselines.len(),
        }
    }

    /// The number of metrics with a live baseline.
    pub closed spec fn tracked_metrics(&self) -> int {
        self.baselines@.len() as int
    }

    /// The raw per-metric logs, for stating what the stats count.
    pub closed spec fn all_logs(&self) -> Seq<(String, Vec<Anomaly>)> {
        self.anomalies@
    }
}

/// `r` is the newest-first sort of `flat`, truncated to at most
/// `limit` records: some reordering of the whole log is sorted, and
/// `r` is its prefix of the bounded length.
pub open spec fn sorted_cut_of(flat: Seq<Anomaly>, limit: int, r: Seq<Anomaly>) -> bool {
    exists|full: Seq<Anomaly>|
        {
            &&& #[trigger] full.to_multiset() == flat.to_multiset()
            &&& sorted_desc(full)
            &&& r == full.take(
                if limit <= full.len() {
                    limit
                } else {
                    full.len() as int
                },
            )
        }
}

/// Newest-first order on anomaly records.
pub open spec fn sorted_desc(s: Seq<Anomaly>) -> bool {
    forall|i: int, j: int|
        0 <= i < j < s.len() ==> (#[trigger] s[i]).timestamp_millis >= (#[trigger] s[
            j
        ]).timestamp_millis
}

pub proof fn lemma_logs_total_nonneg(s: Seq<(String, Vec<Anomaly>)>)
    ensures
        logs_total(s) >= 0,
    decreases s.len(),
{
    if s.len() > 0 {
        lemma_logs_total_nonneg(s.drop_last());
    }
}

/// Warm-up: a window that holds fewer than ten samples never flags an
/// anomaly, whatever the value and whatever the sensitivity.
pub proof fn lemma_warmup_never_flags(w: Seq<i64>, value: i64, sensitivity_permille: u32)
    requires
        w.len() < 10,
    ensures
        !is_anomalous(w, value, sensitivity_permille),
{
}

} // verus!
