use crate::num::{abs_i, div_tz, isqrt_u128, lemma_div_tz_bounded, sqrt_floor};
use vstd::prelude::*;

verus! {

/// Largest magnitude of a metric value, in micro-units (one unit is
/// 1_000_000 micros, so this admits values up to a million units).
pub const VALUE_LIMIT_MICROS: i64 = 1_000_000_000_000;

/// Largest magnitude of a sample timestamp, in milliseconds.
pub const TS_LIMIT_MILLIS: i64 = 4_000_000_000_000_000;

/// Largest capacity a rolling window may be created with.
pub const MAX_WINDOW_CAPACITY: usize = 4096;

/// Rolling window of (value, timestamp) samples with a fixed capacity;
/// the oldest sample is evicted on overflow. Values are micro-units,
/// timestamps milliseconds.
pub struct SampleWindow {
    pub values: Vec<i64>,
    pub timestamps: Vec<i64>,
    pub capacity: usize,
}

pub open spec fn bounded_values(s: Seq<i64>) -> bool {
    forall|i: int|
        0 <= i < s.len() ==> -VALUE_LIMIT_MICROS <= #[trigger] s[i] <= VALUE_LIMIT_MICROS
}

pub open spec fn bounded_timestamps(s: Seq<i64>) -> bool {
    forall|i: int| 0 <= i < s.len() ==> -TS_LIMIT_MILLIS <= #[trigger] s[i] <= TS_LIMIT_MILLIS
}

/// The window `s` after appending `v` under capacity `cap`, evicting
/// the oldest entry when the window is full.
pub open spec fn evict_push(s: Seq<i64>, cap: int, v: i64) -> Seq<i64> {
    if s.len() >= cap {
        s.subrange(1, s.len() as int).push(v)
    } else {
        s.push(v)
    }
}

/// Number of leading entries of `ts` strictly before `cutoff`.
pub open spec fn leading_older(ts: Seq<i64>, cutoff: i64) -> int
    decreases ts.len(),
{
    if ts.len() == 0 {
        0
    } else if ts[0] >= cutoff {
        0
    } else {
        1 + leading_older(ts.subrange(1, ts.len() as int), cutoff)
    }
}

pub proof fn lemma_leading_older_le_len(ts: Seq<i64>, cutoff: i64)
    ensures
        0 <= leading_older(ts, cutoff) <= ts.len(),
    decreases ts.len(),
{
    if ts.len() > 0 && ts[0] < cutoff {
        lemma_leading_older_le_len(ts.subrange(1, ts.len() as int), cutoff);
    }
}

impl SampleWindow {
    /// Well-formedness: parallel value/timestamp columns within
    /// capacity, all samples within the fixed-point limits.
    pub open spec fn inv(&self) -> bool {
        &&& self.values@.len() == self.timestamps@.len()
        &&& self.values@.len() <= self.capacity
        &&& 1 <= self.capacity <= MAX_WINDOW_CAPACITY
        &&& bounded_values(self.values@)
        &&& bounded_timestamps(self.timestamps@)
    }

    pub open spec fn len(&self) -> int {
        self.values@.len() as int
    }

    pub fn new(capacity: usize) -> (r: SampleWindow)
        requires
            1 <= capacity <= MAX_WINDOW_CAPACITY,
        ensures
            r.inv(),
            r.values@ == Seq::<i64>::empty(),
            r.timestamps@ == Seq::<i64>::empty(),
            r.capacity == capacity,
    {
        SampleWindow { values: Vec::new(), timestamps: Vec::new(), capacity }
    }

    /// Append a sample, evicting the oldest when full.
    pub fn push(&mut self, value: i64, timestamp_millis: i64)
        requires
            old(self).inv(),
            -VALUE_LIMIT_MICROS <= value <= VALUE_LIMIT_MICROS,
            -TS_LIMIT_MILLIS <= timestamp_millis <= TS_LIMIT_MILLIS,
        ensures
            final(self).inv(),
            final(self).values@ == evict_push(
                old(self).values@,
                old(self).capacity as int,
                value,
            ),
            final(self).timestamps@ == evict_push(
                old(self).timestamps@,
                old(self).capacity as int,
                timestamp_millis,
            ),
            final(self).capacity == old(self).capacity,
            final(self).len() >= old(self).len(),
            final(self).len() <= final(self).capacity,
    {
        if self.values.len() >= self.capacity {
            self.values.remove(0);
            self.timestamps.remove(0);
        }
        self.values.push(value);
        self.timestamps.push(timestamp_millis);
        proof {
            assert(self.values@ =~= evict_push(
                old(self).values@,
                old(self).capacity as int,
                value,
            ));
            assert(self.timestamps@ =~= evict_push(
                old(self).timestamps@,
                old(self).capacity as int,
                timestamp_millis,
            ));
        }
    }

    /// Drop the samples older than `cutoff` from the front of the
    /// window, leaving the remainder in order.
    pub fn cleanup_before(&mut self, cutoff_millis: i64)
        requires
            old(self).inv(),
        ensures
            final(self).inv(),
            final(self).capacity == old(self).capacity,
            final(self).values@ == old(self).values@.subrange(
                leading_older(old(self).timestamps@, cutoff_millis),
                old(self).values@.len() as int,
            ),
            final(self).timestamps@ == old(self).timestamps@.subrange(
                leading_older(old(self).timestamps@, cutoff_millis),
                old(self).timestamps@.len() as int,
            ),
    {
        proof {
            lemma_leading_older_le_len(self.timestamps@, cutoff_millis);
        }
        let ghost orig_v = self.values@;
        let ghost orig_t = self.timestamps@;
        let ghost total = leading_older(orig_t, cutoff_millis);
        proof {
            assert(orig_v.subrange(0, orig_v.len() as int) =~= orig_v);
            assert(orig_t.subrange(0, orig_t.len() as int) =~= orig_t);
        }
        let mut dropped: usize = 0;
        loop
            invariant
                self.inv(),
                self.capacity == old(self).capacity,
                dropped <= total,
                total <= orig_t.len(),
                orig_v.len() == orig_t.len(),
                orig_t.len() <= MAX_WINDOW_CAPACITY,
                self.values@ == orig_v.subrange(dropped as int, orig_v.len() as int),
                self.timestamps@ == orig_t.subrange(dropped as int, orig_t.len() as int),
                leading_older(self.timestamps@, cutoff_millis) == total - dropped,
            ensures
                dropped == total,
            decreases total - dropped,
        {
            if self.timestamps.len() == 0 {
                break ;
            }
            let first = self.timestamps[0];
            if first >= cutoff_millis {
                break ;
            }
            proof {
                assert(leading_older(self.timestamps@, cutoff_millis) == 1 + leading_older(
                    self.timestamps@.subrange(1, self.timestamps@.len() as int),
                    cutoff_millis,
                ));
                lemma_leading_older_le_len(
                    self.timestamps@.subrange(1, self.timestamps@.len() as int),
                    cutoff_millis,
                );
            }
            let ghost pre_t = self.timestamps@;
            let ghost pre_v = self.values@;
            self.values.remove(0);
            self.timestamps.remove(0);
            proof {
                assert(self.timestamps@ =~= pre_t.subrange(1, pre_t.len() as int));
                assert(self.values@ =~= pre_v.subrange(1, pre_v.len() as int));
                assert(self.timestamps@ =~= orig_t.subrange(
                    dropped + 1 as int,
                    orig_t.len() as int,
                ));
                assert(self.values@ =~= orig_v.subrange(dropped + 1 as int, orig_v.len() as int));
            }
            dropped = dropped + 1;
        }
    }
}

/// The window that results from feeding the whole arrival history
/// through `evict_push` under capacity `cap`, starting empty.
pub open spec fn window_after(history: Seq<i64>, cap: int) -> Seq<i64>
    decreases history.len(),
{
    if history.len() == 0 {
        Seq::empty()
    } else {
        evict_push(window_after(history.drop_last(), cap), cap, history.last())
    }
}

/// Retention law: after any arrival history, the window holds
/// exactly the most recent values in arrival order - all of them
/// while they fit, and precisely the last `cap` once more than the
/// capacity have arrived.
pub proof fn lemma_window_keeps_most_recent(history: Seq<i64>, cap: int)
    requires
        cap >= 1,
    ensures
        window_after(history, cap).len() == (if history.len() <= cap {
            history.len() as int
        } else {
            cap
        }),
        window_after(history, cap) == history.subrange(
            if history.len() <= cap {
                0
            } else {
                history.len() - cap
            },
            history.len() as int,
        ),
    decreases history.len(),
{
    let n = history.len() as int;
    if n == 0 {
        assert(window_after(history, cap) =~= history.subrange(0, 0));
    } else {
        lemma_window_keeps_most_recent(history.drop_last(), cap);
        let prev = window_after(history.drop_last(), cap);
        let cur = window_after(history, cap);
        if n - 1 < cap {
            assert(prev.len() < cap);
            assert(cur == prev.push(history.last()));
            assert(cur =~= history.subrange(0, n));
        } else {
            assert(prev.len() == cap);
            assert(cur == prev.subrange(1, cap).push(history.last()));
            assert forall|t: int| 0 <= t < cap implies cur[t] == history.subrange(
                n - cap,
                n,
            )[t] by {
                if t < cap - 1 {
                    assert(cur[t] == prev[t + 1]);
                    assert(prev[t + 1] == history.drop_last().subrange(n - 1 - cap, n - 1)[t + 1]);
                    assert(history.drop_last().subrange(n - 1 - cap, n - 1)[t + 1] == history[n - 1
                        - cap + t + 1]);
                } else {
                    assert(cur[t] == history.last());
                }
            }
            assert(cur =~= history.subrange(n - cap, n));
        }
    }
}

/// Sum of the samples, as an unbounded integer.
pub open spec fn sum_of(s: Seq<i64>) -> int
    decreases s.len(),
{
    if s.len() == 0 {
        0
    } else {
        sum_of(s.drop_last()) + s.last()
    }
}

/// Mean of the samples, truncated toward zero.
pub open spec fn mean_of(s: Seq<i64>) -> int {
    div_tz(sum_of(s), s.len() as int)
}

/// Sum of squared deviations from `m`.
pub open spec fn sum_sq_diff(s: Seq<i64>, m: int) -> int
    decreases s.len(),
{
    if s.len() == 0 {
        0
    } else {
        sum_sq_diff(s.drop_last(), m) + (s.last() - m) * (s.last() - m)
    }
}

/// Sample variance with Bessel's correction (n - 1 divisor).
pub open spec fn variance_of(s: Seq<i64>) -> int {
    div_tz(sum_sq_diff(s, mean_of(s)), s.len() - 1)
}

/// Sample standard deviation in micro-units: one unit for degenerate
/// windows, otherwise the floor square root of the variance, floored
/// at 100 micros (a ten-thousandth of a unit) to avoid a zero divisor.
pub open spec fn stddev_of(s: Seq<i64>) -> int {
    if s.len() < 2 {
        1_000_000
    } else {
        let r = sqrt_floor(variance_of(s) as nat) as int;
        if r < 100 {
            100
        } else {
            r
        }
    }
}

pub proof fn lemma_sum_bound(s: Seq<i64>, m: int)
    requires
        m >= 0,
        forall|i: int| 0 <= i < s.len() ==> -m <= #[trigger] s[i] <= m,
    ensures
        -(s.len() * m) <= sum_of(s) <= s.len() * m,
    decreases s.len(),
{
    if s.len() > 0 {
        lemma_sum_bound(s.drop_last(), m);
        assert((s.len() - 1) * m + m == s.len() * m) by (nonlinear_arith);
    }
}

pub proof fn lemma_sum_sq_diff_bound(s: Seq<i64>, m: int, lim: int)
    requires
        lim >= 0,
        -lim <= m <= lim,
        forall|i: int| 0 <= i < s.len() ==> -lim <= #[trigger] s[i] <= lim,
    ensures
        0 <= sum_sq_diff(s, m) <= s.len() * (4 * lim * lim),
    decreases s.len(),
{
    if s.len() > 0 {
        lemma_sum_sq_diff_bound(s.drop_last(), m, lim);
        let d = s.last() - m;
        assert(0 <= d * d <= 4 * lim * lim) by (nonlinear_arith)
            requires
                -2 * lim <= d <= 2 * lim,
                lim >= 0,
        ;
        assert((s.len() - 1) * (4 * lim * lim) + 4 * lim * lim == s.len() * (4 * lim * lim))
            by (nonlinear_arith);
    }
}

/// The squared-deviation bound with the fixed-point limit written out.
pub proof fn lemma_sum_sq_diff_bound_fixed(s: Seq<i64>, m: int)
    requires
        -VALUE_LIMIT_MICROS <= m <= VALUE_LIMIT_MICROS,
        bounded_values(s),
    ensures
        0 <= sum_sq_diff(s, m) <= s.len() * 4_000_000_000_000_000_000_000_000,
{
    lemma_sum_sq_diff_bound(s, m, VALUE_LIMIT_MICROS as int);
    assert(s.len() * (4 * VALUE_LIMIT_MICROS as int * VALUE_LIMIT_MICROS as int) == s.len()
        * 4_000_000_000_000_000_000_000_000) by (nonlinear_arith)
        requires
            VALUE_LIMIT_MICROS as int == 1_000_000_000_000,
    ;
}

/// Mean of a non-empty bounded window, exactly `mean_of`.
pub fn window_mean(values: &Vec<i64>) -> (r: i64)
    requires
        0 < values@.len() <= MAX_WINDOW_CAPACITY,
        bounded_values(values@),
    ensures
        r == mean_of(values@),
        -VALUE_LIMIT_MICROS <= r <= VALUE_LIMIT_MICROS,
{
    let n = values.len();
    let mut sum: i128 = 0;
    let mut i: usize = 0;
    while i < n
        invariant
            0 < n == values@.len() <= MAX_WINDOW_CAPACITY,
            bounded_values(values@),
            0 <= i <= n,
            sum == sum_of(values@.subrange(0, i as int)),
            -(i as int * VALUE_LIMIT_MICROS) <= sum <= i as int * VALUE_LIMIT_MICROS,
        decreases n - i,
    {
        proof {
            assert(values@.subrange(0, i + 1 as int).drop_last() =~= values@.subrange(
                0,
                i as int,
            ));
            lemma_sum_bound(values@.subrange(0, i + 1 as int), VALUE_LIMIT_MICROS as int);
        }
        sum = sum + values[i] as i128;
        i = i + 1;
    }
    proof {
        assert(values@.subrange(0, n as int) =~= values@);
        lemma_div_tz_bounded(sum as int, n as int, VALUE_LIMIT_MICROS as int);
    }
    (sum / (n as i128)) as i64
}

/// Sample standard deviation of a bounded window, exactly `stddev_of`.
pub fn window_stddev(values: &Vec<i64>, mean: i64) -> (r: i64)
    requires
        0 < values@.len() <= MAX_WINDOW_CAPACITY,
        bounded_values(values@),
        mean == mean_of(values@),
    ensures
        r == stddev_of(values@),
        100 <= r <= 130_000_000_000_000,
{
    let n = values.len();
    proof {
        lemma_sum_bound(values@, VALUE_LIMIT_MICROS as int);
        lemma_div_tz_bounded(sum_of(values@), n as int, VALUE_LIMIT_MICROS as int);
    }
    if n < 2 {
        return 1_000_000;
    }
    let mut acc: i128 = 0;
    let mut i: usize = 0;
    while i < n
        invariant
            0 < n == values@.len() <= MAX_WINDOW_CAPACITY,
            bounded_values(values@),
            -VALUE_LIMIT_MICROS <= mean <= VALUE_LIMIT_MICROS,
            0 <= i <= n,
            acc == sum_sq_diff(values@.subrange(0, i as int), mean as int),
            0 <= acc <= i as int * 4_000_000_000_000_000_000_000_000,
        decreases n - i,
    {
        proof {
            assert(values@.subrange(0, i + 1 as int).drop_last() =~= values@.subrange(
                0,
                i as int,
            ));
            lemma_sum_sq_diff_bound_fixed(values@.subrange(0, i + 1 as int), mean as int);
        }
        let d: i128 = values[i] as i128 - mean as i128;
        proof {
            assert(d * d <= 4_000_000_000_000_000_000_000_000) by (nonlinear_arith)
                requires
                    -2_000_000_000_000 <= d <= 2_000_000_000_000,
            ;
            assert(d * d >= 0) by (nonlinear_arith);
        }
        acc = acc + d * d;
        i = i + 1;
    }
    proof {
        assert(values@.subrange(0, n as int) =~= values@);
        assert(acc <= (n - 1) as int * 16_384_000_000_000_000_000_000_000_000);
        lemma_div_tz_bounded(
            acc as int,
            (n - 1) as int,
            16_384_000_000_000_000_000_000_000_000,
        );
    }
    let variance: i128 = acc / ((n - 1) as i128);
    proof {
        assert((1u128 << 126) == 0x40000000000000000000000000000000u128) by (bit_vector);
    }
    let root: u128 = isqrt_u128(variance as u128);
    proof {
        assert(root as int <= 130_000_000_000_000) by (nonlinear_arith)
            requires
                root as int * root as int <= 16_384_000_000_000_000_000_000_000_000,
                root as int >= 0,
        ;
    }
    let r: i64 = root as i64;
    if r < 100 {
        100
    } else {
        r
    }
}

} // verus!
