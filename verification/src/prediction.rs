use crate::analytics_config::AnalyticsConfig;
use crate::errors::AnalyticsError;
use crate::kv::{
    assoc_find, assoc_lookup, keys_unique, lemma_assoc_push, lemma_assoc_remove,
    lemma_assoc_same_keys, lemma_assoc_update,
};
use crate::num::{div_tz, lemma_div_tz_bounded, lemma_mul_le};
use crate::window::{
    bounded_values, evict_push, SampleWindow, TS_LIMIT_MILLIS, VALUE_LIMIT_MICROS,
};
use vstd::prelude::*;

verus! {

/// Largest forecast horizon a single call may ask for.
pub const MAX_FORECAST_STEPS: usize = 10_000;

/// One forecast step. The value and its confidence band are in
/// micro-units; the confidence itself in permille.
#[derive(Clone, Copy, Debug, PartialEq, Eq, Structural)]
pub struct PredictionPoint {
    pub timestamp_millis: i64,
    pub value_micros: i128,
    pub confidence_permille: u32,
    pub lower_micros: i128,
    pub upper_micros: i128,
}

/// Counters describing the engine's state.
#[derive(Clone, Copy, Debug, PartialEq, Eq, Structural)]
pub struct PredictionStats {
    pub total_time_series: usize,
    pub total_cached_predictions: usize,
    pub total_prediction_points: usize,
}

struct CachedPrediction {
    points: Vec<PredictionPoint>,
    created_at_millis: i64,
}

/// Total forecast points across a cache table.
spec fn points_total(s: Seq<(String, CachedPrediction)>) -> int
    decreases s.len(),
{
    if s.len() == 0 {
        0
    } else {
        points_total(s.drop_last()) + s.last().1.points@.len()
    }
}

proof fn lemma_points_total_nonneg(s: Seq<(String, CachedPrediction)>)
    ensures
        points_total(s) >= 0,
    decreases s.len(),
{
    if s.len() > 0 {
        lemma_points_total_nonneg(s.drop_last());
    }
}

// ---------------------------------------------------------------
// The trend + seasonal forecast, as integer specifications.
// ---------------------------------------------------------------
/// Sum of the sample indices 0, 1, ..., n-1.
pub open spec fn sum_x(n: int) -> int
    decreases n,
{
    if n <= 0 {
        0
    } else {
        sum_x(n - 1) + (n - 1)
    }
}

/// Sum of the squared sample indices.
pub open spec fn sum_x2(n: int) -> int
    decreases n,
{
    if n <= 0 {
        0
    } else {
        sum_x2(n - 1) + (n - 1) * (n - 1)
    }
}

/// Sum of the samples.
pub open spec fn sum_y(s: Seq<i64>) -> int
    decreases s.len(),
{
    if s.len() == 0 {
        0
    } else {
        sum_y(s.drop_last()) + s.last()
    }
}

/// Sum of index-weighted samples.
pub open spec fn sum_xy(s: Seq<i64>) -> int
    decreases s.len(),
{
    if s.len() == 0 {
        0
    } else {
        sum_xy(s.drop_last()) + (s.len() - 1) * s.last()
    }
}

/// Least-squares slope over the history, in micro-units per step,
/// truncated. The denominator is positive for every history of two
/// or more points; the zero guard only mirrors the code's.
pub open spec fn slope_of(s: Seq<i64>) -> int {
    let n = s.len() as int;
    let num = n * sum_xy(s) - sum_x(n) * sum_y(s);
    let den = n * sum_x2(n) - sum_x(n) * sum_x(n);
    if den > 0 {
        div_tz(num, den)
    } else {
        0
    }
}

/// Least-squares intercept over the history, truncated.
pub open spec fn intercept_of(s: Seq<i64>) -> int {
    let n = s.len() as int;
    div_tz(sum_y(s) - slope_of(s) * sum_x(n), n)
}

/// The seasonal period: min(24, n / 2).
pub open spec fn period_of(n: int) -> int {
    if n / 2 < 24 {
        n / 2
    } else {
        24
    }
}

/// Sum of the samples at positions start, start + p, start + 2p, ...
pub open spec fn bucket_sum(s: Seq<i64>, start: int, p: int) -> int
    decreases s.len() + p - start
        when 1 <= p && 0 <= start
{
    if start >= s.len() {
        0
    } else {
        s[start] + bucket_sum(s, start + p, p)
    }
}

/// How many positions start, start + p, ... fall below `len`.
pub open spec fn bucket_count(len: int, start: int, p: int) -> int
    decreases len + p - start
        when 1 <= p && 0 <= start
{
    if start >= len {
        0
    } else {
        1 + bucket_count(len, start + p, p)
    }
}

/// Average of the samples in phase bucket `i`, truncated.
pub open spec fn bucket_avg(s: Seq<i64>, i: int, p: int) -> int {
    div_tz(bucket_sum(s, i, p), bucket_count(s.len() as int, i, p))
}

/// Sum of the first `i` bucket averages.
pub open spec fn bucket_avg_total(s: Seq<i64>, p: int, i: int) -> int
    decreases i,
{
    if i <= 0 {
        0
    } else {
        bucket_avg_total(s, p, i - 1) + bucket_avg(s, i - 1, p)
    }
}

/// Mean of the bucket averages, truncated.
pub open spec fn seasonal_mean_of(s: Seq<i64>, p: int) -> int {
    div_tz(bucket_avg_total(s, p, p), p)
}

/// The additive seasonal component at phase `i`: the bucket average
/// minus the mean of all bucket averages.
pub open spec fn seasonal_at(s: Seq<i64>, p: int, i: int) -> int {
    bucket_avg(s, i, p) - seasonal_mean_of(s, p)
}

/// Forecast confidence for step `step` of `total`, in permille:
/// starts at 950, decays linearly with the horizon, floored at 500.
pub open spec fn confidence_of(step: int, total: int) -> int {
    let c = 950 - (50 * step) / total;
    if c < 500 {
        500
    } else {
        c
    }
}

/// The projected value for `step` steps ahead: trend plus
/// seasonal-at-phase.
pub open spec fn forecast_value(s: Seq<i64>, step: int) -> int {
    let n = s.len() as int;
    let p = period_of(n);
    slope_of(s) * (n + step) + intercept_of(s) + seasonal_at(s, p, (n + step) % p)
}

/// The band half-width factor: bounds widen with 1 - confidence, a
/// tenth of it on each side, in ten-thousandths.
pub open spec fn forecast_lower(s: Seq<i64>, step: int, total: int) -> int {
    div_tz(forecast_value(s, step) * (10000 - (1000 - confidence_of(step, total))), 10000)
}

pub open spec fn forecast_upper(s: Seq<i64>, step: int, total: int) -> int {
    div_tz(forecast_value(s, step) * (10000 + (1000 - confidence_of(step, total))), 10000)
}

/// What a trend + seasonal forecast of `total` steps from history
/// `s` ending at `last_ts` must be: one point per step, minutes
/// apart, every field the exact integer statistic.
pub open spec fn arima_ok(s: Seq<i64>, last_ts: i64, total: int, pts: Seq<PredictionPoint>) -> bool {
    &&& pts.len() == total
    &&& forall|q: int|
        0 <= q < total ==> {
            let pt = #[trigger] pts[q];
            &&& pt.timestamp_millis == last_ts + (q + 1) * 60_000
            &&& pt.value_micros == forecast_value(s, q + 1)
            &&& pt.confidence_permille == confidence_of(q + 1, total)
            &&& pt.lower_micros == forecast_lower(s, q + 1, total)
            &&& pt.upper_micros == forecast_upper(s, q + 1, total)
        }
}

/// Forecast determinism: the forecast contract admits exactly one
/// result for a given history, end timestamp and horizon.
pub proof fn lemma_forecast_deterministic(
    s: Seq<i64>,
    last_ts: i64,
    total: int,
    pts1: Seq<PredictionPoint>,
    pts2: Seq<PredictionPoint>,
)
    requires
        arima_ok(s, last_ts, total, pts1),
        arima_ok(s, last_ts, total, pts2),
    ensures
        pts1 == pts2,
{
    assert forall|q: int| 0 <= q < total implies pts1[q] == pts2[q] by {}
    assert(pts1 =~= pts2);
}

// ---------------------------------------------------------------
// Exponential smoothing, as an integer specification.
// ---------------------------------------------------------------
/// The exponentially smoothed level after folding the whole history:
/// the first value to start, then
/// `level = (alpha * v + (1000 - alpha) * level) / 1000` per sample,
/// with alpha in permille.
pub open spec fn smoothed(s: Seq<i64>, alpha: u32) -> int
    decreases s.len(),
{
    if s.len() <= 1 {
        s[0] as int
    } else {
        div_tz(alpha * s.last() + (1000 - alpha) * smoothed(s.drop_last(), alpha), 1000)
    }
}

/// What a flat exponential-smoothing forecast must be: every step
/// carries the final smoothed level, with fixed ten-percent bounds.
pub open spec fn smoothing_ok(
    s: Seq<i64>,
    alpha: u32,
    last_ts: i64,
    total: int,
    pts: Seq<PredictionPoint>,
) -> bool {
    &&& pts.len() == total
    &&& forall|q: int|
        0 <= q < total ==> {
            let pt = #[trigger] pts[q];
            &&& pt.timestamp_millis == last_ts + (q + 1) * 60_000
            &&& pt.value_micros == smoothed(s, alpha)
            &&& pt.confidence_permille == confidence_of(q + 1, total)
            &&& pt.lower_micros == div_tz(9 * smoothed(s, alpha), 10)
            &&& pt.upper_micros == div_tz(11 * smoothed(s, alpha), 10)
        }
}

pub proof fn lemma_bucket_count_nonneg(len: int, start: int, p: int)
    requires
        1 <= p,
        0 <= start,
    ensures
        bucket_count(len, start, p) >= 0,
    decreases len + p - start,
{
    if start < len {
        lemma_bucket_count_nonneg(len, start + p, p);
    }
}

/// The trend + seasonal forecast over a bounded history, exactly
/// `arima_ok`.
fn arima_forecast(values: &Vec<i64>, last_ts: i64, steps: usize) -> (r: Vec<PredictionPoint>)
    requires
        10 <= values@.len() <= crate::window::MAX_WINDOW_CAPACITY,
        bounded_values(values@),
        -TS_LIMIT_MILLIS <= last_ts <= TS_LIMIT_MILLIS,
        steps <= MAX_FORECAST_STEPS,
    ensures
        arima_ok(values@, last_ts, steps as int, r@),
{
    let n = values.len();

    // Running sums for the least-squares fit.
    let mut sx: i64 = 0;
    let mut sx2: i64 = 0;
    let mut sy: i128 = 0;
    let mut sxy: i128 = 0;
    let mut j: usize = 0;
    while j < n
        invariant
            10 <= n == values@.len() <= 4096,
            bounded_values(values@),
            0 <= j <= n,
            sx == sum_x(j as int),
            0 <= sx <= j * 4096,
            sx2 == sum_x2(j as int),
            0 <= sx2 <= j * 16_777_216,
            sy == sum_y(values@.take(j as int)),
            -(j * 1_000_000_000_000) <= sy <= j * 1_000_000_000_000,
            sxy == sum_xy(values@.take(j as int)),
            -(j * 4_096_000_000_000_000) <= sxy <= j * 4_096_000_000_000_000,
        decreases n - j,
    {
        proof {
            assert(values@.take(j + 1 as int).drop_last() =~= values@.take(j as int));
            assert(values@.take(j + 1 as int).last() == values@[j as int]);
            assert(j * j <= 16_777_216) by (nonlinear_arith)
                requires
                    0 <= j <= 4096,
            ;
            assert(-4_096_000_000_000_000 <= (j as int) * (values@[j as int] as int)
                <= 4_096_000_000_000_000) by (nonlinear_arith)
                requires
                    0 <= j <= 4096,
                    -1_000_000_000_000 <= values@[j as int] as int <= 1_000_000_000_000,
            ;
        }
        let v = values[j];
        sx = sx + j as i64;
        sx2 = sx2 + (j as i64) * (j as i64);
        sy = sy + v as i128;
        sxy = sxy + (j as i128) * (v as i128);
        j = j + 1;
    }
    proof {
        assert(values@.take(n as int) =~= values@);
    }

    // Slope and intercept, truncated integer least squares.
    proof {
        assert(-70_000_000_000_000_000_000_000 <= (n as int) * (sxy as int)
            <= 70_000_000_000_000_000_000_000) by (nonlinear_arith)
            requires
                0 <= n as int <= 4096,
                -16_777_216_000_000_000_000 <= sxy as int <= 16_777_216_000_000_000_000,
        ;
        assert(-70_000_000_000_000_000_000_000 <= (sx as int) * (sy as int)
            <= 70_000_000_000_000_000_000_000) by (nonlinear_arith)
            requires
                0 <= sx as int <= 16_777_216,
                -4_096_000_000_000_000 <= sy as int <= 4_096_000_000_000_000,
        ;
        assert(0 <= (n as int) * (sx2 as int) <= 281_474_976_710_656) by (nonlinear_arith)
            requires
                0 <= n as int <= 4096,
                0 <= sx2 as int <= 68_719_476_736,
        ;
        assert(0 <= (sx as int) * (sx as int) <= 281_474_976_710_656) by (nonlinear_arith)
            requires
                0 <= sx as int <= 16_777_216,
        ;
    }
    let num: i128 = (n as i128) * sxy - (sx as i128) * sy;
    let den: i128 = (n as i128) * (sx2 as i128) - (sx as i128) * (sx as i128);
    let slope: i128 = if den > 0 {
        proof {
            lemma_mul_le(1, den as int, 140_000_000_000_000_000_000_000);
            lemma_div_tz_bounded(num as int, den as int, 140_000_000_000_000_000_000_000);
        }
        num / den
    } else {
        0
    };
    proof {
        assert(-2_400_000_000_000_000_000_000_000_000_000 <= (slope as int) * (sx as int)
            <= 2_400_000_000_000_000_000_000_000_000_000) by (nonlinear_arith)
            requires
                -140_000_000_000_000_000_000_000 <= slope as int
                    <= 140_000_000_000_000_000_000_000,
                0 <= sx as int <= 16_777_216,
        ;
    }
    let inum: i128 = sy - slope * (sx as i128);
    proof {
        lemma_mul_le(1, n as int, 2_500_000_000_000_000_000_000_000_000_000);
        lemma_div_tz_bounded(inum as int, n as int, 2_500_000_000_000_000_000_000_000_000_000);
    }
    let intercept: i128 = inum / (n as i128);

    // Seasonal component: per-phase averages over the whole history.
    let p: usize = if n / 2 < 24 {
        n / 2
    } else {
        24
    };
    let mut seasonal: Vec<i64> = Vec::new();
    let mut i: usize = 0;
    while i < p
        invariant
            10 <= n == values@.len() <= 4096,
            bounded_values(values@),
            1 <= p <= 24,
            p == period_of(n as int),
            p <= n,
            0 <= i <= p,
            seasonal@.len() == i,
            forall|q: int|
                0 <= q < i ==> #[trigger] seasonal@[q] == bucket_avg(values@, q, p as int),
            forall|q: int|
                0 <= q < i ==> -1_000_000_000_000 <= #[trigger] seasonal@[q]
                    <= 1_000_000_000_000,
        decreases p - i,
    {
        let mut bsum: i128 = 0;
        let mut bcount: usize = 0;
        let mut pos: usize = i;
        while pos < n
            invariant
                10 <= n == values@.len() <= 4096,
                bounded_values(values@),
                1 <= p <= 24,
                i < p <= n,
                i <= pos,
                bcount <= pos,
                bucket_sum(values@, i as int, p as int) == bsum + bucket_sum(
                    values@,
                    pos as int,
                    p as int,
                ),
                bucket_count(n as int, i as int, p as int) == bcount + bucket_count(
                    n as int,
                    pos as int,
                    p as int,
                ),
                -(bcount * 1_000_000_000_000) <= bsum <= bcount * 1_000_000_000_000,
            decreases n + p - pos,
        {
            bsum = bsum + values[pos] as i128;
            bcount = bcount + 1;
            pos = pos + p;
        }
        proof {
            lemma_bucket_count_nonneg(n as int, i as int, p as int);
            assert(bucket_count(n as int, i as int, p as int) == 1 + bucket_count(
                n as int,
                i + p as int,
                p as int,
            ));
            lemma_bucket_count_nonneg(n as int, i + p as int, p as int);
            assert(bcount >= 1);
            lemma_div_tz_bounded(bsum as int, bcount as int, 1_000_000_000_000);
        }
        let avg: i64 = (bsum / (bcount as i128)) as i64;
        seasonal.push(avg);
        i = i + 1;
    }

    // Mean of the seasonal averages.
    let mut stot: i128 = 0;
    let mut i2: usize = 0;
    while i2 < p
        invariant
            1 <= p <= 24,
            seasonal@.len() == p,
            forall|q: int|
                0 <= q < p ==> #[trigger] seasonal@[q] == bucket_avg(values@, q, p as int),
            forall|q: int|
                0 <= q < p ==> -1_000_000_000_000 <= #[trigger] seasonal@[q]
                    <= 1_000_000_000_000,
            0 <= i2 <= p,
            stot == bucket_avg_total(values@, p as int, i2 as int),
            -(i2 * 1_000_000_000_000) <= stot <= i2 * 1_000_000_000_000,
        decreases p - i2,
    {
        stot = stot + seasonal[i2] as i128;
        i2 = i2 + 1;
    }
    proof {
        lemma_div_tz_bounded(stot as int, p as int, 1_000_000_000_000);
    }
    let smean: i64 = (stot / (p as i128)) as i64;

    // Project each requested step.
    let mut r: Vec<PredictionPoint> = Vec::new();
    let mut step: usize = 1;
    while step <= steps
        invariant
            10 <= n == values@.len() <= 4096,
            bounded_values(values@),
            -TS_LIMIT_MILLIS <= last_ts <= TS_LIMIT_MILLIS,
            steps <= MAX_FORECAST_STEPS,
            1 <= p <= 24,
            p == period_of(n as int),
            seasonal@.len() == p,
            forall|q: int|
                0 <= q < p ==> #[trigger] seasonal@[q] == bucket_avg(values@, q, p as int),
            forall|q: int|
                0 <= q < p ==> -1_000_000_000_000 <= #[trigger] seasonal@[q]
                    <= 1_000_000_000_000,
            smean == seasonal_mean_of(values@, p as int),
            -1_000_000_000_000 <= smean <= 1_000_000_000_000,
            slope == slope_of(values@),
            -140_000_000_000_000_000_000_000 <= slope <= 140_000_000_000_000_000_000_000,
            intercept == intercept_of(values@),
            -2_500_000_000_000_000_000_000_000_000_000 <= intercept
                <= 2_500_000_000_000_000_000_000_000_000_000,
            1 <= step <= steps + 1,
            r@.len() == step - 1,
            forall|q: int|
                0 <= q < step - 1 ==> {
                    let pt = #[trigger] r@[q];
                    &&& pt.timestamp_millis == last_ts + (q + 1) * 60_000
                    &&& pt.value_micros == forecast_value(values@, q + 1)
                    &&& pt.confidence_permille == confidence_of(q + 1, steps as int)
                    &&& pt.lower_micros == forecast_lower(values@, q + 1, steps as int)
                    &&& pt.upper_micros == forecast_upper(values@, q + 1, steps as int)
                },
        decreases steps + 1 - step,
    {
        let idx: usize = (n + step) % p;
        proof {
            assert((slope as int) * ((n + step) as int) >= -2_000_000_000_000_000_000_000_000_000
                && (slope as int) * ((n + step) as int) <= 2_000_000_000_000_000_000_000_000_000)
                by (nonlinear_arith)
                requires
                    -140_000_000_000_000_000_000_000 <= slope as int
                        <= 140_000_000_000_000_000_000_000,
                    0 <= (n + step) as int <= 14_096,
            ;
        }
        let t1: i128 = slope * ((n + step) as i128);
        let sa: i64 = seasonal[idx] - smean;
        let fv: i128 = t1 + intercept + (sa as i128);
        let d: usize = (50 * step) / steps;
        proof {
            vstd::arithmetic::div_mod::lemma_div_is_ordered(
                50 * step as int,
                50 * steps as int,
                steps as int,
            );
            vstd::arithmetic::div_mod::lemma_div_by_multiple(50, steps as int);
        }
        let c: usize = if 950 - d < 500 {
            500
        } else {
            950 - d
        };
        let sp: i128 = 1000 - c as i128;
        proof {
            assert(-29_000_000_000_000_000_000_000_000_000_000_000 <= (fv as int) * (10000 - sp
                as int) <= 29_000_000_000_000_000_000_000_000_000_000_000 &&
                -29_000_000_000_000_000_000_000_000_000_000_000 <= (fv as int) * (10000 + sp
                as int) <= 29_000_000_000_000_000_000_000_000_000_000_000) by (nonlinear_arith)
                requires
                    -2_600_000_000_000_000_000_000_000_000_000 <= fv as int
                        <= 2_600_000_000_000_000_000_000_000_000_000,
                    0 <= sp as int <= 1000,
            ;
        }
        let lo: i128 = (fv * (10000 - sp)) / 10000;
        let hi: i128 = (fv * (10000 + sp)) / 10000;
        let ts: i64 = last_ts + (step as i64) * 60_000;
        r.push(
            PredictionPoint {
                timestamp_millis: ts,
                value_micros: fv,
                confidence_permille: c as u32,
                lower_micros: lo,
                upper_micros: hi,
            },
        );
        step = step + 1;
    }
    r
}

/// Copy of a forecast result set.
fn clone_points(v: &Vec<PredictionPoint>) -> (r: Vec<PredictionPoint>)
    ensures
        r@ == v@,
{
    let mut r: Vec<PredictionPoint> = Vec::new();
    let n = v.len();
    let mut i: usize = 0;
    while i < n
        invariant
            n == v@.len(),
            0 <= i <= n,
            r@ == v@.take(i as int),
        decreases n - i,
    {
        r.push(v[i]);
        proof {
            assert(v@.take(i + 1 as int) =~= v@.take(i as int).push(v@[i as int]));
        }
        i = i + 1;
    }
    proof {
        assert(v@.take(n as int) =~= v@);
    }
    r
}

/// Per-metric rolling histories plus a per-metric forecast cache;
/// produces short-horizon forecasts on demand.
pub struct PredictionEngine {
    config: AnalyticsConfig,
    series: Vec<(String, SampleWindow)>,
    cache: Vec<(String, CachedPrediction)>,
}

/// What `predict_arima_at` promises, relating the engine before and
/// after, the clock reading, and the result: a fresh cache entry is
/// returned as-is (whatever horizon it was computed for); otherwise a
/// missing metric fails with `UnknownMetric`, a short history with
/// `InsufficientData`, and a sufficient one yields the exact
/// trend + seasonal forecast, which is cached under the metric.
pub open spec fn predict_outcome(
    pre: PredictionEngine,
    post: PredictionEngine,
    name: Seq<char>,
    steps: int,
    now: i64,
    r: Result<Vec<PredictionPoint>, AnalyticsError>,
) -> bool {
    let ttl = pre.spec_config().prediction_cache_ttl_millis;
    let hit = match pre.cache_of(name) {
        Some(c) => now - c.1 < ttl,
        None => false,
    };
    &&& post.spec_config() == pre.spec_config()
    &&& forall|o: Seq<char>| #[trigger] post.history_of(o) == pre.history_of(o)
    &&& forall|o: Seq<char>| #[trigger] post.history_ts_of(o) == pre.history_ts_of(o)
    &&& if hit {
        &&& r is Ok
        &&& r->Ok_0@ == pre.cache_of(name)->Some_0.0
        &&& forall|o: Seq<char>| #[trigger] post.cache_of(o) == pre.cache_of(o)
    } else {
        match pre.history_of(name) {
            None => {
                &&& r == Err::<Vec<PredictionPoint>, AnalyticsError>(
                    AnalyticsError::UnknownMetric,
                )
                &&& forall|o: Seq<char>| #[trigger] post.cache_of(o) == pre.cache_of(o)
            },
            Some(w) => {
                if w.len() < 10 {
                    &&& r == Err::<Vec<PredictionPoint>, AnalyticsError>(
                        AnalyticsError::InsufficientData,
                    )
                    &&& forall|o: Seq<char>| #[trigger] post.cache_of(o) == pre.cache_of(o)
                } else {
                    &&& r is Ok
                    &&& arima_ok(w, pre.history_ts_of(name)->Some_0.last(), steps, r->Ok_0@)
                    &&& post.cache_of(name) == Some((r->Ok_0@, now))
                    &&& forall|o: Seq<char>|
                        o != name ==> #[trigger] post.cache_of(o) == pre.cache_of(o)
                }
            },
        }
    }
}

/// The retention pass against a clock reading: every metric's
/// history loses the samples older than the horizon measured back
/// from `now`.
pub open spec fn histories_cleaned_at_clock(
    pre: PredictionEngine,
    post: PredictionEngine,
    retention_hours: i64,
    now: i64,
) -> bool {
    histories_cleaned(pre, post, (now - retention_hours * 3_600_000) as i64)
}

/// Every metric's history in `post` is that of `pre` with the
/// samples older than `cutoff` dropped from the front.
pub open spec fn histories_cleaned(pre: PredictionEngine, post: PredictionEngine, cutoff: i64) -> bool {
    &&& forall|name: Seq<char>|
        #[trigger] post.history_of(name) == match pre.history_of(name) {
            None => None::<Seq<i64>>,
            Some(w) => Some(
                w.subrange(
                    crate::window::leading_older(pre.history_ts_of(name)->Some_0, cutoff),
                    w.len() as int,
                ),
            ),
        }
    &&& forall|name: Seq<char>|
        #[trigger] post.history_ts_of(name) == match pre.history_ts_of(name) {
            None => None::<Seq<i64>>,
            Some(t) => Some(
                t.subrange(crate::window::leading_older(t, cutoff), t.len() as int),
            ),
        }
}

impl PredictionEngine {
    pub closed spec fn inv(&self) -> bool {
        &&& self.config.inv()
        &&& keys_unique(self.series@)
        &&& keys_unique(self.cache@)
        &&& forall|i: int|
            0 <= i < self.series@.len() ==> (#[trigger] self.series@[i].1).inv()
                && self.series@[i].1.capacity == self.config.prediction_history_capacity
    }

    /// The retained history of values for a metric, if any.
    pub closed spec fn history_of(&self, name: Seq<char>) -> Option<Seq<i64>> {
        match assoc_lookup(self.series@, name) {
            Some(w) => Some(w.values@),
            None => None,
        }
    }

    /// The retained history of timestamps for a metric, if any.
    pub closed spec fn history_ts_of(&self, name: Seq<char>) -> Option<Seq<i64>> {
        match assoc_lookup(self.series@, name) {
            Some(w) => Some(w.timestamps@),
            None => None,
        }
    }

    /// The cached forecast of a metric: its points and when it was
    /// computed.
    pub closed spec fn cache_of(&self, name: Seq<char>) -> Option<(Seq<PredictionPoint>, i64)> {
        match assoc_lookup(self.cache@, name) {
            Some(c) => Some((c.points@, c.created_at_millis)),
            None => None,
        }
    }

    pub closed spec fn spec_config(&self) -> AnalyticsConfig {
        self.config
    }

    pub fn new(config: AnalyticsConfig) -> (r: Self)
        requires
            config.inv(),
        ensures
            r.inv(),
            r.spec_config() == config,
            forall|name: Seq<char>| #[trigger] r.history_of(name) is None,
            forall|name: Seq<char>| #[trigger] r.history_ts_of(name) is None,
            forall|name: Seq<char>| #[trigger] r.cache_of(name) is None,
    {
        PredictionEngine { config, series: Vec::new(), cache: Vec::new() }
    }

    /// Append a sample to the metric's history (evicting the oldest
    /// when full) and invalidate any cached forecast for it.
    pub fn add_data_point(&mut self, metric_name: &str, value_micros: i64, timestamp_millis: i64)
        requires
            old(self).inv(),
            -VALUE_LIMIT_MICROS <= value_micros <= VALUE_LIMIT_MICROS,
            -TS_LIMIT_MILLIS <= timestamp_millis <= TS_LIMIT_MILLIS,
        ensures
            final(self).inv(),
            final(self).spec_config() == old(self).spec_config(),
            final(self).history_of(metric_name@) == Some(
                evict_push(
                    match old(self).history_of(metric_name@) {
                        Some(w) => w,
                        None => Seq::<i64>::empty(),
                    },
                    old(self).spec_config().prediction_history_capacity as int,
                    value_micros,
                ),
            ),
            final(self).history_ts_of(metric_name@) == Some(
                evict_push(
                    match old(self).history_ts_of(metric_name@) {
                        Some(t) => t,
                        None => Seq::<i64>::empty(),
                    },
                    old(self).spec_config().prediction_history_capacity as int,
                    timestamp_millis,
                ),
            ),
            forall|o: Seq<char>|
                o != metric_name@ ==> #[trigger] final(self).history_of(o) == old(
                    self,
                ).history_of(o),
            forall|o: Seq<char>|
                o != metric_name@ ==> #[trigger] final(self).history_ts_of(o) == old(
                    self,
                ).history_ts_of(o),
            final(self).cache_of(metric_name@) is None,
            forall|o: Seq<char>|
                o != metric_name@ ==> #[trigger] final(self).cache_of(o) == old(self).cache_of(o),
    {
        let key: String = metric_name.to_owned();
        let cap = self.config.prediction_history_capacity;
        match assoc_find(&self.series, &key) {
            Some(j) => {
                let ghost pre = self.series@;
                let entry = &mut self.series[j];
                entry.1.push(value_micros, timestamp_millis);
                proof {
                    assert(self.series@ == pre.update(
                        j as int,
                        (pre[j as int].0, self.series@[j as int].1),
                    ));
                    lemma_assoc_update(pre, j as int, self.series@[j as int].1, pre[j as int].0@);
                    assert(keys_unique(self.series@));
                    assert forall|k2: Seq<char>|
                        assoc_lookup(self.series@, k2) == (if k2 == pre[j as int].0@ {
                            Some(self.series@[j as int].1)
                        } else {
                            assoc_lookup(pre, k2)
                        }) by {
                        lemma_assoc_update(pre, j as int, self.series@[j as int].1, k2);
                    }
                }
            },
            None => {
                let mut w = SampleWindow::new(cap);
                w.push(value_micros, timestamp_millis);
                let ghost pre = self.series@;
                let ghost wg = w;
                self.series.push((key.clone(), w));
                proof {
                    assert(self.series@ == pre.push((self.series@[pre.len() as int].0, wg)));
                    lemma_assoc_push(pre, self.series@[pre.len() as int].0, wg, key@);
                    assert(keys_unique(self.series@));
                    assert forall|k2: Seq<char>|
                        assoc_lookup(self.series@, k2) == (if k2 == key@ {
                            Some(wg)
                        } else {
                            assoc_lookup(pre, k2)
                        }) by {
                        lemma_assoc_push(pre, self.series@[pre.len() as int].0, wg, k2);
                    }
                }
            },
        }

        // A new sample makes any cached forecast stale: drop it.
        match assoc_find(&self.cache, &key) {
            Some(j) => {
                let ghost pre = self.cache@;
                self.cache.remove(j);
                proof {
                    lemma_assoc_remove(pre, j as int, key@);
                    assert forall|k2: Seq<char>|
                        assoc_lookup(self.cache@, k2) == (if k2 == key@ {
                            None::<CachedPrediction>
                        } else {
                            assoc_lookup(pre, k2)
                        }) by {
                        lemma_assoc_remove(pre, j as int, k2);
                    }
                }
            },
            None => {},
        }
    }

    /// Produce (or re-serve) a trend + seasonal forecast for the
    /// metric, against the given clock reading. A cached forecast
    /// younger than the configured TTL is returned as computed,
    /// whatever horizon it was computed for.
    pub fn predict_arima_at(
        &mut self,
        metric_name: &str,
        steps_ahead: usize,
        now_millis: i64,
    ) -> (r: Result<Vec<PredictionPoint>, AnalyticsError>)
        requires
            old(self).inv(),
            steps_ahead <= MAX_FORECAST_STEPS,
            0 <= now_millis <= TS_LIMIT_MILLIS,
        ensures
            final(self).inv(),
            predict_outcome(*old(self), *final(self), metric_name@, steps_ahead as int,
                now_millis, r),
    {
        let key: String = metric_name.to_owned();
        let ttl = self.config.prediction_cache_ttl_millis;

        // A fresh cached forecast is authoritative.
        match assoc_find(&self.cache, &key) {
            Some(j) => {
                let c = &self.cache[j].1;
                let age: i128 = now_millis as i128 - c.created_at_millis as i128;
                if age < ttl as i128 {
                    return Ok(clone_points(&c.points));
                }
            },
            None => {},
        }

        // Cache miss: recompute from the retained history.
        let i: usize = match assoc_find(&self.series, &key) {
            None => {
                return Err(AnalyticsError::UnknownMetric);
            },
            Some(i) => i,
        };
        let window = &self.series[i].1;
        let n = window.values.len();
        if n < 10 {
            return Err(AnalyticsError::InsufficientData);
        }
        let last_ts = window.timestamps[n - 1];
        let points = arima_forecast(&window.values, last_ts, steps_ahead);

        // Cache the result under the metric.
        let fresh = CachedPrediction {
            points: clone_points(&points),
            created_at_millis: now_millis,
        };
        let ghost freshg = fresh;
        match assoc_find(&self.cache, &key) {
            Some(j) => {
                let ghost pre = self.cache@;
                let entry = &mut self.cache[j];
                entry.1 = fresh;
                proof {
                    assert(self.cache@ == pre.update(
                        j as int,
                        (pre[j as int].0, freshg),
                    ));
                    lemma_assoc_update(pre, j as int, freshg, pre[j as int].0@);
                    assert(keys_unique(self.cache@));
                    assert forall|k2: Seq<char>|
                        assoc_lookup(self.cache@, k2) == (if k2 == pre[j as int].0@ {
                            Some(freshg)
                        } else {
                            assoc_lookup(pre, k2)
                        }) by {
                        lemma_assoc_update(pre, j as int, freshg, k2);
                    }
                }
            },
            None => {
                let ghost pre = self.cache@;
                self.cache.push((key, fresh));
                proof {
                    assert(self.cache@ == pre.push((self.cache@[pre.len() as int].0, freshg)));
                    lemma_assoc_push(pre, self.cache@[pre.len() as int].0, freshg, metric_name@);
                    assert(keys_unique(self.cache@));
                    assert forall|k2: Seq<char>|
                        assoc_lookup(self.cache@, k2) == (if k2 == metric_name@ {
                            Some(freshg)
                        } else {
                            assoc_lookup(pre, k2)
                        }) by {
                        lemma_assoc_push(pre, self.cache@[pre.len() as int].0, freshg, k2);
                    }
                }
            },
        }
        Ok(points)
    }

    /// `predict_arima_at` against the wall clock.
    pub fn predict_arima(&mut self, metric_name: &str, steps_ahead: usize) -> (r: Result<
        Vec<PredictionPoint>,
        AnalyticsError,
    >)
        requires
            old(self).inv(),
            steps_ahead <= MAX_FORECAST_STEPS,
        ensures
            final(self).inv(),
            exists|now: i64|
                0 <= now <= TS_LIMIT_MILLIS && predict_outcome(
                    *old(self),
                    *final(self),
                    metric_name@,
                    steps_ahead as int,
                    now,
                    r,
                ),
    {
        let raw = crate::clock::now_millis();
        let now = crate::num::clamp_i64(raw, 0, TS_LIMIT_MILLIS);
        let r = self.predict_arima_at(metric_name, steps_ahead, now);
        proof {
            assert(0 <= now <= TS_LIMIT_MILLIS && predict_outcome(
                *old(self),
                *self,
                metric_name@,
                steps_ahead as int,
                now,
                r,
            ));
        }
        r
    }

    /// A flat forecast at the exponentially smoothed level, with
    /// fixed ten-percent bounds; succeeds from a single data point.
    /// The smoothing factor is in permille.
    pub fn predict_exponential_smoothing(
        &self,
        metric_name: &str,
        steps_ahead: usize,
        alpha_permille: u32,
    ) -> (r: Result<Vec<PredictionPoint>, AnalyticsError>)
        requires
            self.inv(),
            steps_ahead <= MAX_FORECAST_STEPS,
            alpha_permille <= 1000,
        ensures
            match self.history_of(metric_name@) {
                None => r == Err::<Vec<PredictionPoint>, AnalyticsError>(
                    AnalyticsError::UnknownMetric,
                ),
                Some(w) => {
                    if w.len() == 0 {
                        r == Err::<Vec<PredictionPoint>, AnalyticsError>(
                            AnalyticsError::InsufficientData,
                        )
                    } else {
                        r is Ok && smoothing_ok(
                            w,
                            alpha_permille,
                            self.history_ts_of(metric_name@)->Some_0.last(),
                            steps_ahead as int,
                            r->Ok_0@,
                        )
                    }
                },
            },
    {
        let key: String = metric_name.to_owned();
        let i: usize = match assoc_find(&self.series, &key) {
            None => {
                return Err(AnalyticsError::UnknownMetric);
            },
            Some(i) => i,
        };
        let window = &self.series[i].1;
        let n = window.values.len();
        if n == 0 {
            return Err(AnalyticsError::InsufficientData);
        }
        let last_ts = window.timestamps[n - 1];
        let ghost w = window.values@;

        // Fold the history into the smoothed level.
        let mut level: i64 = window.values[0];
        proof {
            assert(w.take(1) =~= seq![w[0]]);
        }
        let mut q: usize = 1;
        while q < n
            invariant
                1 <= n == window.values@.len() <= 4096,
                w == window.values@,
                bounded_values(w),
                alpha_permille <= 1000,
                1 <= q <= n,
                level == smoothed(w.take(q as int), alpha_permille),
                -VALUE_LIMIT_MICROS <= level <= VALUE_LIMIT_MICROS,
            decreases n - q,
        {
            proof {
                assert(w.take(q + 1 as int).drop_last() =~= w.take(q as int));
                assert(w.take(q + 1 as int).last() == w[q as int]);
            }
            let v = window.values[q];
            proof {
                assert(-1_000_000_000_000_000 <= (alpha_permille as int) * (v as int)
                    <= 1_000_000_000_000_000 && -1_000_000_000_000_000 <= (1000
                    - alpha_permille as int) * (level as int) <= 1_000_000_000_000_000
                    && -1_000_000_000_000_000 <= (alpha_permille as int) * (v as int) + (1000
                    - alpha_permille as int) * (level as int) <= 1_000_000_000_000_000)
                    by (nonlinear_arith)
                    requires
                        0 <= alpha_permille as int <= 1000,
                        -1_000_000_000_000 <= v as int <= 1_000_000_000_000,
                        -1_000_000_000_000 <= level as int <= 1_000_000_000_000,
                ;
                lemma_div_tz_bounded(
                    (alpha_permille as int) * (v as int) + (1000 - alpha_permille as int) * (level
                        as int),
                    1000,
                    1_000_000_000_000,
                );
            }
            level = (((alpha_permille as i128) * (v as i128) + ((1000 - alpha_permille) as i128)
                * (level as i128)) / 1000) as i64;
            q = q + 1;
        }
        proof {
            assert(w.take(n as int) =~= w);
        }

        // Every step carries the final level.
        let lo: i64 = ((9 * (level as i128)) / 10) as i64;
        let hi: i64 = ((11 * (level as i128)) / 10) as i64;
        proof {
            lemma_div_tz_bounded(9 * level as int, 10, 1_000_000_000_000);
            lemma_div_tz_bounded(11 * level as int, 10, 2_000_000_000_000);
        }
        let mut r: Vec<PredictionPoint> = Vec::new();
        let mut step: usize = 1;
        while step <= steps_ahead
            invariant
                steps_ahead <= MAX_FORECAST_STEPS,
                -TS_LIMIT_MILLIS <= last_ts <= TS_LIMIT_MILLIS,
                level == smoothed(w, alpha_permille),
                lo == div_tz(9 * level as int, 10),
                hi == div_tz(11 * level as int, 10),
                1 <= step <= steps_ahead + 1,
                r@.len() == step - 1,
                forall|q2: int|
                    0 <= q2 < step - 1 ==> {
                        let pt = #[trigger] r@[q2];
                        &&& pt.timestamp_millis == last_ts + (q2 + 1) * 60_000
                        &&& pt.value_micros == smoothed(w, alpha_permille)
                        &&& pt.confidence_permille == confidence_of(q2 + 1, steps_ahead as int)
                        &&& pt.lower_micros == div_tz(9 * smoothed(w, alpha_permille), 10)
                        &&& pt.upper_micros == div_tz(11 * smoothed(w, alpha_permille), 10)
                    },
            decreases steps_ahead + 1 - step,
        {
            let d: usize = (50 * step) / steps_ahead;
            proof {
                vstd::arithmetic::div_mod::lemma_div_is_ordered(
                    50 * step as int,
                    50 * steps_ahead as int,
                    steps_ahead as int,
                );
                vstd::arithmetic::div_mod::lemma_div_by_multiple(50, steps_ahead as int);
            }
            let c: usize = if 950 - d < 500 {
                500
            } else {
                950 - d
            };
            let ts: i64 = last_ts + (step as i64) * 60_000;
            r.push(
                PredictionPoint {
                    timestamp_millis: ts,
                    value_micros: level as i128,
                    confidence_permille: c as u32,
                    lower_micros: lo as i128,
                    upper_micros: hi as i128,
                },
            );
            step = step + 1;
        }
        Ok(r)
    }

    /// Counters: tracked series, live cache entries, and total cached
    /// forecast points (saturating at the machine limit).
    pub fn get_stats(&self) -> (r: PredictionStats)
        requires
            self.inv(),
        ensures
            r.total_time_series == self.tracked_series(),
            r.total_cached_predictions == self.cached_metrics(),
            r.total_prediction_points as int == (if self.cached_points_total()
                <= usize::MAX as int {
                self.cached_points_total()
            } else {
                usize::MAX as int
            }),
    {
        let n = self.cache.len();
        let mut acc: usize = 0;
        let mut j: usize = 0;
        while j < n
            invariant
                n == self.cache@.len(),
                0 <= j <= n,
                acc as int == (if points_total(self.cache@.take(j as int)) <= usize::MAX as int {
                    points_total(self.cache@.take(j as int))
                } else {
                    usize::MAX as int
                }),
            decreases n - j,
        {
            let len = self.cache[j].1.points.len();
            proof {
                assert(self.cache@.take(j + 1 as int).drop_last() =~= self.cache@.take(j as int));
                assert(self.cache@.take(j + 1 as int).last() == self.cache@[j as int]);
                lemma_points_total_nonneg(self.cache@.take(j as int));
            }
            acc = match acc.checked_add(len) {
                Some(s) => s,
                None => usize::MAX,
            };
            j = j + 1;
        }
        proof {
            assert(self.cache@.take(n as int) =~= self.cache@);
        }
        PredictionStats {
            total_time_series: self.series.len(),
            total_cached_predictions: self.cache.len(),
            total_prediction_points: acc,
        }
    }

    pub closed spec fn tracked_series(&self) -> int {
        self.series@.len() as int
    }

    pub closed spec fn cached_metrics(&self) -> int {
        self.cache@.len() as int
    }

    /// Total forecast points across all cache entries.
    pub closed spec fn cached_points_total(&self) -> int {
        points_total(self.cache@)
    }

    /// Drop history strictly older than the cutoff from every
    /// metric's window, keeping the remaining order. Cached
    /// forecasts are untouched: only new data invalidates them.
    pub fn cleanup_data_before(&mut self, cutoff_millis: i64)
        requires
            old(self).inv(),
        ensures
            final(self).inv(),
            final(self).spec_config() == old(self).spec_config(),
            forall|name: Seq<char>| #[trigger] final(self).cache_of(name) == old(self).cache_of(
                name,
            ),
            forall|name: Seq<char>|
                #[trigger] final(self).history_of(name) == match old(self).history_of(name) {
                    None => None::<Seq<i64>>,
                    Some(w) => Some(
                        w.subrange(
                            crate::window::leading_older(
                                old(self).history_ts_of(name)->Some_0,
                                cutoff_millis,
                            ),
                            w.len() as int,
                        ),
                    ),
                },
            forall|name: Seq<char>|
                #[trigger] final(self).history_ts_of(name) == match old(self).history_ts_of(
                    name,
                ) {
                    None => None::<Seq<i64>>,
                    Some(t) => Some(
                        t.subrange(
                            crate::window::leading_older(t, cutoff_millis),
                            t.len() as int,
                        ),
                    ),
                },
    {
        let ghost orig = self.series@;
        let n = self.series.len();
        let mut j: usize = 0;
        while j < n
            invariant
                old(self).inv(),
                n == self.series@.len() == orig.len(),
                orig == old(self).series@,
                self.config == old(self).config,
                self.cache@ == old(self).cache@,
                keys_unique(self.series@),
                0 <= j <= n,
                forall|q: int| 0 <= q < n ==> (#[trigger] self.series@[q]).0 == orig[q].0,
                forall|q: int|
                    j <= q < n ==> (#[trigger] self.series@[q]).1 == orig[q].1,
                forall|q: int|
                    0 <= q < j ==> {
                        let w0 = (#[trigger] orig[q]).1;
                        let w1 = self.series@[q].1;
                        &&& w1.inv()
                        &&& w1.capacity == w0.capacity
                        &&& w1.values@ == w0.values@.subrange(
                            crate::window::leading_older(w0.timestamps@, cutoff_millis),
                            w0.values@.len() as int,
                        )
                        &&& w1.timestamps@ == w0.timestamps@.subrange(
                            crate::window::leading_older(w0.timestamps@, cutoff_millis),
                            w0.timestamps@.len() as int,
                        )
                    },
            decreases n - j,
        {
            let ghost pre = self.series@;
            let entry = &mut self.series[j];
            entry.1.cleanup_before(cutoff_millis);
            proof {
                assert(self.series@ == pre.update(
                    j as int,
                    (pre[j as int].0, self.series@[j as int].1),
                ));
                lemma_assoc_update(pre, j as int, self.series@[j as int].1, pre[j as int].0@);
            }
            j = j + 1;
        }
        proof {
            let post = self.series@;
            assert forall|name: Seq<char>| #[trigger] assoc_lookup(post, name) is None
                <==> assoc_lookup(orig, name) is None by {
                lemma_assoc_same_keys(orig, post, name);
            }
            assert forall|name: Seq<char>|
                assoc_lookup(orig, name) is Some implies {
                let w0 = assoc_lookup(orig, name)->Some_0;
                let w1 = assoc_lookup(post, name)->Some_0;
                &&& w1.values@ == w0.values@.subrange(
                    crate::window::leading_older(w0.timestamps@, cutoff_millis),
                    w0.values@.len() as int,
                )
                &&& w1.timestamps@ == w0.timestamps@.subrange(
                    crate::window::leading_older(w0.timestamps@, cutoff_millis),
                    w0.timestamps@.len() as int,
                )
            } by {
                crate::kv::lemma_assoc_lookup_some_index(orig, name);
                let i = choose|i: int|
                    0 <= i < orig.len() && (#[trigger] orig[i].0@) == name && assoc_lookup(
                        orig,
                        name,
                    ) == Some(orig[i].1);
                lemma_assoc_same_keys(orig, post, name);
            }
        }
    }

    /// `cleanup_data_before` against the wall clock, with the cutoff
    /// a whole number of hours in the past.
    pub fn cleanup_old_data(&mut self, retention_hours: i64)
        requires
            old(self).inv(),
            0 <= retention_hours <= 1_000_000,
        ensures
            final(self).inv(),
            final(self).spec_config() == old(self).spec_config(),
            forall|name: Seq<char>| #[trigger] final(self).cache_of(name) == old(self).cache_of(
                name,
            ),
            exists|now: i64|
                0 <= now <= TS_LIMIT_MILLIS && #[trigger] histories_cleaned_at_clock(
                    *old(self),
                    *final(self),
                    retention_hours,
                    now,
                ),
    {
        let raw = crate::clock::now_millis();
        let now = crate::num::clamp_i64(raw, 0, TS_LIMIT_MILLIS);
        let cutoff = now - retention_hours * 3_600_000;
        self.cleanup_data_before(cutoff);
        proof {
            assert(histories_cleaned_at_clock(*old(self), *self, retention_hours, now));
        }
    }
}

} // verus!
