//! The frame-time statistics engine.
//!
//! Every metric is a pure function of the series. Frame times are whole
//! microseconds, so each result is an exact rational number ([`Ratio`]):
//! an FPS figure is `1_000_000 / frametime_us`, a millisecond figure is
//! `value_us / 1000`. Metrics that are undefined on too few samples return
//! a [`DegenerateInputError`] instead of dividing by zero or reading out of
//! bounds.

use crate::ratio::{ratio_represents, Ratio};
use crate::series::{
    lemma_sum_us_bounds, sum_us, valid_series, FrameTimeSeries, SortedFrameTimeSeries,
    MAX_FRAME_TIME_US, MAX_SAMPLES,
};
use vstd::arithmetic::div_mod::{
    lemma_basic_div, lemma_div_by_self, lemma_div_is_ordered, lemma_div_multiples_vanish,
    lemma_div_pos_is_pos, lemma_hoist_over_denominator,
};
use vstd::arithmetic::mul::{lemma_mul_inequality, lemma_mul_is_commutative, lemma_mul_upper_bound};
use vstd::prelude::*;

verus! {

/// Explicit failure for inputs on which a metric is undefined, in place of a
/// division by zero, an out-of-range index, or a non-finite result.
#[derive(Clone, Copy, Debug, PartialEq, Eq, Structural)]
pub enum DegenerateInputError {
    /// The series holds no samples, so no metric is computable.
    EmptySeries,
    /// The series holds a single sample and the metric needs at least two.
    SingleSample,
    /// The requested percentile window rounds down to zero samples.
    EmptyPercentileWindow,
}

/// A percentile given as the exact fraction `num / den` of the series,
/// for example 1/100 for the 1% low figures and 1/1000 for the 0.1% lows.
#[derive(Clone, Copy, Debug, PartialEq, Eq, Structural)]
pub struct Percentile {
    /// Numerator of the fraction.
    pub num: u64,
    /// Denominator of the fraction.
    pub den: u64,
}

impl Percentile {
    /// The fraction lies in `(0, 1]`.
    pub open spec fn wf(&self) -> bool {
        1 <= self.num <= self.den
    }

    /// Builds the fraction `num / den`.
    pub fn new(num: u64, den: u64) -> (p: Percentile)
        requires
            1 <= num <= den,
        ensures
            p.num == num,
            p.den == den,
            p.wf(),
    {
        Percentile { num, den }
    }
}

/// The 0-based position of the median of a series of length `len`: the lower
/// of the two middle positions when `len` is even, the single middle position
/// when it is odd.
pub open spec fn median_index(len: int) -> int {
    if len % 2 == 0 {
        len / 2 - 1
    } else {
        len / 2
    }
}

/// The median frame time of an ascending series: deliberately the lower of
/// the two middle values for an even count, never an interpolation, so that
/// the reported value actually occurred in the data.
pub open spec fn spec_median_frametime(s: Seq<u64>) -> u64 {
    s[median_index(s.len() as int)]
}

/// The FPS implied by a frame time: `1000 / ft_ms` is `1_000_000 / ft_us`.
pub open spec fn fps_of_frametime_us(ft_us: u64) -> Ratio {
    Ratio { num: 1_000_000, den: ft_us as u128 }
}

/// Number of values of `s` strictly above `threshold_us`.
pub open spec fn count_above(s: Seq<u64>, threshold_us: u64) -> int
    decreases s.len(),
{
    if s.len() == 0 {
        0
    } else {
        count_above(s.drop_last(), threshold_us) + if s.last() > threshold_us {
            1int
        } else {
            0int
        }
    }
}

/// Ceiling of `a / b`.
pub open spec fn ceil_div(a: int, b: int) -> int {
    (a + b - 1) / b
}

/// Number of samples in the worst-`p` tail for the percentile-low FPS:
/// `ceil(len * p)`.
pub open spec fn ranged_tail_len(len: int, p: Percentile) -> int {
    ceil_div(len * p.num, p.den as int)
}

/// Number of samples in the worst-`p` tail for the average-percentile FPS:
/// `floor(len * p)`.
pub open spec fn average_ranged_tail_len(len: int, p: Percentile) -> int {
    (len * p.num) / (p.den as int)
}

/// Sum of all frame times, in microseconds. The one metric with no division,
/// still undefined on an empty capture.
pub fn total_frame_time(series: &FrameTimeSeries) -> (r: Result<u64, DegenerateInputError>)
    requires
        series.wf(),
    ensures
        (match r {
            Ok(t) => series@.len() >= 1 && t == sum_us(series@),
            Err(e) => series@.len() == 0 && e == DegenerateInputError::EmptySeries,
        }),
{
    if series.len() == 0 {
        Err(DegenerateInputError::EmptySeries)
    } else {
        Ok(sum_frame_times(series))
    }
}

/// Sum of all frame times of a valid series; fits `u64` because both the
/// length and the values are capped at 32 bits.
fn sum_frame_times(series: &FrameTimeSeries) -> (t: u64)
    requires
        series.wf(),
    ensures
        t == sum_us(series@),
{
    let n = series.len();
    let mut total: u64 = 0;
    let mut i: usize = 0;
    while i < n
        invariant
            i <= n,
            n == series@.len(),
            series.wf(),
            total == sum_us(series@.subrange(0, i as int)),
        decreases n - i,
    {
        proof {
            let prefix = series@.subrange(0, i as int);
            assert(forall|k: int| 0 <= k < prefix.len() ==> prefix[k] <= MAX_FRAME_TIME_US);
            lemma_sum_us_bounds(prefix);
            crate::series::lemma_sum_us_extend(series@, 0, i as int);
            assert(prefix.len() * (MAX_FRAME_TIME_US as int)
                <= (MAX_SAMPLES as int) * (MAX_FRAME_TIME_US as int)) by {
                lemma_mul_inequality(prefix.len() as int, MAX_SAMPLES as int,
                    MAX_FRAME_TIME_US as int);
            }
        }
        total = total + series.index(i);
        i = i + 1;
    }
    proof {
        assert(series@.subrange(0, n as int) =~= series@);
    }
    total
}

/// Average frame time in milliseconds: `total / count`, as the exact ratio
/// `total_us / (count * 1000)`.
pub fn average_frametime(series: &FrameTimeSeries) -> (r: Result<Ratio, DegenerateInputError>)
    requires
        series.wf(),
    ensures
        (match r {
            Ok(a) => series@.len() >= 1 && a.num == sum_us(series@)
                && a.den == series@.len() * 1000,
            Err(e) => series@.len() == 0 && e == DegenerateInputError::EmptySeries,
        }),
{
    let n = series.len();
    if n == 0 {
        Err(DegenerateInputError::EmptySeries)
    } else {
        let total = sum_frame_times(series);
        Ok(Ratio::new(total as u128, (n as u128) * 1000))
    }
}

/// Average FPS: `1000 / average frametime in ms`, as the exact ratio
/// `1_000_000 * count / total_us`.
pub fn calculate_average_fps(series: &FrameTimeSeries) -> (r: Result<Ratio, DegenerateInputError>)
    requires
        series.wf(),
    ensures
        (match r {
            Ok(f) => series@.len() >= 1 && f.num == series@.len() * 1_000_000
                && f.den == sum_us(series@),
            Err(e) => series@.len() == 0 && e == DegenerateInputError::EmptySeries,
        }),
{
    let n = series.len();
    if n == 0 {
        Err(DegenerateInputError::EmptySeries)
    } else {
        let total = sum_frame_times(series);
        Ok(Ratio::new((n as u128) * 1_000_000, total as u128))
    }
}

/// Median frame time in microseconds of the ascending series: the value at
/// [`median_index`], biased low for an even count.
pub fn median_frametime(sorted: &SortedFrameTimeSeries) -> (r: Result<
    u64,
    DegenerateInputError,
>)
    requires
        valid_series(sorted@),
    ensures
        (match r {
            Ok(m) => sorted@.len() >= 1 && m == spec_median_frametime(sorted@),
            Err(e) => sorted@.len() == 0 && e == DegenerateInputError::EmptySeries,
        }),
{
    let n = sorted.len();
    if n == 0 {
        Err(DegenerateInputError::EmptySeries)
    } else {
        let idx = if n % 2 == 0 { n / 2 - 1 } else { n / 2 };
        Ok(sorted.index(idx))
    }
}

/// Median FPS: `1000 / median frametime in ms`.
pub fn calculate_median_fps(sorted: &SortedFrameTimeSeries) -> (r: Result<
    Ratio,
    DegenerateInputError,
>)
    requires
        valid_series(sorted@),
    ensures
        (match r {
            Ok(f) => sorted@.len() >= 1 && f == fps_of_frametime_us(spec_median_frametime(sorted@)),
            Err(e) => sorted@.len() == 0 && e == DegenerateInputError::EmptySeries,
        }),
{
    match median_frametime(sorted) {
        Ok(m) => Ok(Ratio::new(1_000_000, m as u128)),
        Err(e) => Err(e),
    }
}

/// Maximum FPS, implied by the smallest frame time of the ascending series.
pub fn calculate_max_fps(sorted: &SortedFrameTimeSeries) -> (r: Result<
    Ratio,
    DegenerateInputError,
>)
    requires
        valid_series(sorted@),
    ensures
        (match r {
            Ok(f) => sorted@.len() >= 1 && f == fps_of_frametime_us(sorted@[0]),
            Err(e) => sorted@.len() == 0 && e == DegenerateInputError::EmptySeries,
        }),
{
    let n = sorted.len();
    if n == 0 {
        Err(DegenerateInputError::EmptySeries)
    } else {
        Ok(Ratio::new(1_000_000, sorted.index(0) as u128))
    }
}

/// Minimum FPS, implied by the largest frame time of the ascending series.
pub fn calculate_min_fps(sorted: &SortedFrameTimeSeries) -> (r: Result<
    Ratio,
    DegenerateInputError,
>)
    requires
        valid_series(sorted@),
    ensures
        (match r {
            Ok(f) => sorted@.len() >= 1 && f == fps_of_frametime_us(sorted@[sorted@.len() - 1]),
            Err(e) => sorted@.len() == 0 && e == DegenerateInputError::EmptySeries,
        }),
{
    let n = sorted.len();
    if n == 0 {
        Err(DegenerateInputError::EmptySeries)
    } else {
        Ok(Ratio::new(1_000_000, sorted.index(n - 1) as u128))
    }
}

/// The ceiling division `(a + b - 1) / b` of positives lies in `[1, n]`
/// whenever `a <= n * b`.
proof fn lemma_ceil_div_bounds(len: int, num: int, den: int)
    requires
        1 <= len,
        1 <= num <= den,
    ensures
        1 <= ceil_div(len * num, den) <= len,
{
    lemma_mul_inequality(1, len, num);
    assert(len * num + den - 1 >= den);
    lemma_div_is_ordered(den, len * num + den - 1, den);
    lemma_div_by_self(den);
    lemma_mul_inequality(num, den, len);
    assert(len * num == num * len) by {
        lemma_mul_is_commutative(len, num);
    }
    assert(len * den == den * len) by {
        lemma_mul_is_commutative(len, den);
    }
    lemma_div_is_ordered(len * num + den - 1, len * den + den - 1, den);
    assert((den - 1) / den == 0) by {
        lemma_basic_div(den - 1, den);
    }
    assert((den - 1) / den + len == (den - 1 + len * den) / den) by {
        lemma_hoist_over_denominator(den - 1, len, den as nat);
    }
    assert(den - 1 + len * den == len * den + den - 1);
}

/// The floor division `a / b` of non-negatives lies in `[0, n]` whenever
/// `a <= n * b`.
proof fn lemma_floor_div_bounds(len: int, num: int, den: int)
    requires
        0 <= len,
        1 <= num <= den,
    ensures
        0 <= (len * num) / den <= len,
{
    lemma_mul_inequality(1, num, len);
    assert(num * len == len * num) by {
        lemma_mul_is_commutative(num, len);
    }
    lemma_div_pos_is_pos(len * num, den);
    lemma_mul_inequality(num, den, len);
    assert(len * den == den * len) by {
        lemma_mul_is_commutative(len, den);
    }
    lemma_div_is_ordered(len * num, den * len, den);
    assert((den * len) / den == len) by {
        lemma_div_multiples_vanish(len, den);
    }
}

/// P-percentile low FPS: with `k = ceil(count * p)`, the FPS implied by the
/// frame time at index `count - k` of the ascending series — the frame time
/// at the boundary of the worst `p` fraction of frames.
pub fn calculate_ranged_fps(sorted: &SortedFrameTimeSeries, p: Percentile) -> (r: Result<
    Ratio,
    DegenerateInputError,
>)
    requires
        valid_series(sorted@),
        p.wf(),
    ensures
        (match r {
            Ok(f) => sorted@.len() >= 1 && f == fps_of_frametime_us(
                sorted@[sorted@.len() - ranged_tail_len(sorted@.len() as int, p)],
            ),
            Err(e) => sorted@.len() == 0 && e == DegenerateInputError::EmptySeries,
        }),
{
    let n = sorted.len();
    if n == 0 {
        return Err(DegenerateInputError::EmptySeries);
    }
    let num = p.num as u128;
    let den = p.den as u128;
    proof {
        lemma_mul_upper_bound(n as int, MAX_SAMPLES as int, p.num as int, u64::MAX as int);
    }
    let k = ((n as u128) * num + den - 1) / den;
    proof {
        lemma_ceil_div_bounds(n as int, p.num as int, p.den as int);
    }
    let idx = n - (k as usize);
    Ok(Ratio::new(1_000_000, sorted.index(idx) as u128))
}

/// Average P-percentile low FPS: with `k = floor(count * p)`, the FPS implied
/// by the average of the `k` largest (worst) frame times of the ascending
/// series. A window that rounds down to zero samples is refused instead of
/// producing a zero-by-zero division.
pub fn calculate_average_ranged_fps(sorted: &SortedFrameTimeSeries, p: Percentile) -> (r: Result<
    Ratio,
    DegenerateInputError,
>)
    requires
        valid_series(sorted@),
        p.wf(),
    ensures
        (match r {
            Ok(f) => {
                let k = average_ranged_tail_len(sorted@.len() as int, p);
                &&& sorted@.len() >= 1
                &&& k >= 1
                &&& f.num == 1_000_000 * k
                &&& f.den == sum_us(sorted@.subrange(sorted@.len() - k, sorted@.len() as int))
            },
            Err(e) => (sorted@.len() == 0 && e == DegenerateInputError::EmptySeries) || (
            sorted@.len() >= 1 && average_ranged_tail_len(sorted@.len() as int, p) == 0 && e
                == DegenerateInputError::EmptyPercentileWindow),
        }),
{
    let n = sorted.len();
    if n == 0 {
        return Err(DegenerateInputError::EmptySeries);
    }
    proof {
        lemma_mul_upper_bound(n as int, MAX_SAMPLES as int, p.num as int, u64::MAX as int);
    }
    let k128 = ((n as u128) * (p.num as u128)) / (p.den as u128);
    proof {
        lemma_floor_div_bounds(n as int, p.num as int, p.den as int);
    }
    if k128 == 0 {
        return Err(DegenerateInputError::EmptyPercentileWindow);
    }
    let k = k128 as usize;
    let lo = n - k;
    let mut total: u64 = 0;
    let mut i: usize = lo;
    while i < n
        invariant
            lo <= i <= n,
            n == sorted@.len(),
            valid_series(sorted@),
            total == sum_us(sorted@.subrange(lo as int, i as int)),
        decreases n - i,
    {
        proof {
            let part = sorted@.subrange(lo as int, i as int);
            assert(forall|t: int| 0 <= t < part.len() ==> part[t] <= MAX_FRAME_TIME_US);
            lemma_sum_us_bounds(part);
            crate::series::lemma_sum_us_extend(sorted@, lo as int, i as int);
            assert(part.len() * (MAX_FRAME_TIME_US as int) <= (MAX_SAMPLES as int) * (
            MAX_FRAME_TIME_US as int)) by {
                lemma_mul_inequality(part.len() as int, MAX_SAMPLES as int,
                    MAX_FRAME_TIME_US as int);
            }
        }
        total = total + sorted.index(i);
        i = i + 1;
    }
    Ok(Ratio::new(1_000_000 * (k as u128), total as u128))
}

/// Percent of frames below the FPS threshold that `threshold_us` expresses in
/// time form: `100 * count / total`, counting the frame times strictly above
/// the threshold, since frame time and FPS are inversely related.
pub fn percent_time_below_threshold(series: &FrameTimeSeries, threshold_us: u64) -> (r: Result<
    Ratio,
    DegenerateInputError,
>)
    requires
        series.wf(),
    ensures
        (match r {
            Ok(f) => series@.len() >= 1 && f.num == 100 * count_above(series@, threshold_us)
                && f.den == series@.len(),
            Err(e) => series@.len() == 0 && e == DegenerateInputError::EmptySeries,
        }),
{
    let n = series.len();
    if n == 0 {
        return Err(DegenerateInputError::EmptySeries);
    }
    let mut count: u64 = 0;
    let mut i: usize = 0;
    while i < n
        invariant
            i <= n,
            n == series@.len(),
            series.wf(),
            count <= i,
            count == count_above(series@.subrange(0, i as int), threshold_us),
        decreases n - i,
    {
        proof {
            lemma_count_above_extend(series@, i as int, threshold_us);
        }
        if series.index(i) > threshold_us {
            count = count + 1;
        }
        i = i + 1;
    }
    proof {
        assert(series@.subrange(0, n as int) =~= series@);
    }
    Ok(Ratio::new(100 * (count as u128), n as u128))
}

/// Absolute difference of two frame times.
pub open spec fn abs_diff_us(a: u64, b: u64) -> int {
    if a >= b {
        a - b
    } else {
        b - a
    }
}

/// Sum over consecutive pairs of `|x_i - x_(i-1)|`, in capture order.
pub open spec fn jitter_total_us(s: Seq<u64>) -> int
    decreases s.len(),
{
    if s.len() <= 1 {
        0
    } else {
        jitter_total_us(s.drop_last()) + abs_diff_us(s[s.len() - 1], s[s.len() - 2])
    }
}

/// Extending the pairwise total by the pair ending at `i`.
proof fn lemma_jitter_extend(s: Seq<u64>, i: int)
    requires
        1 <= i < s.len(),
    ensures
        jitter_total_us(s.subrange(0, i + 1)) == jitter_total_us(s.subrange(0, i)) + abs_diff_us(
            s[i],
            s[i - 1],
        ),
{
    assert(s.subrange(0, i + 1).drop_last() =~= s.subrange(0, i));
    assert(s.subrange(0, i + 1)[i] == s[i]);
    assert(s.subrange(0, i + 1)[i - 1] == s[i - 1]);
}

/// The pairwise total of a capped series is bounded by its length times the
/// cap.
proof fn lemma_jitter_bounds(s: Seq<u64>)
    requires
        forall|i: int| 0 <= i < s.len() ==> s[i] <= MAX_FRAME_TIME_US,
    ensures
        0 <= jitter_total_us(s) <= s.len() * (MAX_FRAME_TIME_US as int),
    decreases s.len(),
{
    if s.len() > 1 {
        assert(forall|i: int|
            0 <= i < s.drop_last().len() ==> s.drop_last()[i] <= MAX_FRAME_TIME_US);
        lemma_jitter_bounds(s.drop_last());
    }
}

/// Extending the strictly-above count by the value at `i`.
proof fn lemma_count_above_extend(s: Seq<u64>, i: int, threshold_us: u64)
    requires
        0 <= i < s.len(),
    ensures
        count_above(s.subrange(0, i + 1), threshold_us) == count_above(
            s.subrange(0, i),
            threshold_us,
        ) + if s[i] > threshold_us {
            1int
        } else {
            0int
        },
{
    assert(s.subrange(0, i + 1).drop_last() =~= s.subrange(0, i));
    assert(s.subrange(0, i + 1).last() == s[i]);
}

/// Jitter in milliseconds: the mean absolute frame-to-frame delta in original
/// capture order, `jitter_total / (count - 1)`, computed before any sort.
/// A single sample has no pair, so it is refused rather than divided by zero.
pub fn calculate_jitter(series: &FrameTimeSeries) -> (r: Result<Ratio, DegenerateInputError>)
    requires
        series.wf(),
    ensures
        (match r {
            Ok(f) => series@.len() >= 2 && f.num == jitter_total_us(series@) && f.den == (
            series@.len() - 1) * 1000,
            Err(e) => (series@.len() == 0 && e == DegenerateInputError::EmptySeries) || (
            series@.len() == 1 && e == DegenerateInputError::SingleSample),
        }),
{
    let n = series.len();
    if n == 0 {
        return Err(DegenerateInputError::EmptySeries);
    }
    if n == 1 {
        return Err(DegenerateInputError::SingleSample);
    }
    let mut total: u64 = 0;
    let mut i: usize = 1;
    while i < n
        invariant
            1 <= i <= n,
            n == series@.len(),
            series.wf(),
            total == jitter_total_us(series@.subrange(0, i as int)),
        decreases n - i,
    {
        proof {
            let prefix = series@.subrange(0, i as int);
            assert(forall|t: int| 0 <= t < prefix.len() ==> prefix[t] <= MAX_FRAME_TIME_US);
            lemma_jitter_bounds(prefix);
            lemma_jitter_extend(series@, i as int);
            assert(prefix.len() * (MAX_FRAME_TIME_US as int) <= (MAX_SAMPLES as int) * (
            MAX_FRAME_TIME_US as int)) by {
                lemma_mul_inequality(prefix.len() as int, MAX_SAMPLES as int,
                    MAX_FRAME_TIME_US as int);
            }
        }
        let prev = series.index(i - 1);
        let cur = series.index(i);
        let delta = if cur >= prev {
            cur - prev
        } else {
            prev - cur
        };
        total = total + delta;
        i = i + 1;
    }
    proof {
        assert(series@.subrange(0, n as int) =~= series@);
    }
    Ok(Ratio::new(total as u128, ((n - 1) as u128) * 1000))
}

/// Sum of squared values of `s`, in squared microseconds.
pub open spec fn sum_sq_us(s: Seq<u64>) -> int
    decreases s.len(),
{
    if s.len() == 0 {
        0
    } else {
        sum_sq_us(s.drop_last()) + s.last() * s.last()
    }
}

/// Sum of squared deviations of the values of `s` from `y`.
spec fn sum_sq_dev(s: Seq<u64>, y: u64) -> int
    decreases s.len(),
{
    if s.len() == 0 {
        0
    } else {
        sum_sq_dev(s.drop_last(), y) + (s.last() - y) * (s.last() - y)
    }
}

/// Extending a prefix sum of squares by the value at `i`.
proof fn lemma_sum_sq_extend(s: Seq<u64>, i: int)
    requires
        0 <= i < s.len(),
    ensures
        sum_sq_us(s.subrange(0, i + 1)) == sum_sq_us(s.subrange(0, i)) + s[i] * s[i],
{
    assert(s.subrange(0, i + 1).drop_last() =~= s.subrange(0, i));
    assert(s.subrange(0, i + 1).last() == s[i]);
}

/// The sum of squares of a capped series is bounded by its length times the
/// squared cap.
proof fn lemma_sum_sq_bounds(s: Seq<u64>)
    requires
        forall|i: int| 0 <= i < s.len() ==> s[i] <= MAX_FRAME_TIME_US,
    ensures
        0 <= sum_sq_us(s) <= s.len() * ((MAX_FRAME_TIME_US as int) * (MAX_FRAME_TIME_US as int)),
    decreases s.len(),
{
    if s.len() > 0 {
        assert(forall|i: int|
            0 <= i < s.drop_last().len() ==> s.drop_last()[i] <= MAX_FRAME_TIME_US);
        lemma_sum_sq_bounds(s.drop_last());
        lemma_mul_upper_bound(
            s.last() as int,
            MAX_FRAME_TIME_US as int,
            s.last() as int,
            MAX_FRAME_TIME_US as int,
        );
        let c = (MAX_FRAME_TIME_US as int) * (MAX_FRAME_TIME_US as int);
        assert(s.len() * c == (s.len() - 1) * c + c) by (nonlinear_arith);
    }
}

/// A sum of squared deviations is never negative.
proof fn lemma_sum_sq_dev_nonneg(s: Seq<u64>, y: u64)
    ensures
        sum_sq_dev(s, y) >= 0,
    decreases s.len(),
{
    if s.len() > 0 {
        lemma_sum_sq_dev_nonneg(s.drop_last(), y);
        let d = s.last() - y;
        assert(d * d >= 0) by (nonlinear_arith);
    }
}

/// Binomial expansion of the sum of squared deviations:
/// `sum((x - y)^2) == sum(x^2) - 2*y*sum(x) + len*y^2`.
proof fn lemma_sum_sq_dev_expand(s: Seq<u64>, y: u64)
    ensures
        sum_sq_dev(s, y) == sum_sq_us(s) - 2 * y * sum_us(s) + s.len() * ((y as int) * (
        y as int)),
    decreases s.len(),
{
    if s.len() > 0 {
        lemma_sum_sq_dev_expand(s.drop_last(), y);
        let l = s.last() as int;
        let yy = y as int;
        let n = s.drop_last().len() as int;
        let sm = sum_us(s.drop_last());
        assert((l - yy) * (l - yy) == l * l - 2 * yy * l + yy * yy) by (nonlinear_arith);
        assert(2 * yy * (sm + l) == 2 * yy * sm + 2 * yy * l) by (nonlinear_arith);
        assert((n + 1) * (yy * yy) == n * (yy * yy) + yy * yy) by (nonlinear_arith);
    }
}

/// One induction step of the Cauchy-Schwarz bound.
proof fn lemma_cauchy_step(n: int, q: int, sm: int, l: int)
    by (nonlinear_arith)
    requires
        n >= 0,
        n * q >= sm * sm,
        q - 2 * l * sm + n * (l * l) >= 0,
    ensures
        (n + 1) * (q + l * l) >= (sm + l) * (sm + l),
{
}

/// Cauchy-Schwarz for the variance numerator: for every series,
/// `len * sum(x^2) >= (sum(x))^2`, so the population variance is never
/// negative.
pub proof fn lemma_variance_numerator_nonneg(s: Seq<u64>)
    ensures
        s.len() * sum_sq_us(s) >= sum_us(s) * sum_us(s),
    decreases s.len(),
{
    if s.len() == 0 {
        assert(sum_us(s) * sum_us(s) == 0) by (nonlinear_arith)
            requires
                sum_us(s) == 0,
        ;
    } else {
        let dl = s.drop_last();
        let l = s.last();
        lemma_variance_numerator_nonneg(dl);
        lemma_sum_sq_dev_expand(dl, l);
        lemma_sum_sq_dev_nonneg(dl, l);
        lemma_cauchy_step(dl.len() as int, sum_sq_us(dl), sum_us(dl), l as int);
    }
}

/// Sum of squared frame times of a valid series; fits `u128` because both
/// the length and the values are capped at 32 bits.
fn sum_sq_frame_times(series: &FrameTimeSeries) -> (q: u128)
    requires
        series.wf(),
    ensures
        q == sum_sq_us(series@),
{
    let n = series.len();
    let mut sumsq: u128 = 0;
    let mut i: usize = 0;
    while i < n
        invariant
            i <= n,
            n == series@.len(),
            series.wf(),
            sumsq == sum_sq_us(series@.subrange(0, i as int)),
        decreases n - i,
    {
        proof {
            let prefix = series@.subrange(0, i as int);
            assert(forall|k: int| 0 <= k < prefix.len() ==> prefix[k] <= MAX_FRAME_TIME_US);
            lemma_sum_sq_bounds(prefix);
            lemma_sum_sq_extend(series@, i as int);
            lemma_mul_upper_bound(series@[i as int] as int, MAX_FRAME_TIME_US as int,
                series@[i as int] as int, MAX_FRAME_TIME_US as int);
            assert(prefix.len() * ((MAX_FRAME_TIME_US as int) * (MAX_FRAME_TIME_US as int)) <= (
            MAX_SAMPLES as int) * ((MAX_FRAME_TIME_US as int) * (MAX_FRAME_TIME_US as int))) by {
                lemma_mul_inequality(prefix.len() as int, MAX_SAMPLES as int,
                    (MAX_FRAME_TIME_US as int) * (MAX_FRAME_TIME_US as int));
            }
        }
        let v = series.index(i);
        sumsq = sumsq + (v as u128) * (v as u128);
        i = i + 1;
    }
    proof {
        assert(series@.subrange(0, n as int) =~= series@);
    }
    sumsq
}

/// Variance of the frame times in squared milliseconds: the square of the
/// population standard deviation, `sum((x - mean)^2) / count` with the count
/// as denominator, computed exactly as
/// `(count * sum(x^2) - sum(x)^2) / (count^2 * 1_000_000)`.
/// The square root — the standard deviation itself — is irrational in
/// general; the caller takes it at its own floating-point boundary.
pub fn variance(series: &FrameTimeSeries) -> (r: Result<Ratio, DegenerateInputError>)
    requires
        series.wf(),
    ensures
        (match r {
            Ok(v) => series@.len() >= 2 && v.num == series@.len() * sum_sq_us(series@) - sum_us(
                series@,
            ) * sum_us(series@) && v.den == series@.len() * series@.len() * 1_000_000,
            Err(e) => (series@.len() == 0 && e == DegenerateInputError::EmptySeries) || (
            series@.len() == 1 && e == DegenerateInputError::SingleSample),
        }),
{
    let n = series.len();
    if n == 0 {
        return Err(DegenerateInputError::EmptySeries);
    }
    if n == 1 {
        return Err(DegenerateInputError::SingleSample);
    }
    let total = sum_frame_times(series);
    let sumsq = sum_sq_frame_times(series);
    proof {
        assert(forall|k: int| 0 <= k < series@.len() ==> series@[k] <= MAX_FRAME_TIME_US);
        lemma_sum_us_bounds(series@);
        lemma_sum_sq_bounds(series@);
        lemma_variance_numerator_nonneg(series@);
        lemma_mul_upper_bound(n as int, MAX_SAMPLES as int, sum_sq_us(series@),
            (MAX_SAMPLES as int) * ((MAX_FRAME_TIME_US as int) * (MAX_FRAME_TIME_US as int)));
        lemma_mul_upper_bound(sum_us(series@), (MAX_SAMPLES as int) * (MAX_FRAME_TIME_US as int),
            sum_us(series@), (MAX_SAMPLES as int) * (MAX_FRAME_TIME_US as int));
        lemma_mul_upper_bound(n as int, MAX_SAMPLES as int, n as int, MAX_SAMPLES as int);
    }
    let num = (n as u128) * sumsq - (total as u128) * (total as u128);
    let den = (n as u128) * (n as u128) * 1_000_000;
    Ok(Ratio::new(num, den))
}

/// For every non-empty ascending series, the median FPS is exactly the
/// inverse of the median frame time: `median_fps == 1000 / median_frametime_ms`,
/// stated over the exact rationals as
/// `median_fps == (1000 * 1000) / median_frametime_us`.
pub proof fn lemma_median_fps_inverts_median_frametime(s: Seq<u64>)
    requires
        s.len() >= 1,
    ensures
        ratio_represents(
            fps_of_frametime_us(spec_median_frametime(s)),
            1000int * 1000int,
            spec_median_frametime(s) as int,
        ),
{
}

} // verus!
