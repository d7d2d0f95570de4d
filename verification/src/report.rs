//! Assembly of the per-file statistics report.

use crate::ingest::Ingest;
use crate::ratio::Ratio;
use crate::series::{sum_us, SortedFrameTimeSeries};
use crate::stats::{
    average_frametime, average_ranged_tail_len, calculate_average_fps, calculate_average_ranged_fps,
    calculate_jitter, calculate_max_fps, calculate_median_fps, calculate_min_fps,
    calculate_ranged_fps, count_above, fps_of_frametime_us, jitter_total_us, median_frametime,
    percent_time_below_threshold, ranged_tail_len, spec_median_frametime, sum_sq_us,
    total_frame_time, variance, DegenerateInputError, Percentile,
};
use vstd::prelude::*;

verus! {

/// 16.66 ms: the frame time of 60 FPS, in microseconds.
pub const THRESHOLD_60_FPS_US: u64 = 16660;

/// 6.944 ms: the frame time of 144 FPS, in microseconds.
pub const THRESHOLD_144_FPS_US: u64 = 6944;

/// 6.060 ms: the frame time of 165 FPS, in microseconds.
pub const THRESHOLD_165_FPS_US: u64 = 6060;

/// 4.166 ms: the frame time of 240 FPS, in microseconds.
pub const THRESHOLD_240_FPS_US: u64 = 4166;

/// The fixed per-file report: one field per metric, plus the dataset-taint
/// flag and the source file identifier. Created once per input file and
/// immutable afterwards.
#[derive(Debug)]
pub struct StatisticsReport {
    /// Identifier of the input the report describes.
    pub source: String,
    /// Number of frames rendered.
    pub sample_count: usize,
    /// Accumulated dropped-frame count.
    pub dropped_frames: u64,
    /// True when any row's drop-count field failed to parse: the results may
    /// undercount drops and must not be mistaken for authoritative.
    pub dataset_has_error: bool,
    /// Sum of all frame times, in microseconds.
    pub total_frame_time_us: u64,
    /// Mean absolute frame-to-frame delta in capture order, in ms.
    pub jitter: Ratio,
    /// Population variance of the frame times, in ms squared; its square
    /// root is the standard deviation.
    pub variance: Ratio,
    /// Median FPS.
    pub median_fps: Ratio,
    /// 1% low FPS.
    pub one_percent_low_fps: Ratio,
    /// 0.1% low FPS.
    pub point_one_percent_low_fps: Ratio,
    /// Average FPS.
    pub average_fps: Ratio,
    /// Average FPS over the worst 1% of frames; absent when 1% of the
    /// sample count rounds down to zero frames.
    pub average_one_percent_low_fps: Option<Ratio>,
    /// Average FPS over the worst 0.1% of frames; absent when 0.1% of the
    /// sample count rounds down to zero frames.
    pub average_point_one_percent_low_fps: Option<Ratio>,
    /// Maximum FPS.
    pub max_fps: Ratio,
    /// Minimum FPS.
    pub min_fps: Ratio,
    /// Median frame time, in microseconds.
    pub median_frametime_us: u64,
    /// Average frame time, in ms.
    pub average_frametime: Ratio,
    /// Percent of frames below 60 FPS.
    pub percent_below_60_fps: Ratio,
    /// Percent of frames below 144 FPS.
    pub percent_below_144_fps: Ratio,
    /// Percent of frames below 165 FPS.
    pub percent_below_165_fps: Ratio,
    /// Percent of frames below 240 FPS.
    pub percent_below_240_fps: Ratio,
}

/// Builds the full report from one file's ingestion and the sorted copy of
/// its series. The capture-order series feeds the order-sensitive and
/// order-insensitive metrics, the sorted copy the order statistics; the two
/// must hold the same values, as [`FrameTimeSeries::sorted`] guarantees.
/// A capture of fewer than two frames is refused: the report's jitter and
/// variance are undefined on it.
pub fn build_report(ingest: &Ingest, sorted: &SortedFrameTimeSeries, source: String) -> (r: Result<
    StatisticsReport,
    DegenerateInputError,
>)
    requires
        ingest.wf(),
        sorted.wf(),
        sorted@.to_multiset() == ingest.series@.to_multiset(),
    ensures
        (match r {
            Ok(rep) => {
                let s = ingest.series@;
                let t = sorted@;
                let n = s.len() as int;
                &&& n >= 2
                &&& rep.source == source
                &&& rep.sample_count == n
                &&& rep.dropped_frames == ingest.dropped_frames
                &&& rep.dataset_has_error == ingest.dataset_has_error
                &&& rep.total_frame_time_us == sum_us(s)
                &&& rep.jitter.num == jitter_total_us(s)
                &&& rep.jitter.den == (n - 1) * 1000
                &&& rep.variance.num == n * sum_sq_us(s) - sum_us(s) * sum_us(s)
                &&& rep.variance.den == n * n * 1_000_000
                &&& rep.median_frametime_us == spec_median_frametime(t)
                &&& rep.median_fps == fps_of_frametime_us(spec_median_frametime(t))
                &&& rep.max_fps == fps_of_frametime_us(t[0])
                &&& rep.min_fps == fps_of_frametime_us(t[n - 1])
                &&& rep.one_percent_low_fps == fps_of_frametime_us(
                    t[n - ranged_tail_len(n, (Percentile { num: 1, den: 100 }))],
                )
                &&& rep.point_one_percent_low_fps == fps_of_frametime_us(
                    t[n - ranged_tail_len(n, (Percentile { num: 1, den: 1000 }))],
                )
                &&& rep.average_fps.num == n * 1_000_000
                &&& rep.average_fps.den == sum_us(s)
                &&& rep.average_frametime.num == sum_us(s)
                &&& rep.average_frametime.den == n * 1000
                &&& {
                    let k = average_ranged_tail_len(n, (Percentile { num: 1, den: 100 }));
                    match rep.average_one_percent_low_fps {
                        Some(f) => k >= 1 && f.num == 1_000_000 * k && f.den == sum_us(
                            t.subrange(n - k, n),
                        ),
                        None => k == 0,
                    }
                }
                &&& {
                    let k = average_ranged_tail_len(n, (Percentile { num: 1, den: 1000 }));
                    match rep.average_point_one_percent_low_fps {
                        Some(f) => k >= 1 && f.num == 1_000_000 * k && f.den == sum_us(
                            t.subrange(n - k, n),
                        ),
                        None => k == 0,
                    }
                }
                &&& rep.percent_below_60_fps.num == 100 * count_above(s, THRESHOLD_60_FPS_US)
                &&& rep.percent_below_60_fps.den == n
                &&& rep.percent_below_144_fps.num == 100 * count_above(s, THRESHOLD_144_FPS_US)
                &&& rep.percent_below_144_fps.den == n
                &&& rep.percent_below_165_fps.num == 100 * count_above(s, THRESHOLD_165_FPS_US)
                &&& rep.percent_below_165_fps.den == n
                &&& rep.percent_below_240_fps.num == 100 * count_above(s, THRESHOLD_240_FPS_US)
                &&& rep.percent_below_240_fps.den == n
            },
            Err(e) => (ingest.series@.len() == 0 && e == DegenerateInputError::EmptySeries) || (
            ingest.series@.len() == 1 && e == DegenerateInputError::SingleSample),
        }),
{
    proof {
        crate::series::lemma_same_multiset_same_len_and_sum(sorted@, ingest.series@);
    }
    let series = &ingest.series;
    let jitter = match calculate_jitter(series) {
        Ok(j) => j,
        Err(e) => {
            return Err(e);
        },
    };
    let variance = match variance(series) {
        Ok(v) => v,
        Err(e) => {
            return Err(e);
        },
    };
    let total = match total_frame_time(series) {
        Ok(t) => t,
        Err(e) => {
            return Err(e);
        },
    };
    let one_percent = Percentile::new(1, 100);
    let point_one_percent = Percentile::new(1, 1000);
    let median_ft = match median_frametime(sorted) {
        Ok(m) => m,
        Err(e) => {
            return Err(e);
        },
    };
    let median_fps = match calculate_median_fps(sorted) {
        Ok(f) => f,
        Err(e) => {
            return Err(e);
        },
    };
    let max_fps = match calculate_max_fps(sorted) {
        Ok(f) => f,
        Err(e) => {
            return Err(e);
        },
    };
    let min_fps = match calculate_min_fps(sorted) {
        Ok(f) => f,
        Err(e) => {
            return Err(e);
        },
    };
    let one_low = match calculate_ranged_fps(sorted, one_percent) {
        Ok(f) => f,
        Err(e) => {
            return Err(e);
        },
    };
    let point_one_low = match calculate_ranged_fps(sorted, point_one_percent) {
        Ok(f) => f,
        Err(e) => {
            return Err(e);
        },
    };
    let avg_one_low = match calculate_average_ranged_fps(sorted, one_percent) {
        Ok(f) => Some(f),
        Err(_) => None,
    };
    let avg_point_one_low = match calculate_average_ranged_fps(sorted, point_one_percent) {
        Ok(f) => Some(f),
        Err(_) => None,
    };
    let average_fps = match calculate_average_fps(series) {
        Ok(f) => f,
        Err(e) => {
            return Err(e);
        },
    };
    let average_ft = match average_frametime(series) {
        Ok(f) => f,
        Err(e) => {
            return Err(e);
        },
    };
    let below_60 = match percent_time_below_threshold(series, THRESHOLD_60_FPS_US) {
        Ok(f) => f,
        Err(e) => {
            return Err(e);
        },
    };
    let below_144 = match percent_time_below_threshold(series, THRESHOLD_144_FPS_US) {
        Ok(f) => f,
        Err(e) => {
            return Err(e);
        },
    };
    let below_165 = match percent_time_below_threshold(series, THRESHOLD_165_FPS_US) {
        Ok(f) => f,
        Err(e) => {
            return Err(e);
        },
    };
    let below_240 = match percent_time_below_threshold(series, THRESHOLD_240_FPS_US) {
        Ok(f) => f,
        Err(e) => {
            return Err(e);
        },
    };
    let sample_count = series.len();
    Ok(
        StatisticsReport {
            source,
            sample_count,
            dropped_frames: ingest.dropped_frames,
            dataset_has_error: ingest.dataset_has_error,
            total_frame_time_us: total,
            jitter,
            variance,
            median_fps,
            one_percent_low_fps: one_low,
            point_one_percent_low_fps: point_one_low,
            average_fps,
            average_one_percent_low_fps: avg_one_low,
            average_point_one_percent_low_fps: avg_point_one_low,
            max_fps,
            min_fps,
            median_frametime_us: median_ft,
            average_frametime: average_ft,
            percent_below_60_fps: below_60,
            percent_below_144_fps: below_144,
            percent_below_165_fps: below_165,
            percent_below_240_fps: below_240,
        },
    )
}

} // verus!
