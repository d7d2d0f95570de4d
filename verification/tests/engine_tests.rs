//! Degenerate inputs, exact formulas, and the engine's general laws on
//! concrete values.

use rusty_present_parser::ratio::Ratio;
use rusty_present_parser::series::FrameTimeSeries;
use rusty_present_parser::stats::{
    average_frametime, calculate_average_fps, calculate_average_ranged_fps, calculate_jitter,
    calculate_max_fps, calculate_median_fps, calculate_min_fps, calculate_ranged_fps,
    median_frametime, percent_time_below_threshold, total_frame_time, variance,
    DegenerateInputError, Percentile,
};

fn ratio_f64(r: Ratio) -> f64 {
    r.num as f64 / r.den as f64
}

fn series_of_us(values_us: &[u64]) -> FrameTimeSeries {
    let mut series = FrameTimeSeries::new();
    for v in values_us {
        assert!(series.push(*v));
    }
    series
}

#[test]
fn empty_series_fails_every_metric() {
    let series = FrameTimeSeries::new();
    let sorted = series.sorted();
    let empty = DegenerateInputError::EmptySeries;
    assert_eq!(Err(empty), total_frame_time(&series));
    assert_eq!(Err(empty), average_frametime(&series));
    assert_eq!(Err(empty), calculate_average_fps(&series));
    assert_eq!(Err(empty), calculate_jitter(&series));
    assert_eq!(Err(empty), variance(&series));
    assert_eq!(Err(empty), percent_time_below_threshold(&series, 16660));
    assert_eq!(Err(empty), median_frametime(&sorted));
    assert_eq!(Err(empty), calculate_median_fps(&sorted));
    assert_eq!(Err(empty), calculate_max_fps(&sorted));
    assert_eq!(Err(empty), calculate_min_fps(&sorted));
    assert_eq!(Err(empty), calculate_ranged_fps(&sorted, Percentile::new(1, 100)));
    assert_eq!(
        Err(empty),
        calculate_average_ranged_fps(&sorted, Percentile::new(1, 100))
    );
}

#[test]
fn single_sample_fails_jitter_and_variance() {
    let series = series_of_us(&[5000]);
    assert_eq!(Err(DegenerateInputError::SingleSample), calculate_jitter(&series));
    assert_eq!(Err(DegenerateInputError::SingleSample), variance(&series));
}

#[test]
fn small_series_has_no_average_percentile_window() {
    // floor(5 * 1/100) == 0: no sample lies in the window.
    let series = series_of_us(&[5000, 6000, 7000, 8000, 9000]);
    let sorted = series.sorted();
    assert_eq!(
        Err(DegenerateInputError::EmptyPercentileWindow),
        calculate_average_ranged_fps(&sorted, Percentile::new(1, 100))
    );
}

#[test]
fn sorting_keeps_length_and_total() {
    // The sorted copy holds the same values: same length, same total.
    let series = series_of_us(&[9000, 1000, 5000, 5000, 2000]);
    let sorted = series.sorted();
    assert_eq!(series.len(), sorted.len());
    assert_eq!(Ok(22000), total_frame_time(&series));
    let mut sorted_total: u64 = 0;
    for i in 0..sorted.len() {
        sorted_total += sorted.index(i);
        if i + 1 < sorted.len() {
            assert!(sorted.index(i) <= sorted.index(i + 1));
        }
    }
    assert_eq!(22000, sorted_total);
}

#[test]
fn sorted_arrangement_is_deterministic() {
    // Two permutations of the same values sort to the same sequence.
    let a = series_of_us(&[9000, 1000, 5000, 5000, 2000]).sorted();
    let b = series_of_us(&[5000, 2000, 9000, 5000, 1000]).sorted();
    assert_eq!(a.len(), b.len());
    for i in 0..a.len() {
        assert_eq!(a.index(i), b.index(i));
    }
}

#[test]
fn median_fps_is_inverse_of_median_frametime() {
    // Cross-multiplied: median_fps == 1_000_000 / median_frametime_us.
    let series = series_of_us(&[9000, 1000, 5000, 2000]);
    let sorted = series.sorted();
    let med = median_frametime(&sorted).unwrap();
    let fps = calculate_median_fps(&sorted).unwrap();
    assert_eq!(2000, med);
    assert_eq!(fps.num * med as u128, 1_000_000 * fps.den);
}

#[test]
fn max_and_min_fps_use_the_extremes() {
    let series = series_of_us(&[9000, 1000, 5000]);
    let sorted = series.sorted();
    let max = calculate_max_fps(&sorted).unwrap();
    let min = calculate_min_fps(&sorted).unwrap();
    assert_eq!((1_000_000, 1000), (max.num, max.den));
    assert_eq!((1_000_000, 9000), (min.num, min.den));
}

#[test]
fn full_percentile_window_reaches_the_smallest_frametime() {
    // ceil(4 * 1/1) == 4: the whole series is the tail, index 0 is the boundary.
    let series = series_of_us(&[9000, 1000, 5000, 2000]);
    let sorted = series.sorted();
    let fps = calculate_ranged_fps(&sorted, Percentile::new(1, 1)).unwrap();
    assert_eq!((1_000_000, 1000), (fps.num, fps.den));
}

#[test]
fn variance_of_two_samples() {
    // 1.0 ms and 3.0 ms: mean 2.0 ms, deviations 1.0 ms each, variance 1.0 ms^2.
    let series = series_of_us(&[1000, 3000]);
    let v = variance(&series).unwrap();
    assert_eq!(1.0, ratio_f64(v));
    assert_eq!((4_000_000, 4_000_000), (v.num, v.den));
}

#[test]
fn threshold_counts_strictly_above() {
    // A frame time equal to the threshold is not below the FPS threshold.
    let series = series_of_us(&[16660, 16661, 16659]);
    let p = percent_time_below_threshold(&series, 16660).unwrap();
    assert_eq!((100, 3), (p.num, p.den));
}
