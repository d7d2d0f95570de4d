//! The statistics engine on known datasets.

use rand::{thread_rng, Rng};
use rusty_present_parser::ratio::Ratio;
use rusty_present_parser::series::FrameTimeSeries;
use rusty_present_parser::stats::{
    calculate_average_fps, calculate_average_ranged_fps, calculate_jitter, calculate_median_fps,
    calculate_ranged_fps, percent_time_below_threshold, Percentile,
};

/// Milliseconds to the library's whole-microsecond frame times.
fn to_us(ms: f64) -> u64 {
    (ms * 1000.0).round() as u64
}

/// A series from frame times in milliseconds, in the given order.
fn series_of(values_ms: &[f64]) -> FrameTimeSeries {
    let mut series = FrameTimeSeries::new();
    for ms in values_ms {
        assert!(series.push(to_us(*ms)));
    }
    series
}

/// The exact rational result as a float, for comparison with hand-computed
/// expected values.
fn ratio_f64(r: Ratio) -> f64 {
    r.num as f64 / r.den as f64
}

#[test]
fn jitter_correct() {
    //Test will check that given a defined set the result matches what is expected for that set
    let series = series_of(&[136.0, 184.0, 115.0, 148.0, 125.0]);
    assert_eq!(43.25, ratio_f64(calculate_jitter(&series).unwrap()));
}

#[test]
fn below_threshold_count() {
    //Test will check that given a defined set and threshold what is returned is the correct
    //percentage of values below the given threshold
    let series = series_of(&[23.3, 12.2, 45.6, 16.6, 16.5]);
    assert_eq!(
        40.0,
        ratio_f64(percent_time_below_threshold(&series, to_us(16.66)).unwrap())
    );
}

#[test]
fn median_odd_set() {
    //Test will check that a correct median value (in FPS) for an odd set is returned
    let series = series_of(&[2.3, 5.6, 1.0, 9.6, 12.3]);
    let sorted = series.sorted();
    assert_eq!(
        178.57142857142858,
        ratio_f64(calculate_median_fps(&sorted).unwrap())
    );
}

#[test]
fn median_even_set() {
    //Test will check that a correct median value (in FPS) for an even set is returned
    //The correct value in our case is the bottom of the two middle values not the average
    let series = series_of(&[2.3, 5.6, 1.0, 9.6, 12.3, 4.8]);
    let sorted = series.sorted();
    assert_eq!(
        208.33333333333334,
        ratio_f64(calculate_median_fps(&sorted).unwrap())
    );
}

#[test]
fn correct_avg_fps() {
    let series = series_of(&[2.3, 5.6, 1.0, 9.6, 12.3, 4.8]);
    assert_eq!(
        168.53932584269663,
        ratio_f64(calculate_average_fps(&series).unwrap())
    );
}

#[test]
fn correct_avg_frametime() {
    let series = series_of(&[2.3, 5.6, 1.0, 9.6, 12.3, 4.8]);
    assert_eq!(
        5.933333333333334,
        ratio_f64(rusty_present_parser::stats::average_frametime(&series).unwrap())
    );
}

#[test]
fn correct_ranged_fps_zero_point_one_percent_low() {
    //Test will generate a dataset of 1000 and then fill the 1 percent position with a defined value
    //The result that returns should exactly match the defined value in FPS
    //The filler values stay below the defined one, so that the ascending sort
    //leaves it at the final index
    let mut rng = thread_rng();
    let mut series = FrameTimeSeries::new();
    for _ in 0..999 {
        let ms: f64 = rng.gen_range(1.0, 16.66);
        assert!(series.push(to_us(ms)));
    }
    assert!(series.push(to_us(16.66)));
    let sorted = series.sorted();
    assert_eq!(
        1000.0 / 16.66,
        ratio_f64(calculate_ranged_fps(&sorted, Percentile::new(1, 1000)).unwrap())
    );
}

#[test]
fn correct_average_ranged_fps_one_percent_low() {
    //Test will generate a dataset of 1000 and then fill the last 1 percent with defined values
    //The result that returns should exactly match a value calculated by hand from the defined values
    //The filler values stay below the smallest defined one, so that the ascending
    //sort leaves the defined ten as the last ten
    let mut rng = thread_rng();
    let mut series = FrameTimeSeries::new();
    for _ in 0..990 {
        let ms: f64 = rng.gen_range(1.0, 3.45);
        assert!(series.push(to_us(ms)));
    }
    for ms in [16.66, 5.66, 3.45, 17.78, 14.56, 12.34, 16.54, 6.55, 8.67, 9.99] {
        assert!(series.push(to_us(ms)));
    }
    let sorted = series.sorted();
    //112.2 Average Frametime: 11.22 FPS: 89.126559714795008912655971479501
    assert_eq!(
        89.12655971479501,
        ratio_f64(calculate_average_ranged_fps(&sorted, Percentile::new(1, 100)).unwrap())
    );
}
