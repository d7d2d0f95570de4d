//! The ingestion boundary and the report assembly.

use rusty_present_parser::ingest::{parse_drop_field, DropField, Ingest};
use rusty_present_parser::ratio::Ratio;
use rusty_present_parser::report::{build_report, THRESHOLD_144_FPS_US, THRESHOLD_60_FPS_US};
use rusty_present_parser::stats::DegenerateInputError;

fn field(text: &str) -> Vec<u8> {
    text.as_bytes().to_vec()
}

fn ratio_f64(r: Ratio) -> f64 {
    r.num as f64 / r.den as f64
}

#[test]
fn drop_field_counts_parse() {
    assert_eq!(DropField::Count(0), parse_drop_field(&field("0")));
    assert_eq!(DropField::Count(12), parse_drop_field(&field("12")));
    assert_eq!(DropField::Count(7), parse_drop_field(&field("+7")));
    assert_eq!(DropField::Count(7), parse_drop_field(&field("007")));
    assert_eq!(
        DropField::Count(u64::MAX),
        parse_drop_field(&field("18446744073709551615"))
    );
}

#[test]
fn drop_field_sentinel_and_malformed_taint() {
    assert_eq!(DropField::Error, parse_drop_field(&field("Error")));
    assert_eq!(DropField::Error, parse_drop_field(&field("")));
    assert_eq!(DropField::Error, parse_drop_field(&field("+")));
    assert_eq!(DropField::Error, parse_drop_field(&field("1a")));
    assert_eq!(DropField::Error, parse_drop_field(&field("-1")));
    // One past u64::MAX overflows and taints instead of wrapping.
    assert_eq!(DropField::Error, parse_drop_field(&field("18446744073709551616")));
}

#[test]
fn ingestion_accumulates_and_taints() {
    let mut ingest = Ingest::new();
    assert!(ingest.add_row(16660, DropField::Count(2)));
    assert!(ingest.add_row(20000, DropField::Error));
    assert!(ingest.add_row(14000, DropField::Count(3)));
    // The tainted row still contributes its frame time, only the count skips.
    assert_eq!(3, ingest.series.len());
    assert_eq!(5, ingest.dropped_frames);
    assert!(ingest.dataset_has_error);
}

#[test]
fn ingestion_without_errors_stays_clean() {
    let mut ingest = Ingest::new();
    assert!(ingest.add_row(16660, DropField::Count(0)));
    assert!(ingest.add_row(20000, DropField::Count(1)));
    assert_eq!(1, ingest.dropped_frames);
    assert!(!ingest.dataset_has_error);
}

#[test]
fn report_of_a_small_capture() {
    let mut ingest = Ingest::new();
    for t in [136000u64, 184000, 115000, 148000, 125000] {
        assert!(ingest.add_row(t, DropField::Count(0)));
    }
    let sorted = ingest.series.sorted();
    let report = build_report(&ingest, &sorted, String::from("capture.csv")).unwrap();
    assert_eq!("capture.csv", report.source);
    assert_eq!(5, report.sample_count);
    assert_eq!(0, report.dropped_frames);
    assert!(!report.dataset_has_error);
    assert_eq!(708000, report.total_frame_time_us);
    assert_eq!(43.25, ratio_f64(report.jitter));
    // Median of [115, 125, 136, 148, 184] ms is 136 ms.
    assert_eq!(136000, report.median_frametime_us);
    assert_eq!((1_000_000, 136000), (report.median_fps.num, report.median_fps.den));
    assert_eq!((1_000_000, 115000), (report.max_fps.num, report.max_fps.den));
    assert_eq!((1_000_000, 184000), (report.min_fps.num, report.min_fps.den));
    // ceil(5/100) == 1 and ceil(5/1000) == 1: both lows read the last value.
    assert_eq!((1_000_000, 184000), (
        report.one_percent_low_fps.num,
        report.one_percent_low_fps.den,
    ));
    assert_eq!((1_000_000, 184000), (
        report.point_one_percent_low_fps.num,
        report.point_one_percent_low_fps.den,
    ));
    // floor(5/100) == 0: no average-percentile window on five samples.
    assert_eq!(None, report.average_one_percent_low_fps);
    assert_eq!(None, report.average_point_one_percent_low_fps);
    assert_eq!(141.6, ratio_f64(report.average_frametime));
    assert_eq!((5_000_000, 708000), (report.average_fps.num, report.average_fps.den));
    // Every frame time is above both thresholds: 100% below 60 and 144 FPS.
    assert_eq!(100.0, ratio_f64(report.percent_below_60_fps));
    assert_eq!(100.0, ratio_f64(report.percent_below_144_fps));
    assert_eq!(100.0, ratio_f64(report.percent_below_165_fps));
    assert_eq!(100.0, ratio_f64(report.percent_below_240_fps));
}

#[test]
fn report_needs_two_samples() {
    let ingest = Ingest::new();
    let sorted = ingest.series.sorted();
    assert_eq!(
        DegenerateInputError::EmptySeries,
        build_report(&ingest, &sorted, String::from("empty.csv")).unwrap_err()
    );
    let mut one = Ingest::new();
    assert!(one.add_row(16660, DropField::Count(0)));
    let sorted_one = one.series.sorted();
    assert_eq!(
        DegenerateInputError::SingleSample,
        build_report(&one, &sorted_one, String::from("one.csv")).unwrap_err()
    );
}

#[test]
fn report_thresholds_are_the_standard_ones() {
    assert_eq!(16660, THRESHOLD_60_FPS_US);
    assert_eq!(6944, THRESHOLD_144_FPS_US);
}
