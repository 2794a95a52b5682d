//! Tests of the analysis helpers: hour parsing, period buckets and the
//! summary sentence.

use pomodoro_core::analysis::build_summary;
use pomodoro_core::analysis::parse_hour;
use pomodoro_core::analysis::period_index;
use pomodoro_core::analysis::time_range_label;

/// Boundary hours and loosely padded fields parse.
#[test]
fn parse_hour_supports_boundaries() {
    assert_eq!(parse_hour("00:00"), Some(0));
    assert_eq!(parse_hour("23:59"), Some(23));
    assert_eq!(parse_hour(" 9:01 "), Some(9));
}

/// Malformed or out-of-range hour fields give nothing.
#[test]
fn parse_hour_rejects_invalid_format() {
    assert_eq!(parse_hour(""), None);
    assert_eq!(parse_hour("xx:yy"), None);
    assert_eq!(parse_hour("24:00"), None);
    assert_eq!(parse_hour("12"), Some(12));
}

/// The period buckets split at 0, 6, 12 and 18.
#[test]
fn period_index_respects_boundaries() {
    assert_eq!(period_index(0), 0);
    assert_eq!(period_index(5), 0);
    assert_eq!(period_index(6), 1);
    assert_eq!(period_index(11), 1);
    assert_eq!(period_index(12), 2);
    assert_eq!(period_index(17), 2);
    assert_eq!(period_index(18), 3);
    assert_eq!(period_index(23), 3);
}

/// Without any data, the summary says so.
#[test]
fn build_summary_returns_no_data_when_empty() {
    assert_eq!(build_summary(&vec![0u32; 24]), "暂无分析数据");
}

/// An input that is not 24 hours long gives the no-data sentence.
#[test]
fn build_summary_returns_no_data_when_len_is_not_24() {
    assert_eq!(build_summary(&vec![0u32; 0]), "暂无分析数据");
    assert_eq!(build_summary(&vec![0u32; 23]), "暂无分析数据");
    assert_eq!(build_summary(&vec![0u32; 25]), "暂无分析数据");
}

/// The summary names the fullest two-hour window.
#[test]
fn build_summary_picks_best_two_hour_window() {
    let mut hourly = vec![0u32; 24];
    hourly[8] = 1;
    hourly[9] = 3;
    hourly[10] = 3;
    hourly[11] = 1;
    let summary = build_summary(&hourly);
    assert!(summary.contains("专注效率最高"));
    assert!(summary.contains("上午 9-11 点"));
}

/// The label names the period of the day and handles the 12 o'clock
/// boundary.
#[test]
fn time_range_label_formats_periods_and_12_boundary() {
    assert_eq!(time_range_label(0, 2), "凌晨 0-2 点");
    assert_eq!(time_range_label(6, 8), "上午 6-8 点");
    assert_eq!(time_range_label(12, 14), "下午 12-2 点");
    assert_eq!(time_range_label(18, 20), "晚上 6-8 点");
}
