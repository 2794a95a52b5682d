//! Tests of the export helpers: columns, file names, row flattening and
//! end-time derivation.

use pomodoro_core::app_data::DateRange;
use pomodoro_core::app_data::HistoryDay;
use pomodoro_core::app_data::HistoryRecord;
use pomodoro_core::app_data::Phase;
use pomodoro_core::export::ExportField;
use pomodoro_core::export::ExportFormat;
use pomodoro_core::export::default_export_file_name;
use pomodoro_core::export::derive_end_time_hhmm;
use pomodoro_core::export::flatten_days_to_rows;
use pomodoro_core::export::minutes_to_hhmm;
use pomodoro_core::export::normalize_export_fields;

/// The derived end time handles ordinary additions and midnight wrap.
#[test]
fn derive_end_time_handles_wrap() {
    assert_eq!(derive_end_time_hhmm("09:00", 25).as_deref(), Some("09:25"));
    assert_eq!(derive_end_time_hhmm("23:50", 20).as_deref(), Some("00:10"));
}

/// Malformed start times derive nothing.
#[test]
fn derive_end_time_rejects_invalid_input() {
    assert_eq!(derive_end_time_hhmm("bad", 25), None);
    assert_eq!(derive_end_time_hhmm("24:00", 25), None);
    assert_eq!(derive_end_time_hhmm("23:99", 25), None);
}

/// Flattening gives one row per record, in order.
#[test]
fn flatten_days_to_rows_flattens() {
    let days = vec![HistoryDay {
        date: "2025-01-01".to_string(),
        records: vec![
            HistoryRecord {
                tag: "A".to_string(),
                start_time: "09:00".to_string(),
                end_time: None,
                duration: 25,
                phase: Phase::Work,
                remark: String::new(),
            },
            HistoryRecord {
                tag: "B".to_string(),
                start_time: "10:00".to_string(),
                end_time: None,
                duration: 5,
                phase: Phase::ShortBreak,
                remark: String::new(),
            },
        ],
    }];

    let rows = flatten_days_to_rows(&days);
    assert_eq!(rows.len(), 2);
    assert_eq!(rows[0].date, "2025-01-01");
    assert_eq!(rows[0].record.tag, "A");
    assert_eq!(rows[1].record.tag, "B");
}

/// An empty column choice falls back to the default set.
#[test]
fn normalize_export_fields_falls_back_to_default() {
    let out = normalize_export_fields(Vec::new());
    assert_eq!(out.len(), 6);
    assert!(matches!(out[0], ExportField::Date));
    assert!(matches!(out[1], ExportField::StartTime));
    assert!(matches!(out[2], ExportField::EndTime));
    assert!(matches!(out[3], ExportField::Duration));
    assert!(matches!(out[4], ExportField::Tag));
    assert!(matches!(out[5], ExportField::Phase));
}

/// The default file name carries the range and the format's extension.
#[test]
fn default_export_file_name_uses_range_and_ext() {
    let name = default_export_file_name(
        &DateRange { from: "2025-01-01".to_string(), to: "2025-01-07".to_string() },
        ExportFormat::Csv,
    );
    assert_eq!(name, "pomodoro-history-2025-01-01-2025-01-07.csv");
}

/// The JSON format uses the .json extension.
#[test]
fn default_export_file_name_uses_json_ext() {
    let name = default_export_file_name(
        &DateRange { from: "2025-01-01".to_string(), to: "2025-01-07".to_string() },
        ExportFormat::Json,
    );
    assert_eq!(name, "pomodoro-history-2025-01-01-2025-01-07.json");
}

/// Minutes format as zero-padded `HH:mm`, wrapping at a day.
#[test]
fn minutes_to_hhmm_formats_correctly() {
    assert_eq!(minutes_to_hhmm(0), "00:00");
    assert_eq!(minutes_to_hhmm(9 * 60 + 5), "09:05");
    assert_eq!(minutes_to_hhmm(23 * 60 + 59), "23:59");
    assert_eq!(minutes_to_hhmm(24 * 60), "00:00");
}
