//! Tests of the input validation: settings ranges, blacklist entries and
//! date strings.

use pomodoro_core::app_data::BlacklistItem;
use pomodoro_core::app_data::DateRange;
use pomodoro_core::app_data::Settings;
use pomodoro_core::errors::AppError;
use pomodoro_core::validation::normalize_name;
use pomodoro_core::validation::validate_blacklist_items;
use pomodoro_core::validation::validate_date_range;
use pomodoro_core::validation::validate_settings;
use pomodoro_core::validation::validate_ymd;

/// Settings on the range boundaries pass.
#[test]
fn validate_settings_accepts_valid_ranges() {
    let settings = Settings {
        pomodoro: 1,
        short_break: 1,
        long_break: 1,
        long_break_interval: 1,
        auto_continue_enabled: true,
        auto_continue_pomodoros: 1,
        daily_goal: 0,
        weekly_goal: 0,
        always_on_top: false,
    };
    assert!(validate_settings(&settings).is_ok());
}

/// Out-of-range durations are rejected as validation errors.
#[test]
fn validate_settings_rejects_out_of_range() {
    assert!(matches!(
        validate_settings(&Settings { pomodoro: 0, ..Settings::default() }),
        Err(AppError::Validation(_))
    ));
    assert!(matches!(
        validate_settings(&Settings { pomodoro: 61, ..Settings::default() }),
        Err(AppError::Validation(_))
    ));
    assert!(matches!(
        validate_settings(&Settings { short_break: 0, ..Settings::default() }),
        Err(AppError::Validation(_))
    ));
    assert!(matches!(
        validate_settings(&Settings { short_break: 31, ..Settings::default() }),
        Err(AppError::Validation(_))
    ));
    assert!(matches!(
        validate_settings(&Settings { long_break: 0, ..Settings::default() }),
        Err(AppError::Validation(_))
    ));
    assert!(matches!(
        validate_settings(&Settings { long_break: 61, ..Settings::default() }),
        Err(AppError::Validation(_))
    ));
    assert!(matches!(
        validate_settings(&Settings { long_break_interval: 0, ..Settings::default() }),
        Err(AppError::Validation(_))
    ));
    assert!(matches!(
        validate_settings(&Settings { long_break_interval: 11, ..Settings::default() }),
        Err(AppError::Validation(_))
    ));
}

/// An auto-continue count outside its range is rejected.
#[test]
fn validate_settings_rejects_auto_continue_pomodoros_out_of_range() {
    assert!(matches!(
        validate_settings(&Settings { auto_continue_pomodoros: 0, ..Settings::default() }),
        Err(AppError::Validation(_))
    ));
    assert!(matches!(
        validate_settings(&Settings { auto_continue_pomodoros: 21, ..Settings::default() }),
        Err(AppError::Validation(_))
    ));
}

/// Excessive goal values are rejected.
#[test]
fn validate_settings_rejects_excessive_goals() {
    assert!(matches!(
        validate_settings(&Settings { daily_goal: 1001, ..Settings::default() }),
        Err(AppError::Validation(_))
    ));
    assert!(matches!(
        validate_settings(&Settings { weekly_goal: 10001, ..Settings::default() }),
        Err(AppError::Validation(_))
    ));
}

/// Process names compare trimmed and lowercased.
#[test]
fn normalize_name_trims_and_lowercases() {
    assert_eq!(normalize_name(" WeChat.EXE "), "wechat.exe");
}

/// An empty blacklist passes.
#[test]
fn validate_blacklist_items_accepts_empty() {
    assert!(validate_blacklist_items(&Vec::new()).is_ok());
}

/// Blank process or display names are rejected.
#[test]
fn validate_blacklist_items_rejects_blank_fields() {
    let err = validate_blacklist_items(&vec![BlacklistItem {
        name: "   ".to_string(),
        display_name: "微信".to_string(),
    }])
    .unwrap_err();
    assert!(matches!(err, AppError::Validation(_)));

    let err = validate_blacklist_items(&vec![BlacklistItem {
        name: "WeChat.exe".to_string(),
        display_name: "   ".to_string(),
    }])
    .unwrap_err();
    assert!(matches!(err, AppError::Validation(_)));
}

/// A repeated process name is rejected, case-insensitively.
#[test]
fn validate_blacklist_items_rejects_duplicates_case_insensitive() {
    let err = validate_blacklist_items(&vec![
        BlacklistItem { name: "WeChat.exe".to_string(), display_name: "微信".to_string() },
        BlacklistItem { name: "wechat.exe".to_string(), display_name: "微信".to_string() },
    ])
    .unwrap_err();
    assert!(matches!(err, AppError::Validation(_)));
}

/// A well-formed date passes; a malformed one fails.
#[test]
fn validate_ymd_accepts_and_rejects() {
    assert!(validate_ymd("2025-01-01").is_ok());
    assert!(matches!(validate_ymd("2025/01/01"), Err(AppError::Validation(_))));
}

/// A range needs well-formed ends in order.
#[test]
fn validate_date_range_validates_order_and_format() {
    assert!(validate_date_range(&DateRange {
        from: "2025-01-01".to_string(),
        to: "2025-01-07".to_string(),
    })
    .is_ok());

    assert!(matches!(
        validate_date_range(&DateRange {
            from: "2025-01-08".to_string(),
            to: "2025-01-07".to_string(),
        }),
        Err(AppError::Validation(_))
    ));

    assert!(matches!(
        validate_date_range(&DateRange {
            from: "bad".to_string(),
            to: "2025-01-07".to_string(),
        }),
        Err(AppError::Validation(_))
    ));
}

/// The validation error message carries its prefix and the reason.
#[test]
fn app_error_display_validation() {
    let app_err = AppError::Validation("bad".to_string());
    assert_eq!(app_err.message(), "参数不合法：bad");
}

/// The lock error has its fixed message.
#[test]
fn app_error_display_blacklist_locked() {
    let app_err = AppError::BlacklistLocked;
    assert_eq!(app_err.message(), "专注期内禁止移除黑名单进程");
}

/// The invariant error message carries its prefix.
#[test]
fn app_error_display_invariant() {
    let app_err = AppError::Invariant("oops".to_string());
    assert_eq!(app_err.message(), "内部错误：oops");
}

/// A rejected date in the calendar: the 30th of February does not exist.
#[test]
fn validate_ymd_rejects_impossible_dates() {
    assert!(matches!(validate_ymd("2025-02-30"), Err(AppError::Validation(_))));
    assert!(validate_ymd("2024-02-29").is_ok());
    assert!(matches!(validate_ymd("2025-02-29"), Err(AppError::Validation(_))));
    assert!(matches!(validate_ymd("2025-13-01"), Err(AppError::Validation(_))));
}
