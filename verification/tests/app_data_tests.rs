//! Tests of the persisted data model: defaults, built-in templates and the
//! in-place migration.

use pomodoro_core::app_data::AppData;
use pomodoro_core::app_data::Phase;
use pomodoro_core::app_data::Settings;
use pomodoro_core::app_data::builtin_templates;
use pomodoro_core::app_data::default_auto_continue_pomodoros;

/// Migration: a missing template list is filled in and the legacy active
/// template id moves into the id list.
#[test]
fn migrate_v2_fills_templates_and_active_ids() {
    let mut data = AppData {
        blacklist_templates: Vec::new(),
        active_template_ids: Vec::new(),
        active_template_id: Some("work".to_string()),
        ..AppData::default()
    };

    let changed = data.migrate_v2();
    assert!(changed);
    assert!(!data.blacklist_templates.is_empty());
    assert!(!data.active_template_ids.is_empty());
    assert_eq!(data.active_template_ids[0], "work");
    assert_eq!(data.active_template_id.as_deref(), Some("work"));
}

/// Migration keeps the legacy id equal to the id list's first entry.
#[test]
fn migrate_v2_keeps_active_template_id_in_sync() {
    let mut data = AppData {
        active_template_ids: vec!["deep".to_string()],
        active_template_id: Some("work".to_string()),
        ..AppData::default()
    };

    let changed = data.migrate_v2();
    assert!(changed);
    assert_eq!(data.active_template_id.as_deref(), Some("deep"));
}

/// The default settings: 25/5/15 minutes, interval 4, and the goal values.
#[test]
fn settings_default_matches_prd() {
    let s = Settings::default();
    assert_eq!(s.pomodoro, 25);
    assert_eq!(s.short_break, 5);
    assert_eq!(s.long_break, 15);
    assert_eq!(s.long_break_interval, 4);
    assert_eq!(s.auto_continue_enabled, false);
    assert_eq!(s.auto_continue_pomodoros, 4);
    assert_eq!(s.daily_goal, 8);
    assert_eq!(s.weekly_goal, 40);
    assert_eq!(s.always_on_top, false);
}

/// The built-in templates carry the fixed ids, all marked built in.
#[test]
fn builtin_templates_have_expected_ids_and_flags() {
    let templates = builtin_templates();
    assert!(templates.len() >= 3);
    assert!(templates.iter().all(|t| t.builtin));

    let ids: std::collections::BTreeSet<String> = templates.iter().map(|t| t.id.clone()).collect();
    assert_eq!(ids.len(), templates.len());
    assert!(ids.contains("work"));
    assert!(ids.contains("study"));
    assert!(ids.contains("deep"));
}

/// Fresh data: templates, active template, blacklist and tags in place.
#[test]
fn app_data_default_initializes_templates_blacklist_and_tags() {
    let data = AppData::default();

    assert!(!data.blacklist_templates.is_empty());
    assert_eq!(data.active_template_ids.first().map(|s| s.as_str()), Some("work"));
    assert_eq!(data.active_template_id.as_deref(), Some("work"));

    let work_template = data
        .blacklist_templates
        .iter()
        .find(|t| t.id == "work")
        .expect("work 模板必须存在");
    assert_eq!(data.blacklist, work_template.processes);

    assert_eq!(
        data.tags,
        vec!["工作".to_string(), "学习".to_string(), "阅读".to_string(), "写作".to_string()]
    );
    assert!(data.history.is_empty());
}

/// The fallback phase for old data is work.
#[test]
fn phase_default_is_work() {
    assert_eq!(Phase::default(), Phase::Work);
}

/// The default number of automatic continuations.
#[test]
fn default_auto_continue_pomodoros_matches_prd() {
    assert_eq!(default_auto_continue_pomodoros(), 4);
}
