//! Persisted data model: settings, blacklist, templates, tags and history.

use vstd::prelude::*;
use vstd::string::StringExecFns;

use crate::strutil::str_eq;

verus! {

/// A timer phase.
#[derive(Debug, Copy, Clone, PartialEq, Eq, Structural)]
pub enum Phase {
    /// A work (pomodoro) session.
    Work,
    /// A short break.
    ShortBreak,
    /// A long break.
    LongBreak,
}

impl Default for Phase {
    /// The fallback phase for data that predates the field.
    fn default() -> (r: Self)
        ensures
            r == Phase::Work,
    {
        Phase::Work
    }
}

/// Timer settings.
#[derive(Debug, Copy, Clone, PartialEq, Eq, Structural)]
pub struct Settings {
    /// Work duration in minutes.
    pub pomodoro: u32,
    /// Short break duration in minutes.
    pub short_break: u32,
    /// Long break duration in minutes.
    pub long_break: u32,
    /// A long break follows every this many completed pomodoros.
    pub long_break_interval: u32,
    /// Whether work starts again automatically after a break ends.
    pub auto_continue_enabled: bool,
    /// How many work phases may start automatically in a row.
    pub auto_continue_pomodoros: u32,
    /// Daily goal in pomodoros; zero means no goal.
    pub daily_goal: u32,
    /// Weekly goal in pomodoros; zero means no goal.
    pub weekly_goal: u32,
    /// Whether the main window stays on top; carried through unchanged.
    pub always_on_top: bool,
}

/// The default settings.
pub open spec fn default_settings() -> Settings {
    Settings {
        pomodoro: 25,
        short_break: 5,
        long_break: 15,
        long_break_interval: 4,
        auto_continue_enabled: false,
        auto_continue_pomodoros: 4,
        daily_goal: 8,
        weekly_goal: 40,
        always_on_top: false,
    }
}

/// The default number of automatic work continuations.
pub fn default_auto_continue_pomodoros() -> (r: u32)
    ensures
        r == default_settings().auto_continue_pomodoros,
{
    4
}

/// The default daily goal.
pub fn default_daily_goal() -> (r: u32)
    ensures
        r == default_settings().daily_goal,
{
    8
}

/// The default weekly goal.
pub fn default_weekly_goal() -> (r: u32)
    ensures
        r == default_settings().weekly_goal,
{
    40
}

impl Default for Settings {
    /// Default settings: 25/5/15 minutes, long break every 4 pomodoros.
    fn default() -> (r: Self)
        ensures
            r == default_settings(),
    {
        Settings {
            pomodoro: 25,
            short_break: 5,
            long_break: 15,
            long_break_interval: 4,
            auto_continue_enabled: false,
            auto_continue_pomodoros: default_auto_continue_pomodoros(),
            daily_goal: default_daily_goal(),
            weekly_goal: default_weekly_goal(),
            always_on_top: false,
        }
    }
}

/// One process on the blacklist, keyed by its process name.
#[derive(Debug, Clone, PartialEq, Eq)]
pub struct BlacklistItem {
    /// Process name, e.g. `WeChat.exe`.
    pub name: String,
    /// Name shown to the user.
    pub display_name: String,
}

/// A blacklist template, either built in or user defined.
#[derive(Debug, Clone, PartialEq, Eq)]
pub struct BlacklistTemplate {
    /// Template id; fixed for built-in templates.
    pub id: String,
    /// Template name.
    pub name: String,
    /// Built-in templates cannot be deleted.
    pub builtin: bool,
    /// The processes the template carries.
    pub processes: Vec<BlacklistItem>,
}

/// One completed work session.
#[derive(Debug, Clone)]
pub struct HistoryRecord {
    /// Task tag.
    pub tag: String,
    /// Start time (`HH:mm`).
    pub start_time: String,
    /// End time (`HH:mm`); may be missing in old data.
    pub end_time: Option<String>,
    /// Session duration in minutes.
    pub duration: u32,
    /// Phase of the record; the engine only writes work records.
    pub phase: Phase,
    /// Free-form remark, editable after completion.
    pub remark: String,
}

/// All records of one day.
#[derive(Debug, Clone)]
pub struct HistoryDay {
    /// The day (`YYYY-MM-DD`).
    pub date: String,
    /// The day's records.
    pub records: Vec<HistoryRecord>,
}

/// An inclusive date range: `from <= date <= to`.
#[derive(Debug, Clone)]
pub struct DateRange {
    /// First day (`YYYY-MM-DD`).
    pub from: String,
    /// Last day (`YYYY-MM-DD`).
    pub to: String,
}

/// One sound that the player can loop, built in or imported.
#[derive(Debug, Clone)]
pub struct CustomAudio {
    /// Stable id of the sound.
    pub id: String,
    /// Name shown to the user.
    pub name: String,
    /// File name inside the audio directory.
    pub file_name: String,
    /// Built-in sounds cannot be deleted.
    pub builtin: bool,
}

/// The root object of the persisted application data.
#[derive(Debug, Clone)]
pub struct AppData {
    /// User settings.
    pub settings: Settings,
    /// Active process blacklist.
    pub blacklist: Vec<BlacklistItem>,
    /// All blacklist templates, built in and custom.
    pub blacklist_templates: Vec<BlacklistTemplate>,
    /// Ids of the currently enabled templates.
    pub active_template_ids: Vec<String>,
    /// Legacy single active template id, kept in sync for old readers.
    pub active_template_id: Option<String>,
    /// Known task tags.
    pub tags: Vec<String>,
    /// Completed work sessions, grouped by day.
    pub history: Vec<HistoryDay>,
    /// Development-only history, kept apart from the real log.
    pub history_dev: Vec<HistoryDay>,
    /// Sounds available to the player.
    pub custom_audios: Vec<CustomAudio>,
    /// Current completion streak; survives restarts.
    pub current_combo: u32,
    /// Lifetime number of completed pomodoros; survives restarts.
    pub total_pomodoros: u64,
}

/// What the built-in "work" template's process list holds.
pub open spec fn work_processes_ok(ps: Seq<BlacklistItem>) -> bool {
    &&& ps.len() == 4
    &&& ps[0].name@ == "WeChat.exe"@ && ps[0].display_name@ == "微信"@
    &&& ps[1].name@ == "QQ.exe"@ && ps[1].display_name@ == "QQ"@
    &&& ps[2].name@ == "Douyin.exe"@ && ps[2].display_name@ == "抖音"@
    &&& ps[3].name@ == "Bilibili.exe"@ && ps[3].display_name@ == "B站"@
}

/// What the built-in template list holds.
pub open spec fn builtin_templates_ok(ts: Seq<BlacklistTemplate>) -> bool {
    &&& ts.len() == 3
    &&& ts[0].id@ == "work"@ && ts[0].name@ == "工作模式"@ && ts[0].builtin
    &&& work_processes_ok(ts[0].processes@)
    &&& ts[1].id@ == "study"@ && ts[1].name@ == "学习模式"@ && ts[1].builtin
    &&& ts[1].processes@.len() == 4
    &&& ts[2].id@ == "deep"@ && ts[2].name@ == "深度专注"@ && ts[2].builtin
    &&& ts[2].processes@.len() == 7
}

/// One blacklist entry from a process name and a display name.
fn item(name: &str, display_name: &str) -> (r: BlacklistItem)
    ensures
        r.name@ == name@,
        r.display_name@ == display_name@,
{
    BlacklistItem { name: name.to_owned(), display_name: display_name.to_owned() }
}

/// The process list of the built-in "work" template.
fn work_processes() -> (r: Vec<BlacklistItem>)
    ensures
        work_processes_ok(r@),
{
    let mut ps: Vec<BlacklistItem> = Vec::new();
    ps.push(item("WeChat.exe", "微信"));
    ps.push(item("QQ.exe", "QQ"));
    ps.push(item("Douyin.exe", "抖音"));
    ps.push(item("Bilibili.exe", "B站"));
    ps
}

/// The built-in blacklist templates.
pub fn builtin_templates() -> (r: Vec<BlacklistTemplate>)
    ensures
        builtin_templates_ok(r@),
{
    let mut study: Vec<BlacklistItem> = Vec::new();
    study.push(item("WeChat.exe", "微信"));
    study.push(item("QQ.exe", "QQ"));
    study.push(item("Steam.exe", "游戏平台"));
    study.push(item("Bilibili.exe", "视频网站"));

    let mut deep: Vec<BlacklistItem> = Vec::new();
    deep.push(item("WeChat.exe", "微信"));
    deep.push(item("QQ.exe", "QQ"));
    deep.push(item("Douyin.exe", "抖音"));
    deep.push(item("Bilibili.exe", "B站"));
    deep.push(item("chrome.exe", "浏览器（Chrome）"));
    deep.push(item("msedge.exe", "浏览器（Edge）"));
    deep.push(item("firefox.exe", "浏览器（Firefox）"));

    let mut ts: Vec<BlacklistTemplate> = Vec::new();
    ts.push(
        BlacklistTemplate {
            id: "work".to_owned(),
            name: "工作模式".to_owned(),
            builtin: true,
            processes: work_processes(),
        },
    );
    ts.push(
        BlacklistTemplate {
            id: "study".to_owned(),
            name: "学习模式".to_owned(),
            builtin: true,
            processes: study,
        },
    );
    ts.push(
        BlacklistTemplate {
            id: "deep".to_owned(),
            name: "深度专注".to_owned(),
            builtin: true,
            processes: deep,
        },
    );
    ts
}

/// The default tag list.
pub open spec fn default_tags_ok(tags: Seq<String>) -> bool {
    &&& tags.len() == 4
    &&& tags[0]@ == "工作"@
    &&& tags[1]@ == "学习"@
    &&& tags[2]@ == "阅读"@
    &&& tags[3]@ == "写作"@
}

impl Default for AppData {
    /// Initial data: default settings and tags, the built-in templates with
    /// the "work" template active, and empty history.
    fn default() -> (r: Self)
        ensures
            r.settings == default_settings(),
            builtin_templates_ok(r.blacklist_templates@),
            work_processes_ok(r.blacklist@),
            r.active_template_ids@.len() == 1,
            r.active_template_ids@[0]@ == "work"@,
            r.active_template_id matches Some(id) && id@ == "work"@,
            default_tags_ok(r.tags@),
            r.history@.len() == 0,
            r.history_dev@.len() == 0,
            r.custom_audios@.len() == 0,
            r.current_combo == 0,
            r.total_pomodoros == 0,
    {
        let mut active: Vec<String> = Vec::new();
        active.push("work".to_owned());

        let mut tags: Vec<String> = Vec::new();
        tags.push("工作".to_owned());
        tags.push("学习".to_owned());
        tags.push("阅读".to_owned());
        tags.push("写作".to_owned());

        AppData {
            settings: Settings::default(),
            blacklist: work_processes(),
            blacklist_templates: builtin_templates(),
            active_template_ids: active,
            active_template_id: Some("work".to_owned()),
            tags,
            history: Vec::new(),
            history_dev: Vec::new(),
            custom_audios: Vec::new(),
            current_combo: 0,
            total_pomodoros: 0,
        }
    }
}

/// The view of an optional string.
pub open spec fn opt_str_view(o: Option<String>) -> Option<Seq<char>> {
    match o {
        Some(s) => Some(s@),
        None => None,
    }
}

/// The view of the first entry of an id list, if any.
pub open spec fn first_id_view(ids: Seq<String>) -> Option<Seq<char>> {
    if ids.len() > 0 {
        Some(ids[0]@)
    } else {
        None
    }
}

/// Whether the legacy single id had to be moved into the id list.
pub open spec fn migrate_fills_ids(pre: AppData) -> bool {
    pre.active_template_ids@.len() == 0 && pre.active_template_id is Some
}

impl AppData {
    /// Migrate old data in place: fill in missing built-in templates, move a
    /// legacy single active template id into the id list, and keep the legacy
    /// id equal to the list's first entry. Returns whether anything changed.
    pub fn migrate_v2(&mut self) -> (changed: bool)
        ensures
            final(self).settings == old(self).settings,
            final(self).blacklist == old(self).blacklist,
            final(self).tags == old(self).tags,
            final(self).history == old(self).history,
            final(self).history_dev == old(self).history_dev,
            final(self).custom_audios == old(self).custom_audios,
            final(self).current_combo == old(self).current_combo,
            final(self).total_pomodoros == old(self).total_pomodoros,
            old(self).blacklist_templates@.len() == 0 ==> builtin_templates_ok(
                final(self).blacklist_templates@,
            ),
            old(self).blacklist_templates@.len() > 0 ==> final(self).blacklist_templates
                == old(self).blacklist_templates,
            migrate_fills_ids(*old(self)) ==> final(self).active_template_ids@.len() == 1
                && final(self).active_template_ids@[0]@ == old(self).active_template_id->0@,
            !migrate_fills_ids(*old(self)) ==> final(self).active_template_ids
                == old(self).active_template_ids,
            opt_str_view(final(self).active_template_id) == first_id_view(
                final(self).active_template_ids@,
            ),
            changed == (old(self).blacklist_templates@.len() == 0 || migrate_fills_ids(*old(self))
                || opt_str_view(old(self).active_template_id) != first_id_view(
                final(self).active_template_ids@,
            )),
    {
        let mut changed = false;

        if self.blacklist_templates.is_empty() {
            self.blacklist_templates = builtin_templates();
            changed = true;
        }

        if self.active_template_ids.is_empty() {
            let legacy = match &self.active_template_id {
                Some(id) => Some(clone_string(id)),
                None => None,
            };
            if let Some(id) = legacy {
                let mut ids: Vec<String> = Vec::new();
                ids.push(id);
                self.active_template_ids = ids;
                changed = true;
            }
        }

        let first = if self.active_template_ids.len() > 0 {
            Some(clone_string(&self.active_template_ids[0]))
        } else {
            None
        };
        let in_sync = match (&self.active_template_id, &first) {
            (Some(a), Some(b)) => str_eq(a.as_str(), b.as_str()),
            (None, None) => true,
            _ => false,
        };
        if !in_sync {
            self.active_template_id = first;
            changed = true;
        }

        changed
    }
}

/// A copy of a string with the same characters.
pub fn clone_string(s: &String) -> (r: String)
    ensures
        r@ == s@,
{
    s.clone()
}

} // verus!
