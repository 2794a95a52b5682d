//! Input validation: settings ranges, blacklist entries and date strings.
//! Every check runs before any state is mutated, so a rejected update never
//! leaves the engine half-applied.

use vstd::prelude::*;
use vstd::string::StringExecFns;

use crate::app_data::BlacklistItem;
use crate::app_data::DateRange;
use crate::app_data::Settings;
use crate::dates::parse_ymd;
use crate::dates::ymd_ok;
use crate::errors::AppError;
use crate::errors::AppResult;
use crate::strutil::StrOrder;
use crate::strutil::is_blank;
use crate::strutil::lower_string;
use crate::strutil::spec_is_blank;
use crate::strutil::spec_lower;
use crate::strutil::spec_trim;
use crate::strutil::str_compare;
use crate::strutil::str_eq;
use crate::strutil::str_le;
use crate::strutil::trimmed;

verus! {

/// Whether the settings lie inside the allowed ranges: work 1–60 minutes,
/// short break 1–30, long break 1–60, long-break interval 1–10 pomodoros,
/// auto-continue count 1–20, daily goal at most 1000, weekly goal at most
/// 10000 (zero goals mean no goal).
pub open spec fn settings_valid(s: Settings) -> bool {
    &&& 1 <= s.pomodoro <= 60
    &&& 1 <= s.short_break <= 30
    &&& 1 <= s.long_break <= 60
    &&& 1 <= s.long_break_interval <= 10
    &&& 1 <= s.auto_continue_pomodoros <= 20
    &&& s.daily_goal <= 1000
    &&& s.weekly_goal <= 10000
}

/// A validation error with the given message.
pub open spec fn validation_msg(e: AppError, msg: Seq<char>) -> bool {
    e matches AppError::Validation(m) && m@ == msg
}

/// Build a validation error from a message literal.
fn validation_error(msg: &str) -> (e: AppError)
    ensures
        validation_msg(e, msg@),
{
    let mut m = String::new();
    m.append(msg);
    AppError::Validation(m)
}

/// Check the settings against the allowed ranges, before anything is
/// applied: `Ok` exactly on valid settings, and the first out-of-range
/// field names the error.
pub fn validate_settings(settings: &Settings) -> (r: AppResult<()>)
    ensures
        r is Ok <==> settings_valid(*settings),
        !(1 <= settings.pomodoro <= 60) ==> (r matches Err(e) && validation_msg(
            e,
            "番茄时长需在 1-60 分钟"@,
        )),
        1 <= settings.pomodoro <= 60 && !(1 <= settings.short_break <= 30) ==> (r matches Err(e)
            && validation_msg(e, "短休息需在 1-30 分钟"@)),
        1 <= settings.pomodoro <= 60 && 1 <= settings.short_break <= 30 && !(1
            <= settings.long_break <= 60) ==> (r matches Err(e) && validation_msg(
            e,
            "长休息需在 1-60 分钟"@,
        )),
        1 <= settings.pomodoro <= 60 && 1 <= settings.short_break <= 30 && 1
            <= settings.long_break <= 60 && !(1 <= settings.long_break_interval <= 10) ==> (
        r matches Err(e) && validation_msg(e, "长休息间隔需在 1-10 个番茄"@)),
        1 <= settings.pomodoro <= 60 && 1 <= settings.short_break <= 30 && 1
            <= settings.long_break <= 60 && 1 <= settings.long_break_interval <= 10 && !(1
            <= settings.auto_continue_pomodoros <= 20) ==> (r matches Err(e) && validation_msg(
            e,
            "连续番茄数量需在 1-20 个番茄"@,
        )),
        1 <= settings.pomodoro <= 60 && 1 <= settings.short_break <= 30 && 1
            <= settings.long_break <= 60 && 1 <= settings.long_break_interval <= 10 && 1
            <= settings.auto_continue_pomodoros <= 20 && settings.daily_goal > 1000 ==> (
        r matches Err(e) && validation_msg(e, "每日目标建议不超过 1000"@)),
        1 <= settings.pomodoro <= 60 && 1 <= settings.short_break <= 30 && 1
            <= settings.long_break <= 60 && 1 <= settings.long_break_interval <= 10 && 1
            <= settings.auto_continue_pomodoros <= 20 && settings.daily_goal <= 1000
            && settings.weekly_goal > 10000 ==> (r matches Err(e) && validation_msg(
            e,
            "每周目标建议不超过 10000"@,
        )),
{
    if settings.pomodoro < 1 || settings.pomodoro > 60 {
        return Err(validation_error("番茄时长需在 1-60 分钟"));
    }
    if settings.short_break < 1 || settings.short_break > 30 {
        return Err(validation_error("短休息需在 1-30 分钟"));
    }
    if settings.long_break < 1 || settings.long_break > 60 {
        return Err(validation_error("长休息需在 1-60 分钟"));
    }
    if settings.long_break_interval < 1 || settings.long_break_interval > 10 {
        return Err(validation_error("长休息间隔需在 1-10 个番茄"));
    }
    if settings.auto_continue_pomodoros < 1 || settings.auto_continue_pomodoros > 20 {
        return Err(validation_error("连续番茄数量需在 1-20 个番茄"));
    }
    if settings.daily_goal > 1000 {
        return Err(validation_error("每日目标建议不超过 1000"));
    }
    if settings.weekly_goal > 10000 {
        return Err(validation_error("每周目标建议不超过 10000"));
    }
    Ok(())
}

/// Process names compare case-insensitively after trimming.
pub open spec fn spec_normalize_name(name: Seq<char>) -> Seq<char> {
    spec_lower(spec_trim(name))
}

/// Normalize a process name for comparison: trim and lowercase.
pub fn normalize_name(name: &str) -> (r: String)
    ensures
        r@ == spec_normalize_name(name@),
{
    let t = trimmed(name);
    lower_string(t.as_str())
}

/// Whether one blacklist entry is fine, given the entries before it: both
/// names non-blank, and its normalized process name not seen earlier.
pub open spec fn blacklist_item_fine(items: Seq<BlacklistItem>, i: int) -> bool {
    &&& !spec_is_blank(items[i].name@)
    &&& !spec_is_blank(items[i].display_name@)
    &&& forall|j: int|
        0 <= j < i ==> spec_normalize_name(#[trigger] items[j].name@) != spec_normalize_name(
            items[i].name@,
        )
}

/// The error owed for the first offending blacklist entry: a blank process
/// name is reported first, then a blank display name, then a repeat.
pub open spec fn blacklist_error_ok(items: Seq<BlacklistItem>, e: AppError, i: int) -> bool {
    &&& 0 <= i < items.len()
    &&& !blacklist_item_fine(items, i)
    &&& (forall|j: int| 0 <= j < i ==> blacklist_item_fine(items, j))
    &&& (if spec_is_blank(items[i].name@) {
        validation_msg(e, "黑名单进程名不能为空"@)
    } else if spec_is_blank(items[i].display_name@) {
        validation_msg(e, "黑名单显示名不能为空"@)
    } else {
        validation_msg(e, "黑名单存在重复进程名"@)
    })
}

/// Check a blacklist: every entry needs a non-blank process name and
/// display name, and no process name may repeat (case-insensitively,
/// ignoring surrounding blanks). The first offending entry names the
/// error.
pub fn validate_blacklist_items(items: &Vec<BlacklistItem>) -> (r: AppResult<()>)
    ensures
        r is Ok <==> (forall|i: int| 0 <= i < items@.len() ==> blacklist_item_fine(items@, i)),
        r matches Err(e) ==> exists|i: int| #[trigger] blacklist_error_ok(items@, e, i),
{
    let n = items.len();
    let mut i: usize = 0;
    while i < n
        invariant
            i <= n,
            n == items@.len(),
            forall|j: int| 0 <= j < i ==> blacklist_item_fine(items@, j),
        decreases n - i,
    {
        let it = &items[i];
        if is_blank(it.name.as_str()) {
            let e = validation_error("黑名单进程名不能为空");
            proof {
                assert(!blacklist_item_fine(items@, i as int));
                assert(blacklist_error_ok(items@, e, i as int));
            }
            return Err(e);
        }
        if is_blank(it.display_name.as_str()) {
            let e = validation_error("黑名单显示名不能为空");
            proof {
                assert(!blacklist_item_fine(items@, i as int));
                assert(blacklist_error_ok(items@, e, i as int));
            }
            return Err(e);
        }
        let key = normalize_name(it.name.as_str());
        let mut j: usize = 0;
        while j < i
            invariant
                j <= i < n,
                n == items@.len(),
                key@ == spec_normalize_name(items@[i as int].name@),
                !spec_is_blank(items@[i as int].name@),
                !spec_is_blank(items@[i as int].display_name@),
                forall|l: int| 0 <= l < i ==> blacklist_item_fine(items@, l),
                forall|k: int|
                    0 <= k < j ==> spec_normalize_name(#[trigger] items@[k].name@)
                        != spec_normalize_name(items@[i as int].name@),
            decreases i - j,
        {
            let other = normalize_name(items[j].name.as_str());
            if str_eq(other.as_str(), key.as_str()) {
                let e = validation_error("黑名单存在重复进程名");
                proof {
                    assert(spec_normalize_name(items@[j as int].name@) == spec_normalize_name(
                        items@[i as int].name@,
                    ));
                    assert(!blacklist_item_fine(items@, i as int));
                    assert(blacklist_error_ok(items@, e, i as int));
                }
                return Err(e);
            }
            j = j + 1;
        }
        i = i + 1;
    }
    Ok(())
}

/// Check that a string spells a valid `YYYY-MM-DD` calendar date.
pub fn validate_ymd(date: &str) -> (r: AppResult<()>)
    ensures
        r is Ok <==> ymd_ok(date@),
        r matches Err(e) ==> validation_msg(e, "日期格式必须为 YYYY-MM-DD"@),
{
    match parse_ymd(date) {
        Some(_) => Ok(()),
        None => Err(validation_error("日期格式必须为 YYYY-MM-DD")),
    }
}

/// Check a date range: both ends (after trimming) must be valid dates and
/// the start must not lie after the end.
pub fn validate_date_range(range: &DateRange) -> (r: AppResult<()>)
    ensures
        r is Ok <==> (ymd_ok(spec_trim(range.from@)) && ymd_ok(spec_trim(range.to@)) && str_le(
            spec_trim(range.from@),
            spec_trim(range.to@),
        )),
        !ymd_ok(spec_trim(range.from@)) || !ymd_ok(spec_trim(range.to@)) ==> (r matches Err(e)
            && validation_msg(e, "日期格式必须为 YYYY-MM-DD"@)),
        ymd_ok(spec_trim(range.from@)) && ymd_ok(spec_trim(range.to@)) && !str_le(
            spec_trim(range.from@),
            spec_trim(range.to@),
        ) ==> (r matches Err(e) && validation_msg(
            e,
            "日期范围不合法：from 不能晚于 to"@,
        )),
{
    let from = trimmed(range.from.as_str());
    let to = trimmed(range.to.as_str());
    if let Err(e) = validate_ymd(from.as_str()) {
        return Err(e);
    }
    if let Err(e) = validate_ymd(to.as_str()) {
        return Err(e);
    }
    if matches!(str_compare(from.as_str(), to.as_str()), StrOrder::Greater) {
        return Err(validation_error("日期范围不合法：from 不能晚于 to"));
    }
    Ok(())
}

} // verus!
