//! Focus analysis helpers: reading the hour out of a record's start time,
//! bucketing hours into periods of the day, and summarising the best
//! two-hour window in words.

use vstd::prelude::*;
use vstd::string::StrSliceExecFns;
use vstd::string::StringExecFns;

use crate::strutil::all_digits;
use crate::strutil::dec_digits;
use crate::strutil::dec_value;
use crate::strutil::first_colon_index;
use crate::strutil::lemma_upto_colon_take;
use crate::strutil::parse_decimal;
use crate::strutil::spec_trim;
use crate::strutil::trimmed;
use crate::strutil::u32_to_string;
use crate::strutil::upto_colon;

verus! {

/// The hour field of an `HH:mm` string: what stands before the first
/// colon, trimmed.
pub open spec fn hour_field(s: Seq<char>) -> Seq<char> {
    spec_trim(upto_colon(s))
}

/// Whether the hour field spells an hour of the day.
pub open spec fn parse_hour_ok(s: Seq<char>) -> bool {
    hour_field(s).len() > 0 && all_digits(hour_field(s)) && dec_value(hour_field(s)) < 24
}

/// Read the hour (0–23) out of an `HH:mm` string: the digits before the
/// first colon, with surrounding blanks ignored. `None` when the field is
/// empty, not numeric, or 24 and above.
pub fn parse_hour(hhmm: &str) -> (r: Option<usize>)
    ensures
        parse_hour_ok(hhmm@) ==> (r matches Some(v) && v == dec_value(hour_field(hhmm@))),
        !parse_hour_ok(hhmm@) ==> r is None,
{
    let i = first_colon_index(hhmm);
    let head = hhmm.substring_char(0, i);
    proof {
        lemma_upto_colon_take(hhmm@, i as int);
        assert(hhmm@.subrange(0, i as int) =~= hhmm@.take(i as int));
    }
    let t = trimmed(head);
    match parse_decimal(t.as_str()) {
        Some(v) => {
            if v < 24 {
                Some(v as usize)
            } else {
                None
            }
        },
        None => None,
    }
}

/// The four periods of the day: night hours up to 5, morning up to 11,
/// afternoon up to 17, evening after.
pub open spec fn period_of(hour: int) -> int {
    if hour <= 5 {
        0
    } else if hour <= 11 {
        1
    } else if hour <= 17 {
        2
    } else {
        3
    }
}

/// The period bucket of an hour.
pub fn period_index(hour: usize) -> (r: usize)
    ensures
        r == period_of(hour as int),
{
    if hour <= 5 {
        0
    } else if hour <= 11 {
        1
    } else if hour <= 17 {
        2
    } else {
        3
    }
}

/// The label of an hour range in words: the period of the day by the
/// starting hour, with afternoon and evening hours counted from twelve
/// (zero shown as twelve).
pub open spec fn range_label(from: int, to: int) -> Seq<char> {
    if from < 6 {
        "凌晨 "@ + dec_digits(from) + "-"@ + dec_digits(to) + " 点"@
    } else if from < 12 {
        "上午 "@ + dec_digits(from) + "-"@ + dec_digits(to) + " 点"@
    } else {
        let prefix = if from < 18 {
            "下午 "@
        } else {
            "晚上 "@
        };
        let f = if from - 12 == 0 {
            12
        } else {
            from - 12
        };
        let t = if to - 12 == 0 {
            12
        } else {
            to - 12
        };
        prefix + dec_digits(f) + "-"@ + dec_digits(t) + " 点"@
    }
}

/// Render an hour range as a label in words.
pub fn time_range_label(from_hour: usize, to_hour: usize) -> (r: String)
    requires
        from_hour <= 24,
        to_hour <= 26,
        from_hour >= 12 ==> to_hour >= 12,
    ensures
        r@ == range_label(from_hour as int, to_hour as int),
{
    let mut s = String::new();
    let f: usize;
    let t: usize;
    if from_hour < 6 {
        s.append("凌晨 ");
        f = from_hour;
        t = to_hour;
    } else if from_hour < 12 {
        s.append("上午 ");
        f = from_hour;
        t = to_hour;
    } else {
        if from_hour < 18 {
            s.append("下午 ");
        } else {
            s.append("晚上 ");
        }
        f = if from_hour - 12 == 0 {
            12
        } else {
            from_hour - 12
        };
        t = if to_hour - 12 == 0 {
            12
        } else {
            to_hour - 12
        };
    }
    let fd = u32_to_string(f as u32);
    s.append(fd.as_str());
    s.append("-");
    let td = u32_to_string(t as u32);
    s.append(td.as_str());
    s.append(" 点");
    proof {
        assert(s@ =~= range_label(from_hour as int, to_hour as int));
    }
    s
}

/// The number of completed sessions over all hours.
pub open spec fn hourly_sum(h: Seq<u32>) -> nat
    decreases h.len(),
{
    if h.len() == 0 {
        0
    } else {
        hourly_sum(h.drop_last()) + h.last() as nat
    }
}

/// A partial sum stays within the count times the largest value.
proof fn lemma_hourly_sum_bound(h: Seq<u32>)
    ensures
        hourly_sum(h) <= h.len() * (u32::MAX as nat),
    decreases h.len(),
{
    if h.len() > 0 {
        lemma_hourly_sum_bound(h.drop_last());
    }
}

/// The number of sessions in the two-hour window starting at `i`.
pub open spec fn window2(h: Seq<u32>, i: int) -> int {
    h[i] + h[i + 1]
}

/// Whether `best` starts the earliest fullest two-hour window.
pub open spec fn best_window(h: Seq<u32>, best: int) -> bool {
    &&& 0 <= best < 23
    &&& forall|j: int| 0 <= j < 23 ==> window2(h, j) <= window2(h, best)
    &&& forall|j: int| 0 <= j < best ==> window2(h, j) < window2(h, best)
}

/// Summarise an hourly distribution: the two-hour window holding the most
/// sessions, as a sentence. A distribution that is not 24 hours long, or
/// holds no session at all, gives the no-data sentence. Of equally full
/// windows the earliest wins.
pub fn build_summary(hourly: &Vec<u32>) -> (r: String)
    ensures
        hourly@.len() != 24 || hourly_sum(hourly@) == 0 ==> r@ == "暂无分析数据"@,
        hourly@.len() == 24 && hourly_sum(hourly@) > 0 ==> exists|best: int|
            #[trigger] best_window(hourly@, best) && r@ == "你在"@ + range_label(best, best + 2)
                + "专注效率最高"@,
{
    if hourly.len() != 24 {
        let mut s = String::new();
        s.append("暂无分析数据");
        return s;
    }
    let mut total: u64 = 0;
    let mut i: usize = 0;
    while i < 24
        invariant
            i <= 24,
            hourly@.len() == 24,
            total == hourly_sum(hourly@.take(i as int)),
        decreases 24 - i,
    {
        proof {
            assert(hourly@.take(i as int + 1).drop_last() =~= hourly@.take(i as int));
            lemma_hourly_sum_bound(hourly@.take(i as int));
        }
        total = total + hourly[i] as u64;
        i = i + 1;
    }
    proof {
        assert(hourly@.take(24) =~= hourly@);
    }
    if total == 0 {
        let mut s = String::new();
        s.append("暂无分析数据");
        return s;
    }
    let mut best_start: usize = 0;
    let mut best_sum: u64 = 0;
    let mut start: usize = 0;
    while start < 23
        invariant
            start <= 23,
            hourly@.len() == 24,
            start == 0 ==> best_sum == 0 && best_start == 0,
            start > 0 ==> best_start < start && best_sum == window2(hourly@, best_start as int),
            forall|j: int| 0 <= j < start ==> window2(hourly@, j) <= best_sum,
            forall|j: int| 0 <= j < best_start ==> window2(hourly@, j) < best_sum,
        decreases 23 - start,
    {
        let sum: u64 = hourly[start] as u64 + hourly[start + 1] as u64;
        if sum > best_sum {
            best_sum = sum;
            best_start = start;
        }
        start = start + 1;
    }
    let label = time_range_label(best_start, best_start + 2);
    let mut s = String::new();
    s.append("你在");
    s.append(label.as_str());
    s.append("专注效率最高");
    proof {
        assert(best_window(hourly@, best_start as int));
        assert(s@ =~= "你在"@ + range_label(best_start as int, best_start as int + 2)
            + "专注效率最高"@);
    }
    s
}

} // verus!
