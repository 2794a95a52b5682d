//! History export: field selection, default file names, flattening the
//! day-grouped history into rows, and deriving a missing end time. The
//! file writing itself lives with the caller; everything here is pure.

use vstd::prelude::*;
use vstd::string::StringExecFns;

use crate::app_data::DateRange;
use crate::app_data::HistoryDay;
use crate::app_data::HistoryRecord;
use crate::app_data::clone_string;
use crate::runtime::clone_record;
use crate::stats::total_records;
use crate::strutil::all_digits;
use crate::strutil::dec_value;
use crate::strutil::first_colon_index;
use crate::strutil::lemma_upto_colon_take;
use crate::strutil::parse_decimal;
use crate::strutil::two_digit_string;
use crate::strutil::two_digits;
use crate::strutil::upto_colon;
use vstd::string::StrSliceExecFns;

verus! {

/// The export file formats.
#[derive(Debug, Clone, Copy, PartialEq, Eq, Structural)]
pub enum ExportFormat {
    /// Comma-separated values.
    Csv,
    /// Structured JSON.
    Json,
}

/// The columns an export may carry.
#[derive(Debug, Clone, Copy, PartialEq, Eq, Structural)]
pub enum ExportField {
    /// The day (`YYYY-MM-DD`).
    Date,
    /// Start time (`HH:mm`).
    StartTime,
    /// End time (`HH:mm`).
    EndTime,
    /// Duration in minutes.
    Duration,
    /// Task tag.
    Tag,
    /// Phase of the record.
    Phase,
    /// Free-form remark.
    Remark,
}

/// An export request: the range, the format and the chosen columns.
#[derive(Debug, Clone)]
pub struct ExportRequest {
    /// The inclusive date range to export.
    pub range: DateRange,
    /// The file format.
    pub format: ExportFormat,
    /// The columns; empty means the default set.
    pub fields: Vec<ExportField>,
}

/// One export row: a record together with its day.
#[derive(Debug, Clone)]
pub struct ExportRow {
    /// The day (`YYYY-MM-DD`).
    pub date: String,
    /// The record.
    pub record: HistoryRecord,
}

/// The default column set, in order.
pub open spec fn default_fields() -> Seq<ExportField> {
    seq![
        ExportField::Date,
        ExportField::StartTime,
        ExportField::EndTime,
        ExportField::Duration,
        ExportField::Tag,
        ExportField::Phase,
    ]
}

/// Fall back to the default column set when none was chosen.
pub fn normalize_export_fields(fields: Vec<ExportField>) -> (r: Vec<ExportField>)
    ensures
        fields@.len() == 0 ==> r@ == default_fields(),
        fields@.len() > 0 ==> r == fields,
{
    if fields.len() == 0 {
        let mut out: Vec<ExportField> = Vec::new();
        out.push(ExportField::Date);
        out.push(ExportField::StartTime);
        out.push(ExportField::EndTime);
        out.push(ExportField::Duration);
        out.push(ExportField::Tag);
        out.push(ExportField::Phase);
        proof {
            assert(out@ =~= default_fields());
        }
        out
    } else {
        fields
    }
}

/// The extension of an export format.
pub open spec fn format_ext(format: ExportFormat) -> Seq<char> {
    match format {
        ExportFormat::Csv => "csv"@,
        ExportFormat::Json => "json"@,
    }
}

/// The default file name of an export: the range and the format's
/// extension.
pub fn default_export_file_name(range: &DateRange, format: ExportFormat) -> (r: String)
    ensures
        r@ == "pomodoro-history-"@ + range.from@ + "-"@ + range.to@ + "."@ + format_ext(format),
{
    let mut s = String::new();
    s.append("pomodoro-history-");
    s.append(range.from.as_str());
    s.append("-");
    s.append(range.to.as_str());
    s.append(".");
    match format {
        ExportFormat::Csv => s.append("csv"),
        ExportFormat::Json => s.append("json"),
    }
    proof {
        assert(s@ =~= "pomodoro-history-"@ + range.from@ + "-"@ + range.to@ + "."@ + format_ext(
            format,
        ));
    }
    s
}

/// Whether two records hold the same contents.
pub open spec fn rec_like(a: HistoryRecord, b: HistoryRecord) -> bool {
    &&& a.tag@ == b.tag@
    &&& a.start_time@ == b.start_time@
    &&& (match (a.end_time, b.end_time) {
        (Some(x), Some(y)) => x@ == y@,
        (None, None) => true,
        _ => false,
    })
    &&& a.duration == b.duration
    &&& a.phase == b.phase
    &&& a.remark@ == b.remark@
}

/// Whether a row carries the given day's date and its record at `k`.
pub open spec fn row_matches(row: ExportRow, day: HistoryDay, k: int) -> bool {
    row.date@ == day.date@ && rec_like(row.record, day.records@[k])
}

/// Flatten the day-grouped history into rows, one per record, in order:
/// the row at `total_records` of the preceding days plus the record's
/// index carries the day's date and the record.
pub fn flatten_days_to_rows(days: &Vec<HistoryDay>) -> (r: Vec<ExportRow>)
    ensures
        r@.len() == total_records(days@),
        forall|d: int, k: int|
            0 <= d < days@.len() && 0 <= k < days@[d].records@.len() ==> #[trigger] row_matches(
                r@[total_records(days@.take(d)) + k],
                days@[d],
                k,
            ),
{
    let ghost ds = days@;
    let n = days.len();
    let mut out: Vec<ExportRow> = Vec::new();
    let mut d: usize = 0;
    while d < n
        invariant
            d <= n,
            n == ds.len(),
            ds == days@,
            out@.len() == total_records(ds.take(d as int)),
            forall|e: int, k: int|
                0 <= e < d && 0 <= k < ds[e].records@.len() ==> #[trigger] row_matches(
                    out@[total_records(ds.take(e)) + k],
                    ds[e],
                    k,
                ),
        decreases n - d,
    {
        let day = &days[d];
        let m = day.records.len();
        proof {
            crate::stats::lemma_total_records_take(ds, d as int);
        }
        let mut k: usize = 0;
        while k < m
            invariant
                k <= m,
                d < n,
                n == ds.len(),
                ds == days@,
                m == ds[d as int].records@.len(),
                day.date@ == ds[d as int].date@,
                day.records@ == ds[d as int].records@,
                out@.len() == total_records(ds.take(d as int)) + k,
                total_records(ds.take(d as int)) + m <= total_records(ds),
                forall|e: int, k2: int|
                    0 <= e < d && 0 <= k2 < ds[e].records@.len() ==> #[trigger] row_matches(
                        out@[total_records(ds.take(e)) + k2],
                        ds[e],
                        k2,
                    ),
                forall|k2: int|
                    0 <= k2 < k ==> #[trigger] row_matches(
                        out@[total_records(ds.take(d as int)) + k2],
                        ds[d as int],
                        k2,
                    ),
            decreases m - k,
        {
            let row = ExportRow {
                date: clone_string(&day.date),
                record: clone_record(&day.records[k]),
            };
            let ghost out0 = out@;
            out.push(row);
            proof {
                assert(forall|i: int| 0 <= i < out0.len() ==> #[trigger] out@[i] == out0[i]);
                assert(row_matches(out@[out0.len() as int], ds[d as int], k as int));
                assert forall|e: int, k2: int|
                    0 <= e < d && 0 <= k2 < ds[e].records@.len() implies #[trigger] row_matches(
                    out@[total_records(ds.take(e)) + k2],
                    ds[e],
                    k2,
                ) by {
                    crate::stats::lemma_total_records_prefix(ds, e, d as int);
                    assert(row_matches(out0[total_records(ds.take(e)) + k2], ds[e], k2));
                    assert(out@[total_records(ds.take(e)) + k2] == out0[total_records(ds.take(e))
                        + k2]);
                }
                assert forall|k2: int|
                    0 <= k2 < k + 1 implies #[trigger] row_matches(
                    out@[total_records(ds.take(d as int)) + k2],
                    ds[d as int],
                    k2,
                ) by {
                    if k2 < k {
                        assert(row_matches(
                            out0[total_records(ds.take(d as int)) + k2],
                            ds[d as int],
                            k2,
                        ));
                        assert(out@[total_records(ds.take(d as int)) + k2] == out0[total_records(
                            ds.take(d as int),
                        ) + k2]);
                    }
                }
            }
            k = k + 1;
        }
        proof {
            assert(ds.take(d as int + 1).drop_last() =~= ds.take(d as int));
            assert(ds.take(d as int + 1).last() == ds[d as int]);
        }
        d = d + 1;
    }
    proof {
        assert(ds.take(n as int) =~= ds);
    }
    out
}

/// The minute field of an `HH:mm` string: what stands after the first
/// colon.
pub open spec fn after_colon(s: Seq<char>) -> Seq<char> {
    s.skip(upto_colon(s).len() as int + 1)
}

/// Whether a start time can have an end time derived from it: exactly one
/// colon, with an in-range numeric hour before it and minute after it.
pub open spec fn start_time_ok(s: Seq<char>) -> bool {
    let h = upto_colon(s);
    let m = after_colon(s);
    &&& h.len() < s.len()
    &&& upto_colon(m) == m
    &&& h.len() > 0 && all_digits(h) && dec_value(h) <= 23
    &&& m.len() > 0 && all_digits(m) && dec_value(m) <= 59
}

/// The derived end time: start plus duration, wrapped around midnight.
pub open spec fn derived_end(s: Seq<char>, duration: int) -> Seq<char> {
    let total = dec_value(upto_colon(s)) * 60 + dec_value(after_colon(s)) + duration;
    two_digits((total / 60) % 24) + ":"@ + two_digits(total % 60)
}

/// Derive the end time of a record from its start time and duration, for
/// old data without one: `None` when the start time is not a well-formed
/// `HH:mm`-like string.
pub fn derive_end_time_hhmm(start_time: &str, duration_minutes: u32) -> (r: Option<String>)
    ensures
        start_time_ok(start_time@) ==> (r matches Some(out) && out@ == derived_end(
            start_time@,
            duration_minutes as int,
        )),
        !start_time_ok(start_time@) ==> r is None,
{
    let len = start_time.unicode_len();
    let ci = first_colon_index(start_time);
    proof {
        lemma_upto_colon_take(start_time@, ci as int);
        assert(start_time@.subrange(0, ci as int) =~= start_time@.take(ci as int));
    }
    if ci == len {
        return None;
    }
    let head = start_time.substring_char(0, ci);
    let tail = start_time.substring_char(ci + 1, len);
    proof {
        assert(start_time@.subrange(ci as int + 1, len as int) =~= after_colon(start_time@));
    }
    let ci2 = first_colon_index(tail);
    if ci2 != tail.unicode_len() {
        proof {
            assert(after_colon(start_time@)[ci2 as int] == ':');
            if upto_colon(after_colon(start_time@)) == after_colon(start_time@) {
                lemma_upto_colon_take(after_colon(start_time@), ci2 as int);
            }
        }
        return None;
    }
    proof {
        lemma_upto_colon_take(after_colon(start_time@), ci2 as int);
        assert(after_colon(start_time@).take(ci2 as int) =~= after_colon(start_time@));
    }
    let h = match parse_decimal(head) {
        Some(v) => v,
        None => {
            return None;
        },
    };
    let m = match parse_decimal(tail) {
        Some(v) => v,
        None => {
            return None;
        },
    };
    if h > 23 || m > 59 {
        return None;
    }
    let total: u64 = h as u64 * 60 + m as u64 + duration_minutes as u64;
    let hh: u64 = (total / 60) % 24;
    let mm: u64 = total % 60;
    let mut out = two_digit_string(hh as u32);
    out.append(":");
    let tail_digits = two_digit_string(mm as u32);
    out.append(tail_digits.as_str());
    proof {
        assert(out@ =~= derived_end(start_time@, duration_minutes as int));
    }
    Some(out)
}

/// Format minutes of the day as zero-padded `HH:mm`, wrapping at 24 hours.
pub fn minutes_to_hhmm(total_minutes: u32) -> (r: String)
    ensures
        r@ == two_digits(((total_minutes / 60) % 24) as int) + ":"@ + two_digits(
            (total_minutes % 60) as int,
        ),
{
    let hh = (total_minutes / 60) % 24;
    let mm = total_minutes % 60;
    let mut out = two_digit_string(hh);
    out.append(":");
    let tail = two_digit_string(mm);
    out.append(tail.as_str());
    proof {
        assert(out@ =~= two_digits(((total_minutes / 60) % 24) as int) + ":"@ + two_digits(
            (total_minutes % 60) as int,
        ));
    }
    out
}

} // verus!
