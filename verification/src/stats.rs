//! Statistics over the history log: totals and per-tag counts for one day
//! and for an inclusive date range, plus the goal-progress projection.

use vstd::prelude::*;
use vstd::string::StringExecFns;

use crate::app_data::AppData;
use crate::app_data::HistoryDay;
use crate::app_data::HistoryRecord;
use crate::app_data::Phase;
use crate::app_data::clone_string;
use crate::strutil::StrOrder;
use crate::strutil::lemma_str_lt_irreflexive;
use crate::strutil::lemma_str_lt_transitive;
use crate::strutil::lemma_str_lt_trichotomy;
use crate::strutil::str_compare;
use crate::strutil::str_eq;
use crate::strutil::str_le;
use crate::strutil::str_le_exec;
use crate::strutil::str_lt;

verus! {

/// One tag with its completion count.
#[derive(Debug, Clone, PartialEq, Eq)]
pub struct TagCount {
    /// The tag.
    pub tag: String,
    /// How many completed work sessions carry it.
    pub count: u32,
}

/// Today's totals: overall and grouped by tag.
#[derive(Debug, Clone)]
pub struct TodayStats {
    /// Completed work sessions today.
    pub total: u32,
    /// Per-tag counts, sorted by tag.
    pub by_tag: Vec<TagCount>,
}

/// This week's totals: overall and grouped by tag.
#[derive(Debug, Clone)]
pub struct WeekStats {
    /// Completed work sessions this week.
    pub total: u32,
    /// Per-tag counts, sorted by tag.
    pub by_tag: Vec<TagCount>,
}

/// Progress against the daily and weekly goals.
#[derive(Debug, Copy, Clone, PartialEq, Eq, Structural)]
pub struct GoalProgress {
    /// Daily goal; zero means no goal.
    pub daily_goal: u32,
    /// Completed today.
    pub daily_completed: u32,
    /// Weekly goal; zero means no goal.
    pub weekly_goal: u32,
    /// Completed this week.
    pub weekly_completed: u32,
}

/// Whether a record logs a completed work session.
pub open spec fn is_work_rec(r: HistoryRecord) -> bool {
    r.phase == Phase::Work
}

/// How many work records a record sequence holds.
pub open spec fn work_count(rs: Seq<HistoryRecord>) -> nat
    decreases rs.len(),
{
    if rs.len() == 0 {
        0
    } else {
        work_count(rs.drop_last()) + (if is_work_rec(rs.last()) {
            1nat
        } else {
            0nat
        })
    }
}

/// How many work records with the given tag a record sequence holds.
pub open spec fn tag_count(rs: Seq<HistoryRecord>, tag: Seq<char>) -> nat
    decreases rs.len(),
{
    if rs.len() == 0 {
        0
    } else {
        tag_count(rs.drop_last(), tag) + (if is_work_rec(rs.last()) && rs.last().tag@ == tag {
            1nat
        } else {
            0nat
        })
    }
}

/// How many records a history holds in all, of any phase.
pub open spec fn total_records(h: Seq<HistoryDay>) -> nat
    decreases h.len(),
{
    if h.len() == 0 {
        0
    } else {
        total_records(h.drop_last()) + h.last().records@.len()
    }
}

/// The work total of the first day with the given date, or zero if the date
/// has no day. Day lookup is by first match, as the engine never stores one
/// date twice.
pub open spec fn today_total(h: Seq<HistoryDay>, date: Seq<char>) -> nat
    decreases h.len(),
{
    if h.len() == 0 {
        0
    } else if h[0].date@ == date {
        work_count(h[0].records@)
    } else {
        today_total(h.drop_first(), date)
    }
}

/// The per-tag work total of the first day with the given date.
pub open spec fn today_tag(h: Seq<HistoryDay>, date: Seq<char>, tag: Seq<char>) -> nat
    decreases h.len(),
{
    if h.len() == 0 {
        0
    } else if h[0].date@ == date {
        tag_count(h[0].records@, tag)
    } else {
        today_tag(h.drop_first(), date, tag)
    }
}

/// Whether a date lies in the inclusive range `from..=to`, comparing the
/// `YYYY-MM-DD` strings lexicographically.
pub open spec fn in_range(date: Seq<char>, from: Seq<char>, to: Seq<char>) -> bool {
    str_le(from, date) && str_le(date, to)
}

/// The work total over every day whose date lies in the range.
pub open spec fn week_total(h: Seq<HistoryDay>, from: Seq<char>, to: Seq<char>) -> nat
    decreases h.len(),
{
    if h.len() == 0 {
        0
    } else {
        week_total(h.drop_last(), from, to) + (if in_range(h.last().date@, from, to) {
            work_count(h.last().records@)
        } else {
            0nat
        })
    }
}

/// The per-tag work total over every day whose date lies in the range.
pub open spec fn week_tag(h: Seq<HistoryDay>, from: Seq<char>, to: Seq<char>, tag: Seq<char>) -> nat
    decreases h.len(),
{
    if h.len() == 0 {
        0
    } else {
        week_tag(h.drop_last(), from, to, tag) + (if in_range(h.last().date@, from, to) {
            tag_count(h.last().records@, tag)
        } else {
            0nat
        })
    }
}

/// The count stored for a tag in a tally, or zero if the tag is absent.
pub open spec fn tally_count(s: Seq<TagCount>, tag: Seq<char>) -> nat
    decreases s.len(),
{
    if s.len() == 0 {
        0
    } else if s[0].tag@ == tag {
        s[0].count as nat
    } else {
        tally_count(s.drop_first(), tag)
    }
}

/// A well-formed tally: strictly sorted by tag, every count positive.
pub open spec fn tally_wf(s: Seq<TagCount>) -> bool {
    &&& forall|i: int, j: int|
        0 <= i < j < s.len() ==> str_lt(#[trigger] s[i].tag@, #[trigger] s[j].tag@)
    &&& forall|i: int| 0 <= i < s.len() ==> (#[trigger] s[i]).count > 0
}

// ---------------------------------------------------------------------------
// Counting lemmas
// ---------------------------------------------------------------------------

/// Work counts add up over concatenation.
pub proof fn lemma_work_count_concat(a: Seq<HistoryRecord>, b: Seq<HistoryRecord>)
    ensures
        work_count(a + b) == work_count(a) + work_count(b),
    decreases b.len(),
{
    if b.len() == 0 {
        assert(a + b =~= a);
    } else {
        assert((a + b).drop_last() =~= a + b.drop_last());
        assert((a + b).last() == b.last());
        lemma_work_count_concat(a, b.drop_last());
    }
}

/// Per-tag counts add up over concatenation.
pub proof fn lemma_tag_count_concat(a: Seq<HistoryRecord>, b: Seq<HistoryRecord>, tag: Seq<char>)
    ensures
        tag_count(a + b, tag) == tag_count(a, tag) + tag_count(b, tag),
    decreases b.len(),
{
    if b.len() == 0 {
        assert(a + b =~= a);
    } else {
        assert((a + b).drop_last() =~= a + b.drop_last());
        assert((a + b).last() == b.last());
        lemma_tag_count_concat(a, b.drop_last(), tag);
    }
}

/// At most every record is a work record.
pub proof fn lemma_work_count_le_len(rs: Seq<HistoryRecord>)
    ensures
        work_count(rs) <= rs.len(),
    decreases rs.len(),
{
    if rs.len() > 0 {
        lemma_work_count_le_len(rs.drop_last());
    }
}

/// A tag's count never exceeds the work count.
pub proof fn lemma_tag_le_work(rs: Seq<HistoryRecord>, tag: Seq<char>)
    ensures
        tag_count(rs, tag) <= work_count(rs),
    decreases rs.len(),
{
    if rs.len() > 0 {
        lemma_tag_le_work(rs.drop_last(), tag);
    }
}

/// Unfold `total_records` at the front.
proof fn lemma_total_records_front(h: Seq<HistoryDay>)
    requires
        h.len() > 0,
    ensures
        total_records(h) == h[0].records@.len() + total_records(h.drop_first()),
    decreases h.len(),
{
    if h.len() == 1 {
        assert(h.drop_first() =~= Seq::<HistoryDay>::empty());
        assert(h.drop_last() =~= Seq::<HistoryDay>::empty());
    } else {
        lemma_total_records_front(h.drop_last());
        assert(h.drop_last().drop_first() =~= h.drop_first().drop_last());
        assert(h.drop_last()[0] == h[0]);
        assert(h.drop_first().last() == h.last());
    }
}

/// A prefix never holds more records than the whole.
pub proof fn lemma_total_records_take(h: Seq<HistoryDay>, i: int)
    requires
        0 <= i <= h.len(),
    ensures
        total_records(h.take(i)) <= total_records(h),
        i < h.len() ==> total_records(h.take(i)) + h[i].records@.len() <= total_records(h),
    decreases h.len() - i,
{
    if i < h.len() {
        let t = h.take(i + 1);
        assert(t.drop_last() =~= h.take(i));
        assert(t.last() == h[i]);
        lemma_total_records_take(h, i + 1);
    } else {
        assert(h.take(i) =~= h);
    }
}

/// A day's work never exceeds the whole history's record count.
pub proof fn lemma_today_le_total(h: Seq<HistoryDay>, date: Seq<char>)
    ensures
        today_total(h, date) <= total_records(h),
    decreases h.len(),
{
    if h.len() > 0 {
        lemma_total_records_front(h);
        if h[0].date@ == date {
            lemma_work_count_le_len(h[0].records@);
        } else {
            lemma_today_le_total(h.drop_first(), date);
        }
    }
}

/// Replacing one day changes the record count by the difference of that
/// day's record counts.
pub proof fn lemma_total_records_update(h: Seq<HistoryDay>, i: int, day: HistoryDay)
    requires
        0 <= i < h.len(),
    ensures
        total_records(h.update(i, day)) + h[i].records@.len() == total_records(h)
            + day.records@.len(),
    decreases h.len(),
{
    let h2 = h.update(i, day);
    if i == h.len() - 1 {
        assert(h2.drop_last() =~= h.drop_last());
        assert(h2.last() == day);
    } else {
        assert(h2.drop_last() =~= h.drop_last().update(i, day));
        assert(h2.last() == h.last());
        lemma_total_records_update(h.drop_last(), i, day);
    }
}

/// Prefix record counts grow with the prefix, day by day.
pub proof fn lemma_total_records_prefix(h: Seq<HistoryDay>, i: int, j: int)
    requires
        0 <= i <= j <= h.len(),
    ensures
        total_records(h.take(i)) <= total_records(h.take(j)),
        i < j ==> total_records(h.take(i)) + h[i].records@.len() <= total_records(h.take(j)),
    decreases j - i,
{
    if i < j {
        assert(h.take(i + 1).drop_last() =~= h.take(i));
        assert(h.take(i + 1).last() == h[i]);
        lemma_total_records_prefix(h, i + 1, j);
    }
}

/// Appending one day adds its record count.
pub proof fn lemma_total_records_push(h: Seq<HistoryDay>, day: HistoryDay)
    ensures
        total_records(h.push(day)) == total_records(h) + day.records@.len(),
{
    assert(h.push(day).drop_last() =~= h);
    assert(h.push(day).last() == day);
}

/// A week's work never exceeds the whole history's record count.
pub proof fn lemma_week_le_total(h: Seq<HistoryDay>, from: Seq<char>, to: Seq<char>)
    ensures
        week_total(h, from, to) <= total_records(h),
    decreases h.len(),
{
    if h.len() > 0 {
        lemma_week_le_total(h.drop_last(), from, to);
        lemma_work_count_le_len(h.last().records@);
    }
}

// ---------------------------------------------------------------------------
// Tally lemmas
// ---------------------------------------------------------------------------

/// In a sorted tally every tag before the first occurrence is smaller, so a
/// tag found at an index is the first occurrence.
proof fn lemma_tally_count_at(s: Seq<TagCount>, k: int)
    requires
        tally_wf(s),
        0 <= k < s.len(),
        forall|i: int| 0 <= i < k ==> str_lt(#[trigger] s[i].tag@, s[k].tag@),
    ensures
        tally_count(s, s[k].tag@) == s[k].count,
    decreases k,
{
    if k > 0 {
        lemma_str_lt_irreflexive(s[0].tag@);
        assert(s[0].tag@ != s[k].tag@);
        let s2 = s.drop_first();
        assert(forall|i: int| 0 <= i < k - 1 ==> str_lt(#[trigger] s2[i].tag@, s2[k - 1].tag@));
        lemma_tally_count_at(s2, k - 1);
    } else {
        if s[0].tag@ != s[k].tag@ {
        }
    }
}

/// A tag smaller than every entry of a sorted tally is absent.
proof fn lemma_tally_count_absent(s: Seq<TagCount>, tag: Seq<char>)
    requires
        forall|i: int| 0 <= i < s.len() ==> (#[trigger] s[i].tag@) != tag,
    ensures
        tally_count(s, tag) == 0,
    decreases s.len(),
{
    if s.len() > 0 {
        lemma_tally_count_absent(s.drop_first(), tag);
    }
}

/// Updating one entry's count changes exactly that tag's tally count.
proof fn lemma_tally_count_update(s: Seq<TagCount>, k: int, e: TagCount, tag: Seq<char>)
    requires
        0 <= k < s.len(),
        e.tag@ == s[k].tag@,
        forall|i: int| 0 <= i < k ==> (#[trigger] s[i].tag@) != s[k].tag@,
    ensures
        tag == s[k].tag@ ==> tally_count(s.update(k, e), tag) == e.count,
        tag != s[k].tag@ ==> tally_count(s.update(k, e), tag) == tally_count(s, tag),
    decreases k,
{
    let s2 = s.update(k, e);
    if k == 0 {
        if tag != s[0].tag@ {
            assert(s2.drop_first() =~= s.drop_first());
        }
    } else {
        assert(s2[0] == s[0]);
        assert(s2.drop_first() =~= s.drop_first().update(k - 1, e));
        lemma_tally_count_update(s.drop_first(), k - 1, e, tag);
    }
}

/// Inserting a fresh entry changes exactly that tag's tally count.
proof fn lemma_tally_count_insert(s: Seq<TagCount>, k: int, e: TagCount, tag: Seq<char>)
    requires
        0 <= k <= s.len(),
        forall|i: int| 0 <= i < s.len() ==> (#[trigger] s[i].tag@) != e.tag@,
    ensures
        tag == e.tag@ ==> tally_count(s.insert(k, e), tag) == e.count,
        tag != e.tag@ ==> tally_count(s.insert(k, e), tag) == tally_count(s, tag),
    decreases k,
{
    let s2 = s.insert(k, e);
    if k == 0 {
        if tag != e.tag@ {
            assert(s2[0] == e);
            assert(s2.drop_first() =~= s);
        } else {
            assert(s2[0] == e);
        }
    } else {
        assert(s2[0] == s[0]);
        assert(s2.drop_first() =~= s.drop_first().insert(k - 1, e));
        lemma_tally_count_insert(s.drop_first(), k - 1, e, tag);
    }
}

// ---------------------------------------------------------------------------
// The tally engine
// ---------------------------------------------------------------------------

/// Add one completed work session with the given tag to the tally, inserting
/// a new entry if the tag is not present yet.
fn bump_tag(by_tag: &mut Vec<TagCount>, tag: &String)
    requires
        tally_wf(old(by_tag)@),
        tally_count(old(by_tag)@, tag@) < u32::MAX,
    ensures
        tally_wf(final(by_tag)@),
        forall|t: Seq<char>|
            #[trigger] tally_count(final(by_tag)@, t) == tally_count(old(by_tag)@, t) + (if t
                == tag@ {
                1nat
            } else {
                0nat
            }),
{
    let ghost s0 = by_tag@;
    let n = by_tag.len();
    let mut k: usize = 0;
    while k < n
        invariant
            by_tag@ == s0,
            n == s0.len(),
            k <= n,
            tally_wf(s0),
            tally_count(s0, tag@) < u32::MAX,
            forall|i: int| 0 <= i < k ==> str_lt(#[trigger] s0[i].tag@, tag@),
        ensures
            by_tag@ == s0,
            k <= n,
            forall|i: int| 0 <= i < k ==> str_lt(#[trigger] s0[i].tag@, tag@),
            k < n ==> !str_lt(s0[k as int].tag@, tag@),
        decreases n - k,
    {
        match str_compare(by_tag[k].tag.as_str(), tag.as_str()) {
            StrOrder::Less => {
                k = k + 1;
            },
            _ => {
                break ;
            },
        }
    }
    if k < n {
        let same = str_eq(by_tag[k].tag.as_str(), tag.as_str());
        if same {
            proof {
                assert forall|i: int| 0 <= i < k implies (#[trigger] s0[i].tag@) != tag@ by {
                    lemma_str_lt_irreflexive(tag@);
                }
                lemma_tally_count_at(s0, k as int);
            }
            let c = by_tag[k].count;
            let fresh_tag = clone_string(&by_tag[k].tag);
            let entry = TagCount { tag: fresh_tag, count: c + 1 };
            proof {
                lemma_tally_count_update(s0, k as int, entry, tag@);
            }
            by_tag.set(k, entry);
            proof {
                let s1 = by_tag@;
                assert forall|t: Seq<char>| #[trigger] tally_count(s1, t) == tally_count(s0, t) + (
                if t == tag@ {
                    1nat
                } else {
                    0nat
                }) by {
                    lemma_tally_count_update(s0, k as int, entry, t);
                    lemma_tally_count_at(s0, k as int);
                }
                assert forall|i: int, j: int| 0 <= i < j < s1.len() implies str_lt(
                    #[trigger] s1[i].tag@,
                    #[trigger] s1[j].tag@,
                ) by {
                    assert(s0[i].tag@ == s1[i].tag@ || i == k);
                    assert(s0[j].tag@ == s1[j].tag@ || j == k);
                }
            }
            return ;
        }
    }
    // The tag is not present: every entry before k is smaller, entry k (if
    // any) is larger, so inserting at k keeps the tally sorted.
    let entry = TagCount { tag: clone_string(tag), count: 1 };
    proof {
        if k < n {
            assert(tag@ != s0[k as int].tag@);
            lemma_str_lt_trichotomy(tag@, s0[k as int].tag@);
            assert(str_lt(tag@, s0[k as int].tag@));
        }
        assert forall|i: int| 0 <= i < s0.len() implies (#[trigger] s0[i].tag@) != tag@ by {
            lemma_str_lt_irreflexive(tag@);
            if i >= k {
                if k < n {
                    if i > k {
                        lemma_str_lt_transitive(tag@, s0[k as int].tag@, s0[i].tag@);
                    }
                }
            }
        }
        lemma_tally_count_absent(s0, tag@);
    }
    by_tag.insert(k, entry);
    proof {
        let s1 = by_tag@;
        assert forall|t: Seq<char>| #[trigger] tally_count(s1, t) == tally_count(s0, t) + (if t
            == tag@ {
            1nat
        } else {
            0nat
        }) by {
            lemma_tally_count_insert(s0, k as int, entry, t);
        }
        assert forall|i: int, j: int| 0 <= i < j < s1.len() implies str_lt(
            #[trigger] s1[i].tag@,
            #[trigger] s1[j].tag@,
        ) by {
            if j < k {
            } else if i > k {
            } else if i == k {
                assert(s1[j] == s0[j - 1]);
                assert(str_lt(tag@, s0[j - 1].tag@)) by {
                    if j - 1 > k {
                        lemma_str_lt_transitive(tag@, s0[k as int].tag@, s0[j - 1].tag@);
                    }
                }
            } else if j == k {
                assert(s1[i] == s0[i]);
            } else {
                // i < k < j
                assert(s1[i] == s0[i]);
                assert(s1[j] == s0[j - 1]);
            }
        }
    }
}

/// Fold one day's records into a running total and tally. The ghost `base`
/// names the records already folded in.
fn tally_day(
    records: &Vec<HistoryRecord>,
    total: &mut u32,
    by_tag: &mut Vec<TagCount>,
    Ghost(base): Ghost<Seq<HistoryRecord>>,
)
    requires
        *old(total) == work_count(base),
        tally_wf(old(by_tag)@),
        forall|t: Seq<char>| #[trigger] tally_count(old(by_tag)@, t) == tag_count(base, t),
        work_count(base) + records@.len() <= u32::MAX,
    ensures
        *final(total) == work_count(base + records@),
        tally_wf(final(by_tag)@),
        forall|t: Seq<char>| #[trigger] tally_count(final(by_tag)@, t) == tag_count(
            base + records@,
            t,
        ),
{
    let n = records.len();
    let mut j: usize = 0;
    while j < n
        invariant
            j <= n,
            n == records@.len(),
            *total == work_count(base + records@.take(j as int)),
            tally_wf(by_tag@),
            forall|t: Seq<char>| #[trigger] tally_count(by_tag@, t) == tag_count(
                base + records@.take(j as int),
                t,
            ),
            work_count(base) + records@.len() <= u32::MAX,
        decreases n - j,
    {
        let ghost cur = base + records@.take(j as int);
        let ghost nxt = base + records@.take(j as int + 1);
        proof {
            assert(nxt =~= cur.push(records@[j as int]));
            assert(cur.push(records@[j as int]).drop_last() =~= cur);
            lemma_work_count_concat(base, records@.take(j as int));
            lemma_work_count_le_len(records@.take(j as int));
        }
        let rec = &records[j];
        if matches!(rec.phase, Phase::Work) {
            proof {
                lemma_tag_le_work(cur, rec.tag@);
            }
            *total = *total + 1;
            bump_tag(by_tag, &rec.tag);
            proof {
                assert forall|t: Seq<char>| #[trigger] tally_count(by_tag@, t) == tag_count(
                    nxt,
                    t,
                ) by {
                    assert(nxt.drop_last() =~= cur);
                }
            }
        } else {
            proof {
                assert forall|t: Seq<char>| #[trigger] tally_count(by_tag@, t) == tag_count(
                    nxt,
                    t,
                ) by {
                    assert(nxt.drop_last() =~= cur);
                }
            }
        }
        j = j + 1;
    }
    proof {
        assert(base + records@.take(n as int) =~= base + records@);
    }
}

// ---------------------------------------------------------------------------
// Public statistics functions
// ---------------------------------------------------------------------------

/// Compute the totals of the given day (`YYYY-MM-DD`), counting work
/// records only. The day is found by first match; a date with no day gives
/// zero totals.
pub fn compute_today_stats(data: &AppData, today: &str) -> (r: TodayStats)
    requires
        total_records(data.history@) <= u32::MAX,
    ensures
        r.total == today_total(data.history@, today@),
        tally_wf(r.by_tag@),
        forall|t: Seq<char>| #[trigger] tally_count(r.by_tag@, t) == today_tag(
            data.history@,
            today@,
            t,
        ),
{
    let ghost h = data.history@;
    let n = data.history.len();
    let mut i: usize = 0;
    proof {
        assert(h.skip(0) =~= h);
    }
    while i < n
        invariant
            i <= n,
            n == h.len(),
            h == data.history@,
            total_records(h) <= u32::MAX,
            today_total(h, today@) == today_total(h.skip(i as int), today@),
            forall|t: Seq<char>| #[trigger] today_tag(h, today@, t) == today_tag(
                h.skip(i as int),
                today@,
                t,
            ),
        decreases n - i,
    {
        let day = &data.history[i];
        if str_eq(day.date.as_str(), today) {
            let mut total: u32 = 0;
            let mut by_tag: Vec<TagCount> = Vec::new();
            proof {
                lemma_total_records_take(h, i as int);
                lemma_work_count_le_len(day.records@);
                assert(h.skip(i as int)[0] == h[i as int]);
                assert(Seq::<HistoryRecord>::empty() + day.records@ =~= day.records@);
            }
            tally_day(&day.records, &mut total, &mut by_tag, Ghost(Seq::empty()));
            return TodayStats { total, by_tag };
        }
        proof {
            assert(h.skip(i as int)[0] == h[i as int]);
            assert(h.skip(i as int).drop_first() =~= h.skip(i as int + 1));
            assert forall|t: Seq<char>| #[trigger] today_tag(h, today@, t) == today_tag(
                h.skip(i as int + 1),
                today@,
                t,
            ) by {
                assert(today_tag(h.skip(i as int), today@, t) == today_tag(
                    h.skip(i as int).drop_first(),
                    today@,
                    t,
                ));
            }
        }
        i = i + 1;
    }
    proof {
        assert(h.skip(n as int) =~= Seq::<HistoryDay>::empty());
    }
    TodayStats { total: 0, by_tag: Vec::new() }
}

/// Compute the totals of the inclusive range `from..=to` (`YYYY-MM-DD`),
/// counting work records of every day whose date lies in the range.
pub fn compute_week_stats(data: &AppData, from: &str, to: &str) -> (r: WeekStats)
    requires
        total_records(data.history@) <= u32::MAX,
    ensures
        r.total == week_total(data.history@, from@, to@),
        tally_wf(r.by_tag@),
        forall|t: Seq<char>| #[trigger] tally_count(r.by_tag@, t) == week_tag(
            data.history@,
            from@,
            to@,
            t,
        ),
{
    let ghost h = data.history@;
    let n = data.history.len();
    let mut total: u32 = 0;
    let mut by_tag: Vec<TagCount> = Vec::new();
    let ghost mut base: Seq<HistoryRecord> = Seq::empty();
    let mut i: usize = 0;
    while i < n
        invariant
            i <= n,
            n == h.len(),
            h == data.history@,
            total_records(h) <= u32::MAX,
            total == work_count(base),
            tally_wf(by_tag@),
            forall|t: Seq<char>| #[trigger] tally_count(by_tag@, t) == tag_count(base, t),
            week_total(h.take(i as int), from@, to@) == work_count(base),
            forall|t: Seq<char>| #[trigger] week_tag(h.take(i as int), from@, to@, t) == tag_count(
                base,
                t,
            ),
            base.len() <= total_records(h.take(i as int)),
        decreases n - i,
    {
        let day = &data.history[i];
        proof {
            assert(h.take(i as int + 1).drop_last() =~= h.take(i as int));
            assert(h.take(i as int + 1).last() == h[i as int]);
            lemma_total_records_take(h, i as int);
        }
        let inside = str_le_exec(from, day.date.as_str()) && str_le_exec(day.date.as_str(), to);
        if inside {
            proof {
                lemma_work_count_le_len(base);
            }
            tally_day(&day.records, &mut total, &mut by_tag, Ghost(base));
            proof {
                let nb = base + day.records@;
                assert forall|t: Seq<char>| #[trigger] week_tag(
                    h.take(i as int + 1),
                    from@,
                    to@,
                    t,
                ) == tag_count(nb, t) by {
                    assert(week_tag(h.take(i as int), from@, to@, t) == tag_count(base, t));
                    lemma_tag_count_concat(base, day.records@, t);
                }
                lemma_work_count_concat(base, day.records@);
                base = nb;
            }
        } else {
            proof {
                assert forall|t: Seq<char>| #[trigger] week_tag(
                    h.take(i as int + 1),
                    from@,
                    to@,
                    t,
                ) == tag_count(base, t) by {
                    assert(week_tag(h.take(i as int), from@, to@, t) == tag_count(base, t));
                }
            }
        }
        i = i + 1;
    }
    proof {
        assert(h.take(n as int) =~= h);
    }
    WeekStats { total, by_tag }
}


/// Count the records across all days, capping at the counter's ceiling.
pub fn count_records(history: &Vec<HistoryDay>) -> (r: u64)
    ensures
        total_records(history@) <= u64::MAX ==> r == total_records(history@),
        total_records(history@) > u64::MAX ==> r == u64::MAX,
{
    let ghost h = history@;
    let n = history.len();
    let mut r: u64 = 0;
    let mut i: usize = 0;
    while i < n
        invariant
            i <= n,
            n == h.len(),
            h == history@,
            total_records(h.take(i as int)) <= u64::MAX ==> r == total_records(h.take(i as int)),
            total_records(h.take(i as int)) > u64::MAX ==> r == u64::MAX,
        decreases n - i,
    {
        proof {
            assert(h.take(i as int + 1).drop_last() =~= h.take(i as int));
            assert(h.take(i as int + 1).last() == h[i as int]);
        }
        let len = history[i].records.len() as u64;
        r = if r > u64::MAX - len {
            u64::MAX
        } else {
            r + len
        };
        i = i + 1;
    }
    proof {
        assert(h.take(n as int) =~= h);
    }
    r
}

/// What a today-stats value reports for a given date.
pub open spec fn today_stats_for(h: Seq<HistoryDay>, today: Seq<char>, r: TodayStats) -> bool {
    r.total == today_total(h, today) && (forall|t: Seq<char>|
        #[trigger] tally_count(r.by_tag@, t) == today_tag(h, today, t))
}

/// What a week-stats value reports for a given range.
pub open spec fn week_stats_for(
    h: Seq<HistoryDay>,
    from: Seq<char>,
    to: Seq<char>,
    r: WeekStats,
) -> bool {
    r.total == week_total(h, from, to) && (forall|t: Seq<char>|
        #[trigger] tally_count(r.by_tag@, t) == week_tag(h, from, to, t))
}

impl TodayStats {
    /// Today's totals, with the system clock supplying the date.
    pub fn from_app_data(data: &AppData) -> (r: TodayStats)
        requires
            total_records(data.history@) <= u32::MAX,
        ensures
            tally_wf(r.by_tag@),
            exists|today: Seq<char>| #[trigger] today_stats_for(data.history@, today, r),
    {
        let clock = crate::clock::SystemClock;
        let today = crate::clock::TimerClock::today_date(&clock);
        let r = compute_today_stats(data, today.as_str());
        proof {
            assert(today_stats_for(data.history@, today@, r));
        }
        r
    }
}

impl WeekStats {
    /// This week's totals, with the system clock supplying the range.
    pub fn from_app_data(data: &AppData) -> (r: WeekStats)
        requires
            total_records(data.history@) <= u32::MAX,
        ensures
            tally_wf(r.by_tag@),
            exists|from: Seq<char>, to: Seq<char>|
                #[trigger] week_stats_for(data.history@, from, to, r),
    {
        let clock = crate::clock::SystemClock;
        let (from, to) = crate::clock::TimerClock::current_week_range(&clock);
        let r = compute_week_stats(data, from.as_str(), to.as_str());
        proof {
            assert(week_stats_for(data.history@, from@, to@, r));
        }
        r
    }
}

} // verus!
