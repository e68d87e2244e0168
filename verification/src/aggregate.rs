//! The attendance aggregator: turns one worker's raw events into day-grouped,
//! duration-annotated rows over a date range, walking every calendar day of
//! the range (clamped to the starting month) so the rendered calendar has no
//! gaps.

use vstd::prelude::*;
use vstd::arithmetic::div_mod::lemma_div_is_ordered;
use crate::clock::{civil_in_chile, civil_in_chile_of, local_date_of, local_hms_label_of,
    local_secs_of, valid_ts};
use crate::dates::{date_le, date_le_x, days_in_month, days_in_month_x, weekday_name_es,
    weekday_name_es_spec, weekday_of, weekday_x, Date};
use crate::model::{entries_ts_valid, entry_ts_valid, TimesheetEntry};
use crate::numfmt::{duration_label, format_duration, hms_string, push_char};
use crate::sorting::{lemma_stable_insert_at, lemma_stable_sort_len, lemma_stable_sort_sorted,
    stable_sort};

verus! {

/// One line of a report: a single attendance event on one day, or the
/// placeholder for a day without events.
#[derive(Debug)]
pub struct ReportRow {
    pub date: Date,
    pub clock_in: String,
    pub clock_out: String,
    pub duration_minutes: i64,
    pub duration_label: String,
    pub is_open: bool,
    /// Seconds since local midnight of the clock-in; the sort key within a day.
    pub clock_in_secs: u32,
}

/// All rows of one calendar day.
#[derive(Debug)]
pub struct DayGroup {
    pub date: Date,
    pub weekday_name: String,
    pub rows: Vec<ReportRow>,
    pub is_weekend: bool,
}

/// A worker's aggregated month: the walked days, the minute total, and
/// whether any session is still open.
#[derive(Debug)]
pub struct WorkerRows {
    pub day_groups: Vec<DayGroup>,
    pub total_minutes: i64,
    pub has_open_sessions: bool,
}

/// The provisional end of an event: its clock-out, or the aggregation instant
/// while the session is still open.
pub open spec fn end_instant(e: TimesheetEntry, now: int) -> int {
    match e.clock_out {
        Some(t) => t as int,
        None => now,
    }
}

/// Whole minutes between clock-in and the provisional end; a negative span
/// (clock-out recorded before clock-in) is clamped to zero.
pub open spec fn duration_of(e: TimesheetEntry, now: int) -> int {
    let d = end_instant(e, now) - e.clock_in;
    if d >= 0 {
        d / 60
    } else {
        0
    }
}

/// The within-day position of an event: seconds since local midnight of its
/// clock-in.
pub open spec fn entry_key(e: TimesheetEntry) -> int {
    local_secs_of(e.clock_in as int)
}

/// Events ordered by local clock-in time of day.
pub open spec fn entry_leq() -> spec_fn(TimesheetEntry, TimesheetEntry) -> bool {
    |a: TimesheetEntry, b: TimesheetEntry| entry_key(a) <= entry_key(b)
}

/// The events whose local clock-in date is `d`, in input order.
pub open spec fn day_entries(s: Seq<TimesheetEntry>, d: Date) -> Seq<TimesheetEntry> {
    s.filter(|e: TimesheetEntry| local_date_of(e.clock_in as int) == d)
}

/// How a rendered row relates to its source event.
pub open spec fn row_matches(r: ReportRow, e: TimesheetEntry, now: int) -> bool {
    &&& r.date == local_date_of(e.clock_in as int)
    &&& r.clock_in@ == local_hms_label_of(e.clock_in as int)
    &&& r.is_open == (e.clock_out is None)
    &&& r.clock_out@ == match e.clock_out {
        Some(t) => local_hms_label_of(t as int),
        None => local_hms_label_of(now).push('*'),
    }
    &&& r.duration_minutes == duration_of(e, now)
    &&& r.duration_label@ == duration_label(duration_of(e, now) as nat)
    &&& r.clock_in_secs == local_secs_of(e.clock_in as int)
}

/// The placeholder row of a day without events.
pub open spec fn placeholder_row_matches(r: ReportRow, d: Date) -> bool {
    &&& r.date == d
    &&& r.clock_in@ == "--:--:--"@
    &&& r.clock_out@ == "--:--:--"@
    &&& r.duration_minutes == 0
    &&& r.duration_label@ == duration_label(0)
    &&& !r.is_open
    &&& r.clock_in_secs == 0
}

/// How one day-group relates to the event log: its rows are the day's events
/// sorted by clock-in, or the one placeholder row.
pub open spec fn group_matches(g: DayGroup, entries: Seq<TimesheetEntry>, d: Date, now: int) -> bool {
    let des = day_entries(entries, d);
    let ses = stable_sort(des, entry_leq());
    &&& g.date == d
    &&& g.weekday_name@ == weekday_name_es_spec(weekday_of(d))
    &&& g.is_weekend == (weekday_of(d) == 6)
    &&& if des.len() == 0 {
        g.rows@.len() == 1 && placeholder_row_matches(g.rows@[0], d)
    } else {
        g.rows@.len() == des.len() && forall|j: int|
            0 <= j < des.len() ==> row_matches(#[trigger] g.rows@[j], ses[j], now)
    }
}

/// Rows of a group stand in ascending clock-in order.
pub open spec fn group_rows_sorted(g: DayGroup) -> bool {
    forall|j1: int, j2: int|
        0 <= j1 <= j2 < g.rows@.len() ==> #[trigger] g.rows@[j1].clock_in_secs
            <= #[trigger] g.rows@[j2].clock_in_secs
}

/// Every open row's clock-out label ends in the open-session marker.
pub open spec fn group_open_starred(g: DayGroup) -> bool {
    forall|j: int|
        0 <= j < g.rows@.len() && (#[trigger] g.rows@[j]).is_open ==> g.rows@[j].clock_out@.len()
            > 0 && g.rows@[j].clock_out@.last() == '*'
}

/// Every row of the group carries a non-negative duration (bad spans are
/// clamped before they reach a row).
pub open spec fn group_rows_nonneg(g: DayGroup) -> bool {
    forall|j: int| 0 <= j < g.rows@.len() ==> 0 <= (#[trigger] g.rows@[j]).duration_minutes
}

/// A row's contribution to the total: its minutes if non-negative, else zero.
pub open spec fn row_total(rows: Seq<ReportRow>) -> int
    decreases rows.len(),
{
    if rows.len() == 0 {
        0
    } else {
        row_total(rows.drop_last()) + if rows.last().duration_minutes >= 0 {
            rows.last().duration_minutes as int
        } else {
            0
        }
    }
}

/// The sum of the row contributions over all day-groups.
pub open spec fn groups_total(gs: Seq<DayGroup>) -> int
    decreases gs.len(),
{
    if gs.len() == 0 {
        0
    } else {
        groups_total(gs.drop_last()) + row_total(gs.last().rows@)
    }
}

pub open spec fn rows_any_open(rows: Seq<ReportRow>) -> bool
    decreases rows.len(),
{
    if rows.len() == 0 {
        false
    } else {
        rows_any_open(rows.drop_last()) || rows.last().is_open
    }
}

pub open spec fn groups_any_open(gs: Seq<DayGroup>) -> bool
    decreases gs.len(),
{
    if gs.len() == 0 {
        false
    } else {
        groups_any_open(gs.drop_last()) || rows_any_open(gs.last().rows@)
    }
}

/// The last walked day number: the range's end clamped to the starting month
/// and to thirty days past the start.
pub open spec fn walk_last_day(start: Date, end: Date) -> int {
    let dim = days_in_month(start.year as int, start.month as int);
    let cap = if start.day + 30 <= dim {
        start.day + 30
    } else {
        dim
    };
    if !date_le(start, end) {
        start.day - 1
    } else if end.year == start.year && end.month == start.month {
        if end.day <= cap {
            end.day as int
        } else {
            cap
        }
    } else {
        cap
    }
}

/// How many days the walk covers.
pub open spec fn walk_len(start: Date, end: Date) -> int {
    walk_last_day(start, end) - start.day + 1
}

/// The `i`-th walked date.
pub open spec fn walk_date(start: Date, i: int) -> Date {
    Date { year: start.year, month: start.month, day: (start.day + i) as u8 }
}

/// Everything `build_rows` promises about its result.
pub open spec fn aggregate_post(
    entries: Seq<TimesheetEntry>,
    start: Date,
    end: Date,
    now: int,
    r: WorkerRows,
) -> bool {
    &&& r.day_groups@.len() == walk_len(start, end)
    &&& forall|i: int|
        0 <= i < walk_len(start, end) ==> group_matches(
            #[trigger] r.day_groups@[i],
            entries,
            walk_date(start, i),
            now,
        )
    &&& forall|i: int| 0 <= i < walk_len(start, end) ==> group_rows_sorted(#[trigger] r.day_groups@[i])
    &&& forall|i: int|
        0 <= i < walk_len(start, end) ==> group_open_starred(#[trigger] r.day_groups@[i])
    &&& forall|i: int|
        0 <= i < walk_len(start, end) ==> group_rows_nonneg(#[trigger] r.day_groups@[i])
    &&& r.total_minutes as int == groups_total(r.day_groups@)
    &&& 0 <= r.total_minutes
    &&& r.has_open_sessions == groups_any_open(r.day_groups@)
}

/// A day's rows hold at least one open row exactly when some index does.
pub proof fn lemma_rows_any_open_iff(rows: Seq<ReportRow>)
    ensures
        rows_any_open(rows) <==> exists|j: int| 0 <= j < rows.len() && (#[trigger] rows[j]).is_open,
    decreases rows.len(),
{
    if rows.len() > 0 {
        lemma_rows_any_open_iff(rows.drop_last());
        if rows_any_open(rows.drop_last()) {
            let j = choose|j: int|
                0 <= j < rows.drop_last().len() && (#[trigger] rows.drop_last()[j]).is_open;
            assert(rows[j].is_open);
        }
        if rows.last().is_open {
            assert(rows[rows.len() - 1].is_open);
        }
        if exists|j: int| 0 <= j < rows.len() && (#[trigger] rows[j]).is_open {
            let j = choose|j: int| 0 <= j < rows.len() && (#[trigger] rows[j]).is_open;
            if j < rows.len() - 1 {
                assert(rows.drop_last()[j].is_open);
            }
        }
    }
}

/// The open-sessions flag of an aggregate is true exactly when at least one
/// row of some day in the range is open.
pub proof fn lemma_groups_any_open_iff(gs: Seq<DayGroup>)
    ensures
        groups_any_open(gs) <==> exists|i: int, j: int|
            0 <= i < gs.len() && 0 <= j < gs[i].rows@.len() && (#[trigger] gs[i].rows@[j]).is_open,
    decreases gs.len(),
{
    if gs.len() > 0 {
        lemma_groups_any_open_iff(gs.drop_last());
        lemma_rows_any_open_iff(gs.last().rows@);
        if groups_any_open(gs.drop_last()) {
            let (i, j) = choose|i: int, j: int|
                0 <= i < gs.drop_last().len() && 0 <= j < gs.drop_last()[i].rows@.len() && (
                #[trigger] gs.drop_last()[i].rows@[j]).is_open;
            assert(gs[i].rows@[j].is_open);
        }
        if rows_any_open(gs.last().rows@) {
            let j = choose|j: int|
                0 <= j < gs.last().rows@.len() && (#[trigger] gs.last().rows@[j]).is_open;
            assert(gs[gs.len() - 1].rows@[j].is_open);
        }
        if exists|i: int, j: int|
            0 <= i < gs.len() && 0 <= j < gs[i].rows@.len() && (
            #[trigger] gs[i].rows@[j]).is_open {
            let (i, j) = choose|i: int, j: int|
                0 <= i < gs.len() && 0 <= j < gs[i].rows@.len() && (
                #[trigger] gs[i].rows@[j]).is_open;
            if i < gs.len() - 1 {
                assert(gs.drop_last()[i].rows@[j].is_open);
            } else {
                assert(gs.last().rows@[j].is_open);
            }
        }
    }
}

/// The dates of the day-groups form a contiguous ascending run: the walk
/// covers the clamped range without gaps or duplicates.
pub proof fn lemma_day_groups_contiguous(
    entries: Seq<TimesheetEntry>,
    start: Date,
    end: Date,
    now: int,
    r: WorkerRows,
)
    requires
        start.valid(),
        aggregate_post(entries, start, end, now, r),
    ensures
        r.day_groups@.len() == walk_len(start, end),
        forall|i: int|
            0 <= i < r.day_groups@.len() ==> (#[trigger] r.day_groups@[i]).date.year == start.year
                && r.day_groups@[i].date.month == start.month && r.day_groups@[i].date.day as int
                == start.day + i,
{
    assert forall|i: int| 0 <= i < r.day_groups@.len() implies (#[trigger] r.day_groups@[i]).date.year
        == start.year && r.day_groups@[i].date.month == start.month
        && r.day_groups@[i].date.day as int == start.day + i by {
        assert(group_matches(r.day_groups@[i], entries, walk_date(start, i), now));
        assert(start.day + i <= walk_last_day(start, end));
        assert(walk_last_day(start, end) <= 61);
        assert(r.day_groups@[i].date == walk_date(start, i));
    }
}

/// Seconds since local midnight of an event's clock-in, as the sort key.
fn entry_key_x(e: TimesheetEntry) -> (k: u32)
    requires
        entry_ts_valid(e),
    ensures
        k as int == entry_key(e),
        k < 86400,
{
    let c = civil_in_chile(e.clock_in);
    (c.3 as u32) * 3600 + (c.4 as u32) * 60 + (c.5 as u32)
}

/// Build the report row of one event against the aggregation instant `now`.
pub fn to_report_row(e: TimesheetEntry, now: i64) -> (r: ReportRow)
    requires
        entry_ts_valid(e),
        valid_ts(now as int),
    ensures
        row_matches(r, e, now as int),
        0 <= r.duration_minutes < 4300000000,
{
    let end: i64 = match e.clock_out {
        Some(t) => t,
        None => now,
    };
    let diff: i64 = end - e.clock_in;
    let dur: i64 = if diff < 0 {
        0
    } else {
        proof {
            lemma_div_is_ordered(diff as int, 253402300799, 60);
        }
        ((diff as u64) / 60) as i64
    };
    let cin = civil_in_chile(e.clock_in);
    let cend = civil_in_chile(end);
    let date = Date { year: cin.0, month: cin.1, day: cin.2 };
    let clock_in_label = hms_string(cin.3, cin.4, cin.5);
    let mut clock_out_label = hms_string(cend.3, cend.4, cend.5);
    let is_open = e.clock_out.is_none();
    if is_open {
        push_char(&mut clock_out_label, '*');
    }
    let dur_label = format_duration(dur);
    let secs: u32 = (cin.3 as u32) * 3600 + (cin.4 as u32) * 60 + (cin.5 as u32);
    ReportRow {
        date,
        clock_in: clock_in_label,
        clock_out: clock_out_label,
        duration_minutes: dur,
        duration_label: dur_label,
        is_open,
        clock_in_secs: secs,
    }
}

/// Index at which a scan from the right stops: everything from the index on
/// has a strictly larger key than `xk`.
fn find_insert_pos(out: &Vec<TimesheetEntry>, xk: u32, x: TimesheetEntry) -> (j: usize)
    requires
        entries_ts_valid(out@),
        xk as int == entry_key(x),
    ensures
        j <= out@.len(),
        forall|k: int| j <= k < out@.len() ==> entry_key(#[trigger] out@[k]) > entry_key(x),
        j > 0 ==> entry_key(out@[j - 1]) <= entry_key(x),
{
    let mut j = out.len();
    while j > 0
        invariant
            j <= out@.len(),
            entries_ts_valid(out@),
            xk as int == entry_key(x),
            forall|k: int| j <= k < out@.len() ==> entry_key(#[trigger] out@[k]) > entry_key(x),
        decreases j,
    {
        let yk = entry_key_x(out[j - 1]);
        if yk <= xk {
            return j;
        }
        j = j - 1;
    }
    0
}

/// Stable sort of a day's events by local clock-in time of day.
fn sort_entries_by_clock_in(v: Vec<TimesheetEntry>) -> (r: Vec<TimesheetEntry>)
    requires
        entries_ts_valid(v@),
    ensures
        r@ == stable_sort(v@, entry_leq()),
        entries_ts_valid(r@),
{
    let ghost orig = v@;
    let mut out: Vec<TimesheetEntry> = Vec::new();
    let mut i: usize = 0;
    while i < v.len()
        invariant
            i <= v@.len(),
            v@ == orig,
            entries_ts_valid(orig),
            out@ == stable_sort(orig.take(i as int), entry_leq()),
            entries_ts_valid(out@),
        decreases v@.len() - i,
    {
        let x = v[i];
        assert(entry_ts_valid(x));
        let xk = entry_key_x(x);
        let j = find_insert_pos(&out, xk, x);
        proof {
            assert forall|k: int| j <= k < out@.len() implies !((entry_leq())(
                #[trigger] out@[k],
                x,
            )) by {
                assert(entry_key(out@[k]) > entry_key(x));
            }
            lemma_stable_insert_at(out@, x, entry_leq(), j as int);
        }
        let ghost pre = out@;
        out.insert(j, x);
        proof {
            assert(orig.take(i + 1).drop_last() =~= orig.take(i as int));
            assert(orig.take(i + 1).last() == orig[i as int]);
            assert(out@ == stable_sort(orig.take(i + 1), entry_leq()));
            assert forall|k: int| 0 <= k < out@.len() implies entry_ts_valid(#[trigger] out@[k]) by {
                if k < j {
                    assert(out@[k] == pre[k]);
                } else if k == j {
                    assert(out@[k] == x);
                } else {
                    assert(out@[k] == pre[k - 1]);
                }
            }
        }
        i = i + 1;
    }
    proof {
        assert(orig.take(orig.len() as int) =~= orig);
    }
    out
}

/// Aggregate one worker's events over `[start, end]`, walking every calendar
/// day of the range within the starting month. Days without events carry one
/// placeholder row; day totals count only non-negative durations; open
/// sessions are closed provisionally at `now` and marked.
pub fn build_rows(entries: &Vec<TimesheetEntry>, start: Date, end: Date, now: i64) -> (r:
    WorkerRows)
    requires
        start.valid(),
        end.valid(),
        valid_ts(now as int),
        entries_ts_valid(entries@),
        entries@.len() <= 100000,
    ensures
        aggregate_post(entries@, start, end, now as int, r),
{
    if !date_le_x(start, end) {
        return WorkerRows { day_groups: Vec::new(), total_minutes: 0, has_open_sessions: false };
    }
    let dim = days_in_month_x(start.year, start.month);
    let cap: u8 = if start.day + 30 <= dim {
        start.day + 30
    } else {
        dim
    };
    let last: u8 = if end.year == start.year && end.month == start.month {
        if end.day <= cap {
            end.day
        } else {
            cap
        }
    } else {
        cap
    };
    assert(last as int == walk_last_day(start, end));
    let mut groups: Vec<DayGroup> = Vec::new();
    let mut total: i64 = 0;
    let mut has_open = false;
    let mut day: u8 = start.day;
    while day <= last
        invariant
            start.valid(),
            end.valid(),
            valid_ts(now as int),
            entries_ts_valid(entries@),
            entries@.len() <= 100000,
            start.day <= day,
            day <= last + 1,
            last as int == walk_last_day(start, end),
            last as int <= days_in_month(start.year as int, start.month as int),
            groups@.len() == day - start.day,
            forall|i: int|
                0 <= i < groups@.len() ==> group_matches(
                    #[trigger] groups@[i],
                    entries@,
                    walk_date(start, i),
                    now as int,
                ),
            forall|i: int| 0 <= i < groups@.len() ==> group_rows_sorted(#[trigger] groups@[i]),
            forall|i: int| 0 <= i < groups@.len() ==> group_open_starred(#[trigger] groups@[i]),
            forall|i: int| 0 <= i < groups@.len() ==> group_rows_nonneg(#[trigger] groups@[i]),
            total as int == groups_total(groups@),
            0 <= total <= groups@.len() * 430000000000000int,
            has_open == groups_any_open(groups@),
        decreases last + 1 - day,
    {
        let d = Date { year: start.year, month: start.month, day };
        assert(d.valid());
        // the events whose local clock-in date is this day, in input order
        let mut day_es: Vec<TimesheetEntry> = Vec::new();
        let mut k: usize = 0;
        while k < entries.len()
            invariant
                k <= entries@.len(),
                entries_ts_valid(entries@),
                day_es@ == day_entries(entries@.take(k as int), d),
                day_es@.len() <= k,
                entries_ts_valid(day_es@),
            decreases entries@.len() - k,
        {
            let e = entries[k];
            assert(entry_ts_valid(e));
            let c = civil_in_chile(e.clock_in);
            let ed = Date { year: c.0, month: c.1, day: c.2 };
            let ghost pre_day = day_es@;
            if ed.year == d.year && ed.month == d.month && ed.day == d.day {
                day_es.push(e);
            }
            proof {
                reveal(Seq::filter);
                let s1 = entries@.take(k + 1);
                assert(s1.drop_last() =~= entries@.take(k as int));
                assert(s1.last() == entries@[k as int]);
                assert(ed == local_date_of(e.clock_in as int));
                assert(day_es@ == day_entries(entries@.take(k + 1), d));
                assert forall|t: int| 0 <= t < day_es@.len() implies entry_ts_valid(
                    #[trigger] day_es@[t],
                ) by {
                    if t < pre_day.len() {
                        assert(day_es@[t] == pre_day[t]);
                    } else {
                        assert(day_es@[t] == e);
                    }
                }
            }
            k = k + 1;
        }
        proof {
            assert(entries@.take(entries@.len() as int) =~= entries@);
        }
        let ghost des = day_entries(entries@, d);
        assert(day_es@ == des);
        assert(day_es@.len() <= 100000);
        let sorted = sort_entries_by_clock_in(day_es);
        let ghost ses = stable_sort(des, entry_leq());
        proof {
            lemma_stable_sort_len(des, entry_leq());
        }
        let mut rows: Vec<ReportRow> = Vec::new();
        let mut day_total: i64 = 0;
        let mut day_open = false;
        if sorted.len() == 0 {
            let mut ph_in = String::new();
            ph_in.append("--:--:--");
            let mut ph_out = String::new();
            ph_out.append("--:--:--");
            let ph = ReportRow {
                date: d,
                clock_in: ph_in,
                clock_out: ph_out,
                duration_minutes: 0,
                duration_label: format_duration(0),
                is_open: false,
                clock_in_secs: 0,
            };
            rows.push(ph);
            proof {
                assert(rows@[0].clock_in@ =~= "--:--:--"@);
                assert(rows@[0].clock_out@ =~= "--:--:--"@);
                assert(rows@.drop_last() =~= Seq::<ReportRow>::empty());
                assert(placeholder_row_matches(rows@[0], d));
                assert(row_total(Seq::<ReportRow>::empty()) == 0);
                assert(!rows_any_open(Seq::<ReportRow>::empty()));
                assert(row_total(rows@) == 0);
                assert(!rows_any_open(rows@));
            }
        } else {
            assert(sorted@.len() <= 100000) by {
                lemma_stable_sort_len(des, entry_leq());
            }
            let mut j: usize = 0;
            while j < sorted.len()
                invariant
                    j <= sorted@.len(),
                    sorted@.len() <= 100000,
                    sorted@ == ses,
                    entries_ts_valid(sorted@),
                    valid_ts(now as int),
                    rows@.len() == j,
                    forall|t: int|
                        0 <= t < j ==> row_matches(#[trigger] rows@[t], ses[t], now as int),
                    forall|t: int|
                        0 <= t < j ==> 0 <= (#[trigger] rows@[t]).duration_minutes < 4300000000,
                    day_total as int == row_total(rows@),
                    0 <= day_total <= j * 4300000000int,
                    day_open == rows_any_open(rows@),
                decreases sorted@.len() - j,
            {
                let e = sorted[j];
                assert(entry_ts_valid(e));
                let r = to_report_row(e, now);
                day_total = day_total + r.duration_minutes;
                if r.is_open {
                    day_open = true;
                }
                let ghost pre_rows = rows@;
                rows.push(r);
                proof {
                    assert(rows@.drop_last() =~= pre_rows);
                    assert(rows@.last() == r);
                }
                j = j + 1;
            }
        }
        let w = weekday_x(d);
        let wname_ref = weekday_name_es(w);
        let mut wname = String::new();
        wname.append(wname_ref);
        let g = DayGroup { date: d, weekday_name: wname, rows, is_weekend: w == 6 };
        proof {
            // the group matches its day
            if des.len() == 0 {
                assert(group_matches(g, entries@, d, now as int));
            } else {
                assert(g.rows@.len() == des.len());
                assert(group_matches(g, entries@, d, now as int));
            }
            // rows are sorted by clock-in
            if des.len() > 0 {
                assert forall|a: TimesheetEntry, b: TimesheetEntry| #[trigger] (entry_leq())(a, b)
                    || #[trigger] (entry_leq())(b, a) by {}
                assert forall|a: TimesheetEntry, b: TimesheetEntry, c2: TimesheetEntry| #[trigger] (
                entry_leq())(a, b) && #[trigger] (entry_leq())(b, c2) implies (entry_leq())(
                    a,
                    c2,
                ) by {}
                lemma_stable_sort_sorted(des, entry_leq());
                assert forall|j1: int, j2: int| 0 <= j1 <= j2 < g.rows@.len() implies (
                #[trigger] g.rows@[j1]).clock_in_secs <= (#[trigger] g.rows@[j2]).clock_in_secs by {
                    if j1 < j2 {
                        assert((entry_leq())(ses[j1], ses[j2]));
                        assert(g.rows@[j1].clock_in_secs as int == entry_key(ses[j1]));
                        assert(g.rows@[j2].clock_in_secs as int == entry_key(ses[j2]));
                    }
                }
            }
            assert(group_rows_sorted(g));
            assert(group_open_starred(g));
            assert(group_rows_nonneg(g));
        }
        let ghost pre_groups = groups@;
        total = total + day_total;
        has_open = has_open || day_open;
        groups.push(g);
        proof {
            assert(groups@.drop_last() =~= pre_groups);
            assert(groups@.last() == g);
            assert forall|i: int| 0 <= i < groups@.len() implies group_matches(
                #[trigger] groups@[i],
                entries@,
                walk_date(start, i),
                now as int,
            ) by {
                if i < groups@.len() - 1 {
                    assert(groups@[i] == pre_groups[i]);
                } else {
                    assert(walk_date(start, i) == d);
                }
            }
        }
        day = day + 1;
    }
    assert(groups@.len() == walk_len(start, end));
    WorkerRows { day_groups: groups, total_minutes: total, has_open_sessions: has_open }
}

} // verus!
