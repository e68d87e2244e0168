use chrono::TimeZone;
use chrono_tz::America::Santiago;
use timesheet::aggregate::build_rows;
use timesheet::dates::Date;
use timesheet::model::TimesheetEntry;

fn ts(y: i32, mo: u32, d: u32, h: u32, mi: u32, s: u32) -> i64 {
    Santiago
        .with_ymd_and_hms(y, mo, d, h, mi, s)
        .unwrap()
        .timestamp()
}

fn entry(id: i64, clock_in: i64, clock_out: Option<i64>) -> TimesheetEntry {
    TimesheetEntry {
        id,
        worker_id: 1,
        clock_in,
        clock_out,
    }
}

#[test]
fn two_sessions_one_day_with_placeholders() {
    // 2024-03-05: 08:00-12:00 and 13:00-17:30; nothing on the other days.
    let entries = vec![
        entry(1, ts(2024, 3, 5, 8, 0, 0), Some(ts(2024, 3, 5, 12, 0, 0))),
        entry(2, ts(2024, 3, 5, 13, 0, 0), Some(ts(2024, 3, 5, 17, 30, 0))),
    ];
    let start = Date { year: 2024, month: 3, day: 1 };
    let end = Date { year: 2024, month: 3, day: 6 };
    let now = ts(2024, 3, 7, 9, 0, 0);
    let agg = build_rows(&entries, start, end, now);

    assert_eq!(agg.day_groups.len(), 6);
    for (i, g) in agg.day_groups.iter().enumerate() {
        assert_eq!(g.date.year, 2024);
        assert_eq!(g.date.month, 3);
        assert_eq!(g.date.day as usize, i + 1);
    }
    // days 1-4 and 6: one placeholder row each
    for i in [0usize, 1, 2, 3, 5] {
        let g = &agg.day_groups[i];
        assert_eq!(g.rows.len(), 1);
        assert_eq!(g.rows[0].clock_in, "--:--:--");
        assert_eq!(g.rows[0].clock_out, "--:--:--");
        assert_eq!(g.rows[0].duration_minutes, 0);
        assert_eq!(g.rows[0].duration_label, "00:00");
        assert!(!g.rows[0].is_open);
    }
    // day 5: the two sessions, 240 + 270 minutes
    let g5 = &agg.day_groups[4];
    assert_eq!(g5.rows.len(), 2);
    assert_eq!(g5.rows[0].clock_in, "08:00:00");
    assert_eq!(g5.rows[0].clock_out, "12:00:00");
    assert_eq!(g5.rows[0].duration_minutes, 240);
    assert_eq!(g5.rows[0].duration_label, "04:00");
    assert_eq!(g5.rows[1].clock_in, "13:00:00");
    assert_eq!(g5.rows[1].clock_out, "17:30:00");
    assert_eq!(g5.rows[1].duration_minutes, 270);
    assert_eq!(g5.rows[1].duration_label, "04:30");
    assert_eq!(g5.weekday_name, "martes");
    assert!(!g5.is_weekend);
    assert_eq!(agg.total_minutes, 510);
    assert!(!agg.has_open_sessions);
}

#[test]
fn rows_within_a_day_sorted_by_clock_in() {
    // handed in out of order; the afternoon session is listed first
    let entries = vec![
        entry(1, ts(2024, 3, 5, 13, 0, 0), Some(ts(2024, 3, 5, 14, 0, 0))),
        entry(2, ts(2024, 3, 5, 8, 0, 0), Some(ts(2024, 3, 5, 9, 0, 0))),
    ];
    let start = Date { year: 2024, month: 3, day: 1 };
    let end = Date { year: 2024, month: 3, day: 5 };
    let now = ts(2024, 3, 7, 9, 0, 0);
    let agg = build_rows(&entries, start, end, now);
    let g = &agg.day_groups[4];
    assert_eq!(g.rows.len(), 2);
    assert_eq!(g.rows[0].clock_in, "08:00:00");
    assert_eq!(g.rows[1].clock_in, "13:00:00");
    assert!(g.rows[0].clock_in_secs <= g.rows[1].clock_in_secs);
}

#[test]
fn equal_clock_ins_keep_input_order() {
    // two events at the very same second stay in store order
    let t0 = ts(2024, 3, 5, 8, 0, 0);
    let entries = vec![
        entry(10, t0, Some(t0 + 60)),
        entry(11, t0, Some(t0 + 120)),
    ];
    let start = Date { year: 2024, month: 3, day: 5 };
    let end = Date { year: 2024, month: 3, day: 5 };
    let now = ts(2024, 3, 7, 9, 0, 0);
    let agg = build_rows(&entries, start, end, now);
    let g = &agg.day_groups[0];
    assert_eq!(g.rows.len(), 2);
    assert_eq!(g.rows[0].duration_minutes, 1);
    assert_eq!(g.rows[1].duration_minutes, 2);
}

#[test]
fn negative_duration_clamped_and_excluded() {
    // clock-out recorded before clock-in: shown, but contributes nothing
    let entries = vec![
        entry(1, ts(2024, 3, 5, 10, 0, 0), Some(ts(2024, 3, 5, 8, 0, 0))),
        entry(2, ts(2024, 3, 5, 13, 0, 0), Some(ts(2024, 3, 5, 14, 0, 0))),
    ];
    let start = Date { year: 2024, month: 3, day: 5 };
    let end = Date { year: 2024, month: 3, day: 5 };
    let now = ts(2024, 3, 7, 9, 0, 0);
    let agg = build_rows(&entries, start, end, now);
    let g = &agg.day_groups[0];
    assert_eq!(g.rows.len(), 2);
    assert_eq!(g.rows[0].clock_in, "10:00:00");
    assert_eq!(g.rows[0].duration_minutes, 0);
    assert_eq!(g.rows[0].duration_label, "00:00");
    assert_eq!(g.rows[1].duration_minutes, 60);
    assert_eq!(agg.total_minutes, 60);
}

#[test]
fn open_session_marked_and_flagged() {
    let entries = vec![entry(1, ts(2024, 3, 5, 9, 0, 0), None)];
    let start = Date { year: 2024, month: 3, day: 5 };
    let end = Date { year: 2024, month: 3, day: 5 };
    let now = ts(2024, 3, 5, 11, 30, 0);
    let agg = build_rows(&entries, start, end, now);
    let g = &agg.day_groups[0];
    assert_eq!(g.rows.len(), 1);
    assert!(g.rows[0].is_open);
    assert_eq!(g.rows[0].clock_in, "09:00:00");
    assert_eq!(g.rows[0].clock_out, "11:30:00*");
    assert!(g.rows[0].clock_out.ends_with('*'));
    assert_eq!(g.rows[0].duration_minutes, 150);
    assert!(agg.has_open_sessions);

    // without any open session the flag stays off
    let closed = vec![entry(
        1,
        ts(2024, 3, 5, 9, 0, 0),
        Some(ts(2024, 3, 5, 10, 0, 0)),
    )];
    let agg2 = build_rows(&closed, start, end, now);
    assert!(!agg2.has_open_sessions);
}

#[test]
fn sunday_is_weekend_saturday_is_not() {
    let entries = vec![];
    let start = Date { year: 2024, month: 3, day: 1 };
    let end = Date { year: 2024, month: 3, day: 10 };
    let now = ts(2024, 3, 15, 9, 0, 0);
    let agg = build_rows(&entries, start, end, now);
    assert_eq!(agg.day_groups.len(), 10);
    // 2024-03-02 was a Saturday, 2024-03-03 a Sunday
    assert!(!agg.day_groups[1].is_weekend);
    assert_eq!(agg.day_groups[1].weekday_name, "s\u{e1}bado");
    assert!(agg.day_groups[2].is_weekend);
    assert_eq!(agg.day_groups[2].weekday_name, "domingo");
}

#[test]
fn range_clamped_to_month_end() {
    // the selected end lies in April; the walk stops at March 31
    let entries = vec![];
    let start = Date { year: 2024, month: 3, day: 1 };
    let end = Date { year: 2024, month: 4, day: 15 };
    let now = ts(2024, 4, 20, 9, 0, 0);
    let agg = build_rows(&entries, start, end, now);
    assert_eq!(agg.day_groups.len(), 31);
    assert_eq!(agg.day_groups[30].date.day, 31);
}

#[test]
fn empty_range_yields_no_groups() {
    let entries = vec![];
    let start = Date { year: 2024, month: 3, day: 1 };
    let end = Date { year: 2024, month: 2, day: 28 };
    let now = ts(2024, 3, 15, 9, 0, 0);
    let agg = build_rows(&entries, start, end, now);
    assert_eq!(agg.day_groups.len(), 0);
    assert_eq!(agg.total_minutes, 0);
    assert!(!agg.has_open_sessions);
}

#[test]
fn event_outside_range_dropped_from_rows() {
    // an event on March 20 is fetched but the walk ends on March 10
    let entries = vec![entry(
        1,
        ts(2024, 3, 20, 8, 0, 0),
        Some(ts(2024, 3, 20, 10, 0, 0)),
    )];
    let start = Date { year: 2024, month: 3, day: 1 };
    let end = Date { year: 2024, month: 3, day: 10 };
    let now = ts(2024, 3, 25, 9, 0, 0);
    let agg = build_rows(&entries, start, end, now);
    assert_eq!(agg.day_groups.len(), 10);
    for g in &agg.day_groups {
        assert_eq!(g.rows.len(), 1);
        assert_eq!(g.rows[0].clock_in, "--:--:--");
    }
    assert_eq!(agg.total_minutes, 0);
}
