use chrono::TimeZone;
use chrono_tz::America::Santiago;
use timesheet::live::{compose_live_view, RowStatus, WorkerDay};
use timesheet::model::{TimesheetEntry, Worker};

fn ts(h: u32, mi: u32) -> i64 {
    Santiago
        .with_ymd_and_hms(2024, 3, 5, h, mi, 0)
        .unwrap()
        .timestamp()
}

fn worker(id: i64, name: &str, barcode: &str) -> Worker {
    Worker {
        id,
        name: name.to_string(),
        barcode: barcode.to_string(),
        active: true,
    }
}

fn entry(id: i64, worker_id: i64, clock_in: i64, clock_out: Option<i64>) -> TimesheetEntry {
    TimesheetEntry {
        id,
        worker_id,
        clock_in,
        clock_out,
    }
}

#[test]
fn open_worker_before_closed_worker() {
    // A is mid-session since 09:00; B clocked out at 10:00
    let a = WorkerDay {
        worker: worker(1, "A", "111"),
        entries: vec![entry(1, 1, ts(9, 0), None)],
    };
    let b = WorkerDay {
        worker: worker(2, "B", "222"),
        entries: vec![entry(2, 2, ts(8, 0), Some(ts(10, 0)))],
    };
    let view = compose_live_view(vec![b, a]);
    assert_eq!(view.in_progress.len(), 1);
    assert_eq!(view.not_in_progress.len(), 1);
    assert_eq!(view.in_progress[0].rows[0].name, "A");
    assert_eq!(view.not_in_progress[0].rows[0].name, "B");
    assert_eq!(view.workers_in_order.len(), 2);
    assert_eq!(view.workers_in_order[0].name, "A");
    assert_eq!(view.workers_in_order[1].name, "B");
}

#[test]
fn most_recent_first_within_each_side() {
    let early_open = WorkerDay {
        worker: worker(1, "EarlyOpen", "1"),
        entries: vec![entry(1, 1, ts(8, 0), None)],
    };
    let late_open = WorkerDay {
        worker: worker(2, "LateOpen", "2"),
        entries: vec![entry(2, 2, ts(11, 0), None)],
    };
    let early_closed = WorkerDay {
        worker: worker(3, "EarlyClosed", "3"),
        entries: vec![entry(3, 3, ts(7, 0), Some(ts(9, 0)))],
    };
    let late_closed = WorkerDay {
        worker: worker(4, "LateClosed", "4"),
        entries: vec![entry(4, 4, ts(7, 30), Some(ts(10, 0)))],
    };
    let view = compose_live_view(vec![early_open, early_closed, late_open, late_closed]);
    let order: Vec<&str> = view
        .workers_in_order
        .iter()
        .map(|w| w.name.as_str())
        .collect();
    assert_eq!(order, ["LateOpen", "EarlyOpen", "LateClosed", "EarlyClosed"]);
}

#[test]
fn window_keeps_last_two_sessions() {
    let wd = WorkerDay {
        worker: worker(1, "W", "1"),
        entries: vec![
            entry(1, 1, ts(7, 0), Some(ts(8, 0))),
            entry(2, 1, ts(9, 0), Some(ts(10, 0))),
            entry(3, 1, ts(11, 0), None),
        ],
    };
    let view = compose_live_view(vec![wd]);
    let block = &view.in_progress[0];
    assert_eq!(block.rows.len(), 2);
    // the earliest session fell out of the window
    assert_eq!(block.rows[0].clock_in, "09:00:00");
    assert_eq!(block.rows[0].clock_out, "10:00:00");
    assert_eq!(block.rows[0].status, RowStatus::Completed);
    assert!(block.rows[0].show_name);
    assert_eq!(block.rows[0].name, "W");
    assert_eq!(block.rows[1].clock_in, "11:00:00");
    assert_eq!(block.rows[1].clock_out, "En Progreso");
    assert_eq!(block.rows[1].status, RowStatus::Ongoing);
    assert!(!block.rows[1].show_name);
    assert_eq!(block.rows[1].name, "");
    assert_eq!(block.rows[1].barcode, "1");
}

#[test]
fn worker_without_events_gets_placeholder() {
    let wd = WorkerDay {
        worker: worker(1, "Idle", "9"),
        entries: vec![],
    };
    let view = compose_live_view(vec![wd]);
    assert_eq!(view.in_progress.len(), 0);
    assert_eq!(view.not_in_progress.len(), 1);
    let block = &view.not_in_progress[0];
    assert_eq!(block.rows.len(), 1);
    assert_eq!(block.rows[0].clock_in, "");
    assert_eq!(block.rows[0].clock_out, "");
    assert_eq!(block.rows[0].status, RowStatus::Placeholder);
    assert!(block.rows[0].show_name);
    assert_eq!(block.rows[0].name, "Idle");
}
