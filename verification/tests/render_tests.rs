use chrono::TimeZone;
use chrono_tz::America::Santiago;
use timesheet::aggregate::build_rows;
use timesheet::dates::Date;
use timesheet::model::{TimesheetEntry, Worker};
use timesheet::render::{render_csv_report, render_html_report, render_merged_html_report};
use timesheet::reportgen::{generate_monthly_reports, WorkerMonth};

fn ts(y: i32, mo: u32, d: u32, h: u32, mi: u32) -> i64 {
    Santiago
        .with_ymd_and_hms(y, mo, d, h, mi, 0)
        .unwrap()
        .timestamp()
}

#[test]
fn empty_html_report_has_no_sessions_marker() {
    let groups = Vec::new();
    let html = render_html_report("Nobody", "2024-03", &groups, 0, false);
    assert!(html.starts_with("<!DOCTYPE html>"));
    assert!(html.ends_with("</body></html>"));
    assert!(html.contains("No recorded sessions for this month."));
    assert!(html.contains("<p><strong>Total:</strong> 00:00 (0 minutes)</p>"));
    assert!(!html.contains("asterisk"));
}

#[test]
fn empty_csv_report_has_placeholder_line() {
    let groups = Vec::new();
    let csv = render_csv_report("Nobody", "2024-03", &groups, 0);
    assert!(csv.starts_with("Worker,Nobody\nMonth,2024-03\n"));
    assert!(csv.contains("Date,Day,Clock In,Clock Out,Duration Minutes,Duration HH:MM\n"));
    assert!(csv.contains("-, -, -, -, 0, 00:00\n"));
    assert!(csv.ends_with("Total,,,0,00:00\n"));
}

#[test]
fn merged_report_without_workers_is_valid() {
    let names: Vec<String> = Vec::new();
    let aggs = Vec::new();
    let html = render_merged_html_report("2024-03", &names, &aggs);
    assert!(html.starts_with("<!DOCTYPE html>"));
    assert!(html.contains("<h1>All Workers Timesheet</h1><h2>Month: 2024-03</h2>"));
    assert!(html.ends_with("</body></html>"));
    assert!(!html.contains("page-break\"></div>"));
}

#[test]
fn worker_names_are_escaped_in_html() {
    let groups = Vec::new();
    let html = render_html_report("Eve <script>&\"x\"", "2024-03", &groups, 0, false);
    assert!(html.contains("<h1>Eve &lt;script&gt;&amp;&quot;x&quot;</h1>"));
    assert!(html.contains("<title>Timesheet Eve &lt;script&gt;&amp;&quot;x&quot; 2024-03</title>"));
    assert!(!html.contains("<script>"));
}

#[test]
fn html_report_rows_and_footnote() {
    let entries = vec![
        TimesheetEntry {
            id: 1,
            worker_id: 1,
            clock_in: ts(2024, 3, 5, 8, 0),
            clock_out: Some(ts(2024, 3, 5, 12, 0)),
        },
        TimesheetEntry {
            id: 2,
            worker_id: 1,
            clock_in: ts(2024, 3, 5, 13, 0),
            clock_out: None,
        },
    ];
    let start = Date { year: 2024, month: 3, day: 1 };
    let end = Date { year: 2024, month: 3, day: 5 };
    let agg = build_rows(&entries, start, end, ts(2024, 3, 5, 14, 0));
    let html = render_html_report(
        "Ana",
        "2024-03",
        &agg.day_groups,
        agg.total_minutes,
        agg.has_open_sessions,
    );
    // the day with two sessions spans both rows; classes alternate from day-even
    assert!(html.contains("<td rowspan=\"2\"><strong>03/05</strong><br/><small>martes</small></td>"));
    assert!(html.contains("<tr class=\"day-even\">"));
    assert!(html.contains("<tr class=\"day-odd\">"));
    // 2024-03-03 is a Sunday
    assert!(html.contains("<tr class=\"day-even weekend\">"));
    assert!(html.contains("<td>08:00:00</td><td>12:00:00</td><td>04:00</td></tr>"));
    assert!(html.contains("<td>13:00:00</td><td>14:00:00*</td><td>01:00</td></tr>"));
    assert!(html.contains("asterisk"));
    assert!(html.contains("<p><strong>Total:</strong> 05:00 (300 minutes)</p>"));
}

#[test]
fn csv_report_rows_and_total() {
    let entries = vec![TimesheetEntry {
        id: 1,
        worker_id: 1,
        clock_in: ts(2024, 3, 5, 8, 0),
        clock_out: Some(ts(2024, 3, 5, 12, 30)),
    }];
    let start = Date { year: 2024, month: 3, day: 5 };
    let end = Date { year: 2024, month: 3, day: 5 };
    let agg = build_rows(&entries, start, end, ts(2024, 3, 6, 9, 0));
    let csv = render_csv_report("Ana", "2024-03", &agg.day_groups, agg.total_minutes);
    assert!(csv.contains("03/05,martes,08:00:00,12:30:00,270,04:30\n"));
    assert!(csv.ends_with("Total,,,270,04:30\n"));
}

#[test]
fn generate_reports_names_and_merged_file() {
    let data = vec![
        WorkerMonth {
            worker: Worker {
                id: 1,
                name: "Ana L\u{f3}pez".to_string(),
                barcode: "1".to_string(),
                active: true,
            },
            entries: vec![TimesheetEntry {
                id: 1,
                worker_id: 1,
                clock_in: ts(2024, 3, 5, 8, 0),
                clock_out: Some(ts(2024, 3, 5, 9, 0)),
            }],
        },
        WorkerMonth {
            worker: Worker {
                id: 2,
                name: "Bo".to_string(),
                barcode: "2".to_string(),
                active: true,
            },
            entries: vec![],
        },
    ];
    let start = Date { year: 2024, month: 3, day: 1 };
    let end = Date { year: 2024, month: 3, day: 5 };
    let bundle = generate_monthly_reports(&data, start, end, ts(2024, 3, 6, 9, 0));
    assert_eq!(bundle.files.len(), 5);
    assert_eq!(bundle.files[0].name, "2024-03_Ana_L_pez.html");
    assert_eq!(bundle.files[1].name, "2024-03_Ana_L_pez.csv");
    assert_eq!(bundle.files[2].name, "2024-03_Bo.html");
    assert_eq!(bundle.files[3].name, "2024-03_Bo.csv");
    assert_eq!(bundle.files[4].name, "2024-03_all_workers.html");
    let merged = &bundle.files[4].contents;
    assert!(merged.contains("<h2>Ana L\u{f3}pez</h2>"));
    assert!(merged.contains("<h2>Bo</h2>"));
    // one page break: before the second worker only
    assert_eq!(merged.matches("<div class=\"page-break\"></div>").count(), 1);
    assert_eq!(bundle.aggregates.len(), 2);
    assert_eq!(bundle.aggregates[0].total_minutes, 60);
    assert_eq!(bundle.aggregates[1].total_minutes, 0);
}

#[test]
fn generate_reports_no_workers_still_writes_merged() {
    let data: Vec<WorkerMonth> = Vec::new();
    let start = Date { year: 2024, month: 3, day: 1 };
    let end = Date { year: 2024, month: 3, day: 31 };
    let bundle = generate_monthly_reports(&data, start, end, ts(2024, 3, 31, 9, 0));
    assert_eq!(bundle.files.len(), 1);
    assert_eq!(bundle.files[0].name, "2024-03_all_workers.html");
    assert!(bundle.files[0].contents.contains("All Workers Timesheet"));
}
