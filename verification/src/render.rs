//! The report renderers: day-groups into HTML and CSV documents with an
//! exact layout. Each renderer's contract equates its output with a
//! specification-level rendering of the same data, so the layout rules —
//! row-span day cells, alternating day classes, weekend styling, escaping,
//! the no-data row, the open-session footnote — are all pinned.

use vstd::prelude::*;
use crate::aggregate::{group_rows_nonneg, DayGroup, WorkerRows};
use crate::dates::{month_day_label, month_day_label_spec};
use crate::numfmt::{dec_str, duration_label, format_duration, u64_to_string};
use crate::text::{escape_html, escaped};

verus! {

/// The CSS class of a day's rows: alternating by day index, with the weekend
/// marker class appended on Sundays.
pub open spec fn day_class(idx: int, weekend: bool) -> Seq<char> {
    (if idx % 2 == 0 {
        "day-even"@
    } else {
        "day-odd"@
    }) + (if weekend {
        " weekend"@
    } else {
        Seq::<char>::empty()
    })
}

/// The date cell of a day: spans all the day's rows.
pub open spec fn day_cell(g: DayGroup) -> Seq<char> {
    "<td rowspan=\""@ + dec_str(g.rows@.len() as nat) + "\"><strong>"@ + month_day_label_spec(
        g.date,
    ) + "</strong><br/><small>"@ + g.weekday_name@ + "</small></td>\n"@
}

/// One HTML table row; the first row of a day carries the date cell.
pub open spec fn row_html(g: DayGroup, idx: int, j: int) -> Seq<char> {
    "<tr class=\""@ + day_class(idx, g.is_weekend) + "\">"@ + (if j == 0 {
        day_cell(g)
    } else {
        Seq::<char>::empty()
    }) + "<td>"@ + g.rows@[j].clock_in@ + "</td><td>"@ + g.rows@[j].clock_out@ + "</td><td>"@
        + g.rows@[j].duration_label@ + "</td></tr>\n"@
}

pub open spec fn rows_html_upto(g: DayGroup, idx: int, n: int) -> Seq<char>
    decreases n,
{
    if n <= 0 {
        Seq::<char>::empty()
    } else {
        rows_html_upto(g, idx, n - 1) + row_html(g, idx, n - 1)
    }
}

/// All rows of one day.
pub open spec fn group_html(g: DayGroup, idx: int) -> Seq<char> {
    rows_html_upto(g, idx, g.rows@.len() as int)
}

pub open spec fn groups_html_upto(gs: Seq<DayGroup>, n: int) -> Seq<char>
    decreases n,
{
    if n <= 0 {
        Seq::<char>::empty()
    } else {
        groups_html_upto(gs, n - 1) + group_html(gs[n - 1], n - 1)
    }
}

/// The report table: all day rows, or the explicit no-data row.
pub open spec fn table_html(gs: Seq<DayGroup>) -> Seq<char> {
    "<table><thead><tr><th>Date</th><th>Clock In</th><th>Clock Out</th><th>Duration (HH:MM)</th></tr></thead><tbody>"@
        + (if gs.len() == 0 {
        "<tr><td colspan=\"4\">No recorded sessions for this month.</td></tr>"@
    } else {
        groups_html_upto(gs, gs.len() as int)
    }) + "</tbody></table>"@
}

/// The total line under the table.
pub open spec fn total_para(total: int) -> Seq<char> {
    "<p><strong>Total:</strong> "@ + duration_label(total as nat) + " ("@ + dec_str(total as nat)
        + " minutes)</p>\n"@
}

/// The footnote explaining the open-session marker, present only when the
/// range holds an open session.
pub open spec fn footnote_html(open: bool) -> Seq<char> {
    if open {
        "<p>* Entries marked with an asterisk do not have a recorded clock out; the current time was used to compute the duration.</p>"@
    } else {
        Seq::<char>::empty()
    }
}

/// The whole single-worker HTML document. User-supplied text is escaped
/// wherever it is embedded.
pub open spec fn html_report_spec(
    name: Seq<char>,
    month: Seq<char>,
    gs: Seq<DayGroup>,
    total: int,
    open: bool,
) -> Seq<char> {
    "<!DOCTYPE html><html><head><meta charset=\"utf-8\"><title>Timesheet "@ + escaped(name) + " "@
        + month
        + "</title><style>body{font-family:Arial,sans-serif;padding:20px}h1{margin-bottom:0}table{border-collapse:collapse;width:100%;margin-top:16px}th,td{border:1px solid #555;padding:6px;text-align:center}th{background-color:#eee}table tbody tr.day-even td{background-color:#f7f7f7}table tbody tr.day-odd td{background-color:#ffffff}table tbody tr.weekend td{color:#e33d3d}table tbody tr td:first-child{font-weight:600}</style></head><body>\n"@
        + "<h1>"@ + escaped(name) + "</h1><h2>Month: "@ + month + "</h2>\n"@ + table_html(gs)
        + total_para(total) + footnote_html(open) + "</body></html>"@
}

/// One CSV line; the date and weekday columns show only on a day's first row.
pub open spec fn csv_row(g: DayGroup, j: int) -> Seq<char> {
    (if j == 0 {
        month_day_label_spec(g.date)
    } else {
        Seq::<char>::empty()
    }) + ","@ + (if j == 0 {
        g.weekday_name@
    } else {
        Seq::<char>::empty()
    }) + ","@ + g.rows@[j].clock_in@ + ","@ + g.rows@[j].clock_out@ + ","@ + dec_str(
        g.rows@[j].duration_minutes as nat,
    ) + ","@ + g.rows@[j].duration_label@ + "\n"@
}

pub open spec fn csv_rows_upto(g: DayGroup, n: int) -> Seq<char>
    decreases n,
{
    if n <= 0 {
        Seq::<char>::empty()
    } else {
        csv_rows_upto(g, n - 1) + csv_row(g, n - 1)
    }
}

pub open spec fn csv_group(g: DayGroup) -> Seq<char> {
    csv_rows_upto(g, g.rows@.len() as int)
}

pub open spec fn csv_groups_upto(gs: Seq<DayGroup>, n: int) -> Seq<char>
    decreases n,
{
    if n <= 0 {
        Seq::<char>::empty()
    } else {
        csv_groups_upto(gs, n - 1) + csv_group(gs[n - 1])
    }
}

/// The whole CSV document: two metadata lines, the fixed header, the rows or
/// the no-data line, and the trailing total line.
pub open spec fn csv_report_spec(
    name: Seq<char>,
    month: Seq<char>,
    gs: Seq<DayGroup>,
    total: int,
) -> Seq<char> {
    "Worker,"@ + name + "\n"@ + "Month,"@ + month + "\n"@
        + "Date,Day,Clock In,Clock Out,Duration Minutes,Duration HH:MM\n"@ + (if gs.len() == 0 {
        "-, -, -, -, 0, 00:00\n"@
    } else {
        csv_groups_upto(gs, gs.len() as int)
    }) + "Total,,,"@ + dec_str(total as nat) + ","@ + duration_label(total as nat) + "\n"@
}

/// One worker's section of the merged document.
pub open spec fn merged_section(
    name: Seq<char>,
    gs: Seq<DayGroup>,
    total: int,
    open: bool,
) -> Seq<char> {
    "<h2>"@ + escaped(name) + "</h2>\n"@ + table_html(gs) + total_para(total) + footnote_html(open)
}

/// The concatenated worker sections, a page-break marker before every worker
/// but the first.
pub open spec fn merged_sections_upto(
    names: Seq<Seq<char>>,
    aggs: Seq<WorkerRows>,
    n: int,
) -> Seq<char>
    decreases n,
{
    if n <= 0 {
        Seq::<char>::empty()
    } else {
        merged_sections_upto(names, aggs, n - 1) + (if n - 1 > 0 {
            "<div class=\"page-break\"></div>"@
        } else {
            Seq::<char>::empty()
        }) + merged_section(
            names[n - 1],
            aggs[n - 1].day_groups@,
            aggs[n - 1].total_minutes as int,
            aggs[n - 1].has_open_sessions,
        )
    }
}

/// The merged all-workers HTML document.
pub open spec fn merged_report_spec(
    month: Seq<char>,
    names: Seq<Seq<char>>,
    aggs: Seq<WorkerRows>,
) -> Seq<char> {
    "<!DOCTYPE html><html><head><meta charset=\"utf-8\"><title>All Workers Timesheet "@ + month
        + "</title><style>@media print { .page-break { page-break-before: always; } } body{font-family:Arial,sans-serif;padding:20px}h1{margin-bottom:0}h2{margin-top:40px;margin-bottom:10px;padding-top:20px;border-top:2px solid #333}table{border-collapse:collapse;width:100%;margin-top:16px}th,td{border:1px solid #555;padding:6px;text-align:center}th{background-color:#eee}table tbody tr.day-even td{background-color:#f7f7f7}table tbody tr.day-odd td{background-color:#ffffff}table tbody tr.weekend td{color:#e33d3d}table tbody tr td:first-child{font-weight:600}</style></head><body>\n"@
        + "<h1>All Workers Timesheet</h1><h2>Month: "@ + month + "</h2>\n"@ + merged_sections_upto(
        names,
        aggs,
        aggs.len() as int,
    ) + "</body></html>"@
}

#[verifier::rlimit(60)]
fn append_group_html(h: &mut String, g: &DayGroup, idx: usize)
    ensures
        final (h)@ == old(h)@ + group_html(*g, idx as int),
{
    let n = g.rows.len();
    let mut j: usize = 0;
    while j < n
        invariant
            n == g.rows@.len(),
            j <= n,
            h@ == old(h)@ + rows_html_upto(*g, idx as int, j as int),
        decreases n - j,
    {
        let ghost pre = h@;
        h.append("<tr class=\"");
        if idx % 2 == 0 {
            h.append("day-even");
        } else {
            h.append("day-odd");
        }
        if g.is_weekend {
            h.append(" weekend");
        }
        h.append("\">");
        if j == 0 {
            h.append("<td rowspan=\"");
            let cnt = u64_to_string(n as u64);
            h.append(cnt.as_str());
            h.append("\"><strong>");
            let md = month_day_label(g.date);
            h.append(md.as_str());
            h.append("</strong><br/><small>");
            h.append(g.weekday_name.as_str());
            h.append("</small></td>\n");
        }
        h.append("<td>");
        h.append(g.rows[j].clock_in.as_str());
        h.append("</td><td>");
        h.append(g.rows[j].clock_out.as_str());
        h.append("</td><td>");
        h.append(g.rows[j].duration_label.as_str());
        h.append("</td></tr>\n");
        proof {
            assert(h@ =~= pre + row_html(*g, idx as int, j as int));
            assert(h@ =~= old(h)@ + rows_html_upto(*g, idx as int, j + 1));
        }
        j = j + 1;
    }
}

fn append_table_html(h: &mut String, gs: &Vec<DayGroup>)
    ensures
        final (h)@ == old(h)@ + table_html(gs@),
{
    h.append(
        "<table><thead><tr><th>Date</th><th>Clock In</th><th>Clock Out</th><th>Duration (HH:MM)</th></tr></thead><tbody>",
    );
    let ghost head = old(h)@
        + "<table><thead><tr><th>Date</th><th>Clock In</th><th>Clock Out</th><th>Duration (HH:MM)</th></tr></thead><tbody>"@;
    if gs.len() == 0 {
        h.append("<tr><td colspan=\"4\">No recorded sessions for this month.</td></tr>");
    } else {
        let mut i: usize = 0;
        while i < gs.len()
            invariant
                i <= gs@.len(),
                h@ == head + groups_html_upto(gs@, i as int),
            decreases gs@.len() - i,
        {
            append_group_html(h, &gs[i], i);
            proof {
                assert(h@ =~= head + groups_html_upto(gs@, i + 1));
            }
            i = i + 1;
        }
    }
    h.append("</tbody></table>");
    proof {
        assert(h@ =~= old(h)@ + table_html(gs@));
    }
}

fn append_total_para(h: &mut String, total: i64)
    requires
        0 <= total,
    ensures
        final (h)@ == old(h)@ + total_para(total as int),
{
    h.append("<p><strong>Total:</strong> ");
    let d = format_duration(total);
    h.append(d.as_str());
    h.append(" (");
    let m = u64_to_string(total as u64);
    h.append(m.as_str());
    h.append(" minutes)</p>\n");
    proof {
        assert(h@ =~= old(h)@ + total_para(total as int));
    }
}

/// Render one worker's monthly report as a full HTML document.
pub fn render_html_report(
    worker_name: &str,
    month: &str,
    day_groups: &Vec<DayGroup>,
    total_minutes: i64,
    has_open_sessions: bool,
) -> (r: String)
    requires
        0 <= total_minutes,
    ensures
        r@ == html_report_spec(
            worker_name@,
            month@,
            day_groups@,
            total_minutes as int,
            has_open_sessions,
        ),
{
    let mut h = String::new();
    h.append("<!DOCTYPE html><html><head><meta charset=\"utf-8\"><title>Timesheet ");
    let en = escape_html(worker_name);
    h.append(en.as_str());
    h.append(" ");
    h.append(month);
    h.append(
        "</title><style>body{font-family:Arial,sans-serif;padding:20px}h1{margin-bottom:0}table{border-collapse:collapse;width:100%;margin-top:16px}th,td{border:1px solid #555;padding:6px;text-align:center}th{background-color:#eee}table tbody tr.day-even td{background-color:#f7f7f7}table tbody tr.day-odd td{background-color:#ffffff}table tbody tr.weekend td{color:#e33d3d}table tbody tr td:first-child{font-weight:600}</style></head><body>\n",
    );
    h.append("<h1>");
    h.append(en.as_str());
    h.append("</h1><h2>Month: ");
    h.append(month);
    h.append("</h2>\n");
    append_table_html(&mut h, day_groups);
    append_total_para(&mut h, total_minutes);
    if has_open_sessions {
        h.append(
            "<p>* Entries marked with an asterisk do not have a recorded clock out; the current time was used to compute the duration.</p>",
        );
    }
    h.append("</body></html>");
    proof {
        assert(h@ =~= html_report_spec(
            worker_name@,
            month@,
            day_groups@,
            total_minutes as int,
            has_open_sessions,
        ));
    }
    h
}

fn append_csv_group(h: &mut String, g: &DayGroup)
    requires
        group_rows_nonneg(*g),
    ensures
        final (h)@ == old(h)@ + csv_group(*g),
{
    let n = g.rows.len();
    let mut j: usize = 0;
    while j < n
        invariant
            n == g.rows@.len(),
            j <= n,
            group_rows_nonneg(*g),
            h@ == old(h)@ + csv_rows_upto(*g, j as int),
        decreases n - j,
    {
        let ghost pre = h@;
        if j == 0 {
            let md = month_day_label(g.date);
            h.append(md.as_str());
            h.append(",");
            h.append(g.weekday_name.as_str());
        } else {
            h.append(",");
        }
        h.append(",");
        h.append(g.rows[j].clock_in.as_str());
        h.append(",");
        h.append(g.rows[j].clock_out.as_str());
        h.append(",");
        assert(0 <= g.rows@[j as int].duration_minutes);
        let m = u64_to_string(g.rows[j].duration_minutes as u64);
        h.append(m.as_str());
        h.append(",");
        h.append(g.rows[j].duration_label.as_str());
        h.append("\n");
        proof {
            assert(h@ =~= pre + csv_row(*g, j as int));
            assert(h@ =~= old(h)@ + csv_rows_upto(*g, j + 1));
        }
        j = j + 1;
    }
}

/// Render one worker's monthly report as a CSV document.
pub fn render_csv_report(
    worker_name: &str,
    month: &str,
    day_groups: &Vec<DayGroup>,
    total_minutes: i64,
) -> (r: String)
    requires
        0 <= total_minutes,
        forall|i: int| 0 <= i < day_groups@.len() ==> group_rows_nonneg(#[trigger] day_groups@[i]),
    ensures
        r@ == csv_report_spec(worker_name@, month@, day_groups@, total_minutes as int),
{
    let mut h = String::new();
    h.append("Worker,");
    h.append(worker_name);
    h.append("\n");
    h.append("Month,");
    h.append(month);
    h.append("\n");
    h.append("Date,Day,Clock In,Clock Out,Duration Minutes,Duration HH:MM\n");
    let ghost head = h@;
    if day_groups.len() == 0 {
        h.append("-, -, -, -, 0, 00:00\n");
    } else {
        let mut i: usize = 0;
        while i < day_groups.len()
            invariant
                i <= day_groups@.len(),
                forall|t: int|
                    0 <= t < day_groups@.len() ==> group_rows_nonneg(#[trigger] day_groups@[t]),
                h@ == head + csv_groups_upto(day_groups@, i as int),
            decreases day_groups@.len() - i,
        {
            append_csv_group(&mut h, &day_groups[i]);
            proof {
                assert(h@ =~= head + csv_groups_upto(day_groups@, i + 1));
            }
            i = i + 1;
        }
    }
    h.append("Total,,,");
    let m = u64_to_string(total_minutes as u64);
    h.append(m.as_str());
    h.append(",");
    let d = format_duration(total_minutes);
    h.append(d.as_str());
    h.append("\n");
    proof {
        assert(h@ =~= csv_report_spec(worker_name@, month@, day_groups@, total_minutes as int));
    }
    h
}

/// Render the merged all-workers HTML document: one section per worker, in
/// the given order, a page break before every worker but the first.
pub fn render_merged_html_report(month: &str, names: &Vec<String>, aggs: &Vec<WorkerRows>) -> (r:
    String)
    requires
        names@.len() == aggs@.len(),
        forall|i: int| 0 <= i < aggs@.len() ==> 0 <= (#[trigger] aggs@[i]).total_minutes,
    ensures
        r@ == merged_report_spec(month@, names@.map_values(|s: String| s@), aggs@),
{
    let ghost nviews = names@.map_values(|s: String| s@);
    let mut h = String::new();
    h.append("<!DOCTYPE html><html><head><meta charset=\"utf-8\"><title>All Workers Timesheet ");
    h.append(month);
    h.append(
        "</title><style>@media print { .page-break { page-break-before: always; } } body{font-family:Arial,sans-serif;padding:20px}h1{margin-bottom:0}h2{margin-top:40px;margin-bottom:10px;padding-top:20px;border-top:2px solid #333}table{border-collapse:collapse;width:100%;margin-top:16px}th,td{border:1px solid #555;padding:6px;text-align:center}th{background-color:#eee}table tbody tr.day-even td{background-color:#f7f7f7}table tbody tr.day-odd td{background-color:#ffffff}table tbody tr.weekend td{color:#e33d3d}table tbody tr td:first-child{font-weight:600}</style></head><body>\n",
    );
    h.append("<h1>All Workers Timesheet</h1><h2>Month: ");
    h.append(month);
    h.append("</h2>\n");
    let ghost head = h@;
    let mut i: usize = 0;
    while i < aggs.len()
        invariant
            i <= aggs@.len(),
            names@.len() == aggs@.len(),
            nviews == names@.map_values(|s: String| s@),
            forall|t: int| 0 <= t < aggs@.len() ==> 0 <= (#[trigger] aggs@[t]).total_minutes,
            h@ == head + merged_sections_upto(nviews, aggs@, i as int),
        decreases aggs@.len() - i,
    {
        let ghost pre = h@;
        if i > 0 {
            h.append("<div class=\"page-break\"></div>");
        }
        h.append("<h2>");
        let en = escape_html(names[i].as_str());
        h.append(en.as_str());
        h.append("</h2>\n");
        append_table_html(&mut h, &aggs[i].day_groups);
        append_total_para(&mut h, aggs[i].total_minutes);
        if aggs[i].has_open_sessions {
            h.append(
                "<p>* Entries marked with an asterisk do not have a recorded clock out; the current time was used to compute the duration.</p>",
            );
        }
        proof {
            assert(nviews[i as int] == names@[i as int]@);
            assert(h@ =~= pre + (if i > 0 {
                "<div class=\"page-break\"></div>"@
            } else {
                Seq::<char>::empty()
            }) + merged_section(
                nviews[i as int],
                aggs@[i as int].day_groups@,
                aggs@[i as int].total_minutes as int,
                aggs@[i as int].has_open_sessions,
            ));
            assert(h@ =~= head + merged_sections_upto(nviews, aggs@, i + 1));
        }
        i = i + 1;
    }
    h.append("</body></html>");
    proof {
        assert(h@ =~= merged_report_spec(month@, nviews, aggs@));
    }
    h
}

} // verus!
