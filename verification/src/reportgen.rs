//! One month's report run: aggregate every worker, render the per-worker
//! HTML and CSV documents and the merged document, and name each file. The
//! caller writes the returned files to disk.

use vstd::prelude::*;
use crate::aggregate::{aggregate_post, build_rows, WorkerRows};
use crate::clock::valid_ts;
use crate::dates::{month_label, month_label_spec, Date};
use crate::model::{entries_ts_valid, TimesheetEntry, Worker};
use crate::render::{csv_report_spec, html_report_spec, merged_report_spec, render_csv_report,
    render_html_report, render_merged_html_report};
use crate::text::{sanitize_filename, sanitized};

verus! {

/// One worker with their events of the report month.
pub struct WorkerMonth {
    pub worker: Worker,
    pub entries: Vec<TimesheetEntry>,
}

/// One file to write: its name under the output directory, and its contents.
pub struct ReportFile {
    pub name: String,
    pub contents: String,
}

/// Everything one report run produces: the files in order (per worker the
/// HTML then the CSV, the merged document last) and each worker's aggregate.
pub struct ReportBundle {
    pub files: Vec<ReportFile>,
    pub aggregates: Vec<WorkerRows>,
}

/// The file-name stem of a worker: the sanitized name, or the fixed fallback
/// for an empty name.
pub open spec fn name_stem(name: Seq<char>) -> Seq<char> {
    if name.len() == 0 {
        "worker"@
    } else {
        sanitized(name)
    }
}

/// `{month}_{stem}{ext}`.
pub open spec fn report_file_name(month: Seq<char>, stem: Seq<char>, ext: Seq<char>) -> Seq<char> {
    month + "_"@ + stem + ext
}

/// Everything `generate_monthly_reports` promises about its result.
pub open spec fn bundle_post(
    data: Seq<WorkerMonth>,
    month_start: Date,
    selected: Date,
    now: int,
    r: ReportBundle,
) -> bool {
    let ml = month_label_spec(month_start.year as int, month_start.month as int);
    &&& r.aggregates@.len() == data.len()
    &&& forall|i: int|
        0 <= i < data.len() ==> aggregate_post(
            data[i].entries@,
            month_start,
            selected,
            now,
            #[trigger] r.aggregates@[i],
        )
    &&& r.files@.len() == 2 * data.len() + 1
    &&& forall|i: int|
        0 <= i < data.len() ==> (#[trigger] r.files@[2 * i]).name@ == report_file_name(
            ml,
            name_stem(data[i].worker.name@),
            ".html"@,
        )
    &&& forall|i: int|
        0 <= i < data.len() ==> (#[trigger] r.files@[2 * i]).contents@ == html_report_spec(
            data[i].worker.name@,
            ml,
            r.aggregates@[i].day_groups@,
            r.aggregates@[i].total_minutes as int,
            r.aggregates@[i].has_open_sessions,
        )
    &&& forall|i: int|
        0 <= i < data.len() ==> (#[trigger] r.files@[2 * i + 1]).name@ == report_file_name(
            ml,
            name_stem(data[i].worker.name@),
            ".csv"@,
        )
    &&& forall|i: int|
        0 <= i < data.len() ==> (#[trigger] r.files@[2 * i + 1]).contents@ == csv_report_spec(
            data[i].worker.name@,
            ml,
            r.aggregates@[i].day_groups@,
            r.aggregates@[i].total_minutes as int,
        )
    &&& r.files@[2 * data.len() as int].name@ == report_file_name(ml, "all_workers"@, ".html"@)
    &&& r.files@[2 * data.len() as int].contents@ == merged_report_spec(
        ml,
        data.map_values(|wm: WorkerMonth| wm.worker.name@),
        r.aggregates@,
    )
}

fn make_file_name(month: &String, stem: &String, ext: &str) -> (r: String)
    ensures
        r@ == report_file_name(month@, stem@, ext@),
{
    let mut s = String::new();
    s.append(month.as_str());
    s.append("_");
    s.append(stem.as_str());
    s.append(ext);
    proof {
        assert(s@ =~= report_file_name(month@, stem@, ext@));
    }
    s
}

/// Build every worker's monthly report and the merged document, in the order
/// the workers were handed in.
pub fn generate_monthly_reports(
    data: &Vec<WorkerMonth>,
    month_start: Date,
    selected: Date,
    now: i64,
) -> (r: ReportBundle)
    requires
        month_start.valid(),
        selected.valid(),
        valid_ts(now as int),
        forall|i: int| 0 <= i < data@.len() ==> entries_ts_valid((#[trigger] data@[i]).entries@),
        forall|i: int| 0 <= i < data@.len() ==> (#[trigger] data@[i]).entries@.len() <= 100000,
        data@.len() <= 1000000,
    ensures
        bundle_post(data@, month_start, selected, now as int, r),
{
    let ghost ml_spec = month_label_spec(month_start.year as int, month_start.month as int);
    let ml = month_label(month_start.year, month_start.month);
    let mut files: Vec<ReportFile> = Vec::new();
    let mut aggs: Vec<WorkerRows> = Vec::new();
    let mut names: Vec<String> = Vec::new();
    let mut i: usize = 0;
    while i < data.len()
        invariant
            month_start.valid(),
            selected.valid(),
            valid_ts(now as int),
            forall|t: int| 0 <= t < data@.len() ==> entries_ts_valid((#[trigger] data@[t]).entries@),
            forall|t: int| 0 <= t < data@.len() ==> (#[trigger] data@[t]).entries@.len() <= 100000,
            data@.len() <= 1000000,
            ml@ == ml_spec,
            i <= data@.len(),
            aggs@.len() == i,
            names@.len() == i,
            forall|t: int|
                0 <= t < i ==> aggregate_post(
                    data@[t].entries@,
                    month_start,
                    selected,
                    now as int,
                    #[trigger] aggs@[t],
                ),
            forall|t: int| 0 <= t < i ==> (#[trigger] names@[t])@ == data@[t].worker.name@,
            files@.len() == 2 * i,
            forall|t: int|
                0 <= t < i ==> (#[trigger] files@[2 * t]).name@ == report_file_name(
                    ml_spec,
                    name_stem(data@[t].worker.name@),
                    ".html"@,
                ),
            forall|t: int|
                0 <= t < i ==> (#[trigger] files@[2 * t]).contents@ == html_report_spec(
                    data@[t].worker.name@,
                    ml_spec,
                    aggs@[t].day_groups@,
                    aggs@[t].total_minutes as int,
                    aggs@[t].has_open_sessions,
                ),
            forall|t: int|
                0 <= t < i ==> (#[trigger] files@[2 * t + 1]).name@ == report_file_name(
                    ml_spec,
                    name_stem(data@[t].worker.name@),
                    ".csv"@,
                ),
            forall|t: int|
                0 <= t < i ==> (#[trigger] files@[2 * t + 1]).contents@ == csv_report_spec(
                    data@[t].worker.name@,
                    ml_spec,
                    aggs@[t].day_groups@,
                    aggs@[t].total_minutes as int,
                ),
        decreases data@.len() - i,
    {
        let agg = build_rows(&data[i].entries, month_start, selected, now);
        let stem = sanitize_filename(data[i].worker.name.as_str());
        proof {
            assert(stem@ == name_stem(data@[i as int].worker.name@));
        }
        let html = render_html_report(
            data[i].worker.name.as_str(),
            ml.as_str(),
            &agg.day_groups,
            agg.total_minutes,
            agg.has_open_sessions,
        );
        proof {
            assert forall|t: int| 0 <= t < agg.day_groups@.len() implies
                crate::aggregate::group_rows_nonneg(#[trigger] agg.day_groups@[t]) by {}
        }
        let csv = render_csv_report(
            data[i].worker.name.as_str(),
            ml.as_str(),
            &agg.day_groups,
            agg.total_minutes,
        );
        let fname_html = make_file_name(&ml, &stem, ".html");
        let fname_csv = make_file_name(&ml, &stem, ".csv");
        files.push(ReportFile { name: fname_html, contents: html });
        files.push(ReportFile { name: fname_csv, contents: csv });
        aggs.push(agg);
        names.push(data[i].worker.name.clone());
        i = i + 1;
    }
    proof {
        assert forall|t: int| 0 <= t < aggs@.len() implies 0 <= (#[trigger] aggs@[t]).total_minutes
            by {}
    }
    let merged = render_merged_html_report(ml.as_str(), &names, &aggs);
    proof {
        assert(names@.map_values(|s: String| s@) =~= data@.map_values(
            |wm: WorkerMonth| wm.worker.name@,
        ));
    }
    let mut stem_all = String::new();
    stem_all.append("all_workers");
    proof {
        assert(stem_all@ =~= "all_workers"@);
    }
    let fname_all = make_file_name(&ml, &stem_all, ".html");
    files.push(ReportFile { name: fname_all, contents: merged });
    ReportBundle { files, aggregates: aggs }
}

} // verus!
