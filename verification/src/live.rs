//! The live dashboard: who is clocked in right now, who is not, most recent
//! activity first, each worker showing at most their last two sessions of the
//! day.

use vstd::prelude::*;
use crate::clock::local_hms_label_of;
use crate::model::{entries_ts_valid, entry_ts_valid, TimesheetEntry, Worker};
use crate::sorting::{lemma_stable_insert_at, lemma_stable_sort_sorted, stable_sort};
use crate::numfmt::hms_string;

verus! {

/// One worker with their events of the day, as the store hands them out,
/// ordered by event id.
pub struct WorkerDay {
    pub worker: Worker,
    pub entries: Vec<TimesheetEntry>,
}

/// What a live row shows in its clock-out column.
#[derive(Clone, Copy, PartialEq, Eq, Structural, Debug)]
pub enum RowStatus {
    /// The session has a recorded clock-out.
    Completed,
    /// The session is still open.
    Ongoing,
    /// The worker has no event today; the row is a filler.
    Placeholder,
}

/// One rendered line of the live view.
#[derive(Debug)]
pub struct LiveRow {
    pub name: String,
    pub barcode: String,
    pub clock_in: String,
    pub clock_out: String,
    pub status: RowStatus,
    pub show_name: bool,
}

/// The rows of one worker: the name shows only on the first.
#[derive(Debug)]
pub struct LiveBlock {
    pub rows: Vec<LiveRow>,
}

/// The composed live view: the two partitions, plus every worker in display
/// order for the other lists the dashboard shows.
pub struct LiveView {
    pub in_progress: Vec<LiveBlock>,
    pub not_in_progress: Vec<LiveBlock>,
    pub workers_in_order: Vec<Worker>,
}

/// A worker is in progress when some event of today has no clock-out.
pub open spec fn has_open(s: Seq<TimesheetEntry>) -> bool {
    exists|i: int| 0 <= i < s.len() && (#[trigger] s[i]).clock_out is None
}

/// The clock-in instant of the first open event.
pub open spec fn first_open_clock_in(s: Seq<TimesheetEntry>) -> int
    decreases s.len(),
{
    if s.len() == 0 {
        0
    } else if s.first().clock_out is None {
        s.first().clock_in as int
    } else {
        first_open_clock_in(s.drop_first())
    }
}

/// The latest clock-out instant, or the epoch when none is recorded.
pub open spec fn max_clock_out(s: Seq<TimesheetEntry>) -> int
    decreases s.len(),
{
    if s.len() == 0 {
        0
    } else {
        let rest = max_clock_out(s.drop_last());
        match s.last().clock_out {
            Some(t) => if t as int > rest {
                t as int
            } else {
                rest
            },
            None => rest,
        }
    }
}

/// The instant a worker sorts by: the open session's clock-in while in
/// progress, else the most recent clock-out, else the epoch.
pub open spec fn sort_instant(s: Seq<TimesheetEntry>) -> int {
    if has_open(s) {
        first_open_clock_in(s)
    } else {
        max_clock_out(s)
    }
}

pub open spec fn wd_open(wd: WorkerDay) -> bool {
    has_open(wd.entries@)
}

pub open spec fn wd_time(wd: WorkerDay) -> int {
    sort_instant(wd.entries@)
}

/// Display order: in-progress before not-in-progress, then later instants
/// first; `a` may stand before `b` when `a`'s key is at least `b`'s.
pub open spec fn live_leq() -> spec_fn(WorkerDay, WorkerDay) -> bool {
    |a: WorkerDay, b: WorkerDay|
        (wd_open(a) && !wd_open(b)) || (wd_open(a) == wd_open(b) && wd_time(a) >= wd_time(b))
}

/// At most the last two events stay on screen.
pub open spec fn windowed(s: Seq<TimesheetEntry>) -> Seq<TimesheetEntry> {
    if s.len() > 2 {
        s.skip(s.len() - 2)
    } else {
        s
    }
}

/// How a rendered live row relates to its event.
pub open spec fn live_row_matches(r: LiveRow, w: Worker, e: TimesheetEntry, first: bool) -> bool {
    &&& r.name@ == if first {
        w.name@
    } else {
        Seq::<char>::empty()
    }
    &&& r.barcode@ == w.barcode@
    &&& r.show_name == first
    &&& r.clock_in@ == local_hms_label_of(e.clock_in as int)
    &&& match e.clock_out {
        Some(t) => r.clock_out@ == local_hms_label_of(t as int) && r.status == RowStatus::Completed,
        None => r.clock_out@ == "En Progreso"@ && r.status == RowStatus::Ongoing,
    }
}

/// The filler row of a worker without events today.
pub open spec fn placeholder_live_row(r: LiveRow, w: Worker) -> bool {
    &&& r.name@ == w.name@
    &&& r.barcode@ == w.barcode@
    &&& r.clock_in@ == Seq::<char>::empty()
    &&& r.clock_out@ == Seq::<char>::empty()
    &&& r.status == RowStatus::Placeholder
    &&& r.show_name == true
}

/// How a worker's block relates to their day: the windowed events in order,
/// or one filler row.
pub open spec fn block_matches(b: LiveBlock, wd: WorkerDay) -> bool {
    let win = windowed(wd.entries@);
    if wd.entries@.len() == 0 {
        b.rows@.len() == 1 && placeholder_live_row(b.rows@[0], wd.worker)
    } else {
        b.rows@.len() == win.len() && forall|j: int|
            0 <= j < win.len() ==> live_row_matches(#[trigger] b.rows@[j], wd.worker, win[j], j == 0)
    }
}

pub open spec fn workers_ts_valid(s: Seq<WorkerDay>) -> bool {
    forall|i: int| 0 <= i < s.len() ==> entries_ts_valid((#[trigger] s[i]).entries@)
}

/// Everything `compose_live_view` promises: workers sorted by the display
/// order, split into the two partitions, each worker rendered as a block.
pub open spec fn live_post(input: Seq<WorkerDay>, r: LiveView) -> bool {
    let sorted = stable_sort(input, live_leq());
    let opens = sorted.filter(|wd: WorkerDay| has_open(wd.entries@));
    let closed = sorted.filter(|wd: WorkerDay| !has_open(wd.entries@));
    &&& r.workers_in_order@.len() == sorted.len()
    &&& forall|i: int|
        0 <= i < sorted.len() ==> #[trigger] r.workers_in_order@[i] == sorted[i].worker
    &&& r.in_progress@.len() == opens.len()
    &&& forall|i: int|
        0 <= i < opens.len() ==> block_matches(#[trigger] r.in_progress@[i], opens[i])
    &&& r.not_in_progress@.len() == closed.len()
    &&& forall|i: int|
        0 <= i < closed.len() ==> block_matches(#[trigger] r.not_in_progress@[i], closed[i])
}

/// The display order is total and transitive, so the sorted run really is
/// ordered by it: in-progress workers first, later instants first within each
/// side.
pub proof fn lemma_live_order_sorted(input: Seq<WorkerDay>)
    ensures
        vstd::relations::sorted_by(stable_sort(input, live_leq()), live_leq()),
{
    assert forall|a: WorkerDay, b: WorkerDay| #[trigger] (live_leq())(a, b) || #[trigger] (
    live_leq())(b, a) by {}
    assert forall|a: WorkerDay, b: WorkerDay, c: WorkerDay| #[trigger] (live_leq())(a, b)
        && #[trigger] (live_leq())(b, c) implies (live_leq())(a, c) by {}
    lemma_stable_sort_sorted(input, live_leq());
}

fn has_open_x(entries: &Vec<TimesheetEntry>) -> (b: bool)
    ensures
        b == has_open(entries@),
{
    let mut i: usize = 0;
    while i < entries.len()
        invariant
            i <= entries@.len(),
            forall|t: int| 0 <= t < i ==> !((#[trigger] entries@[t]).clock_out is None),
        decreases entries@.len() - i,
    {
        if entries[i].clock_out.is_none() {
            return true;
        }
        i = i + 1;
    }
    false
}

fn first_open_clock_in_x(entries: &Vec<TimesheetEntry>) -> (t: i64)
    requires
        has_open(entries@),
    ensures
        t as int == first_open_clock_in(entries@),
{
    let mut i: usize = 0;
    proof {
        assert(entries@.skip(0) =~= entries@);
    }
    while i < entries.len()
        invariant
            i <= entries@.len(),
            has_open(entries@),
            forall|t2: int| 0 <= t2 < i ==> !((#[trigger] entries@[t2]).clock_out is None),
            first_open_clock_in(entries@) == first_open_clock_in(entries@.skip(i as int)),
        decreases entries@.len() - i,
    {
        proof {
            assert(entries@.skip(i as int).first() == entries@[i as int]);
            assert(entries@.skip(i as int).drop_first() =~= entries@.skip(i + 1));
        }
        if entries[i].clock_out.is_none() {
            return entries[i].clock_in;
        }
        i = i + 1;
    }
    proof {
        let w = choose|w: int| 0 <= w < entries@.len() && (#[trigger] entries@[w]).clock_out is None;
        assert(false);
    }
    0
}

fn max_clock_out_x(entries: &Vec<TimesheetEntry>) -> (t: i64)
    ensures
        t as int == max_clock_out(entries@),
{
    let mut acc: i64 = 0;
    let mut i: usize = 0;
    while i < entries.len()
        invariant
            i <= entries@.len(),
            acc as int == max_clock_out(entries@.take(i as int)),
        decreases entries@.len() - i,
    {
        proof {
            assert(entries@.take(i + 1).drop_last() =~= entries@.take(i as int));
            assert(entries@.take(i + 1).last() == entries@[i as int]);
        }
        match entries[i].clock_out {
            Some(t) => {
                if t > acc {
                    acc = t;
                }
            },
            None => {},
        }
        i = i + 1;
    }
    proof {
        assert(entries@.take(entries@.len() as int) =~= entries@);
    }
    acc
}

fn sort_instant_x(entries: &Vec<TimesheetEntry>) -> (t: i64)
    ensures
        t as int == sort_instant(entries@),
{
    if has_open_x(entries) {
        first_open_clock_in_x(entries)
    } else {
        max_clock_out_x(entries)
    }
}

/// Index at which a scan from the right stops: everything from the index on
/// orders strictly after the key `(xo, xt)`.
fn find_worker_pos(out: &Vec<WorkerDay>, xo: bool, xt: i64) -> (j: usize)
    ensures
        j <= out@.len(),
        forall|k: int|
            j <= k < out@.len() ==> ((!wd_open(#[trigger] out@[k]) && xo) || (wd_open(out@[k]) == xo
                && wd_time(out@[k]) < xt)),
        j > 0 ==> ((wd_open(out@[j - 1]) && !xo) || (wd_open(out@[j - 1]) == xo && wd_time(
            out@[j - 1],
        ) >= xt)),
{
    let mut j = out.len();
    while j > 0
        invariant
            j <= out@.len(),
            forall|k: int|
                j <= k < out@.len() ==> ((!wd_open(#[trigger] out@[k]) && xo) || (wd_open(out@[k])
                    == xo && wd_time(out@[k]) < xt)),
        decreases j,
    {
        let yo = has_open_x(&out[j - 1].entries);
        let yt = sort_instant_x(&out[j - 1].entries);
        if (yo && !xo) || (yo == xo && yt >= xt) {
            return j;
        }
        j = j - 1;
    }
    0
}

/// Stable sort of the workers by the display order.
fn sort_workers(v: Vec<WorkerDay>) -> (r: Vec<WorkerDay>)
    requires
        workers_ts_valid(v@),
    ensures
        r@ == stable_sort(v@, live_leq()),
        workers_ts_valid(r@),
{
    let ghost orig = v@;
    let mut v = v;
    let mut out: Vec<WorkerDay> = Vec::new();
    while v.len() > 0
        invariant
            v@.len() <= orig.len(),
            v@ =~= orig.skip(orig.len() - v@.len()),
            workers_ts_valid(orig),
            out@ == stable_sort(orig.take(orig.len() - v@.len()), live_leq()),
            workers_ts_valid(out@),
        decreases v@.len(),
    {
        let ghost k = orig.len() - v@.len();
        let x = v.remove(0);
        proof {
            assert(x == orig[k as int]);
            assert(v@ =~= orig.skip(k + 1));
            assert(entries_ts_valid(x.entries@));
        }
        let xo = has_open_x(&x.entries);
        let xt = sort_instant_x(&x.entries);
        let j = find_worker_pos(&out, xo, xt);
        proof {
            assert forall|t: int| j <= t < out@.len() implies !((live_leq())(
                #[trigger] out@[t],
                x,
            )) by {}
            lemma_stable_insert_at(out@, x, live_leq(), j as int);
        }
        let ghost pre = out@;
        out.insert(j, x);
        proof {
            assert(orig.take(k + 1).drop_last() =~= orig.take(k as int));
            assert(orig.take(k + 1).last() == orig[k as int]);
            assert(out@ == stable_sort(orig.take(k + 1), live_leq()));
            assert forall|t: int| 0 <= t < out@.len() implies entries_ts_valid(
                (#[trigger] out@[t]).entries@,
            ) by {
                if t < j {
                    assert(out@[t] == pre[t]);
                } else if t == j {
                    assert(out@[t] == x);
                } else {
                    assert(out@[t] == pre[t - 1]);
                }
            }
        }
    }
    proof {
        assert(orig.take(orig.len() as int) =~= orig);
    }
    out
}

/// Build one live row from an event.
fn live_row_x(w: &Worker, e: TimesheetEntry, first: bool) -> (r: LiveRow)
    requires
        entry_ts_valid(e),
    ensures
        live_row_matches(r, *w, e, first),
{
    let c = crate::clock::civil_in_chile(e.clock_in);
    let clock_in = hms_string(c.3, c.4, c.5);
    let name = if first {
        w.name.clone()
    } else {
        String::new()
    };
    match e.clock_out {
        Some(t) => {
            let co = crate::clock::civil_in_chile(t);
            LiveRow {
                name,
                barcode: w.barcode.clone(),
                clock_in,
                clock_out: hms_string(co.3, co.4, co.5),
                status: RowStatus::Completed,
                show_name: first,
            }
        },
        None => {
            let mut label = String::new();
            label.append("En Progreso");
            proof {
                assert(label@ =~= "En Progreso"@);
            }
            LiveRow {
                name,
                barcode: w.barcode.clone(),
                clock_in,
                clock_out: label,
                status: RowStatus::Ongoing,
                show_name: first,
            }
        },
    }
}

/// Build the block of one worker: at most the last two events, the name only
/// on the first row, a filler row when the day is empty.
fn build_block(wd: &WorkerDay) -> (b: LiveBlock)
    requires
        entries_ts_valid(wd.entries@),
    ensures
        block_matches(b, *wd),
{
    let n = wd.entries.len();
    if n == 0 {
        let ph = LiveRow {
            name: wd.worker.name.clone(),
            barcode: wd.worker.barcode.clone(),
            clock_in: String::new(),
            clock_out: String::new(),
            status: RowStatus::Placeholder,
            show_name: true,
        };
        let mut rows: Vec<LiveRow> = Vec::new();
        rows.push(ph);
        LiveBlock { rows }
    } else if n > 2 {
        let e0 = wd.entries[n - 2];
        let e1 = wd.entries[n - 1];
        proof {
            assert(windowed(wd.entries@) =~= seq![wd.entries@[n - 2], wd.entries@[n - 1]]);
        }
        let r0 = live_row_x(&wd.worker, e0, true);
        let r1 = live_row_x(&wd.worker, e1, false);
        let mut rows: Vec<LiveRow> = Vec::new();
        rows.push(r0);
        rows.push(r1);
        LiveBlock { rows }
    } else {
        let mut rows: Vec<LiveRow> = Vec::new();
        let mut j: usize = 0;
        while j < n
            invariant
                n == wd.entries@.len(),
                0 < n <= 2,
                j <= n,
                entries_ts_valid(wd.entries@),
                rows@.len() == j,
                forall|t: int|
                    0 <= t < j ==> live_row_matches(
                        #[trigger] rows@[t],
                        wd.worker,
                        wd.entries@[t],
                        t == 0,
                    ),
            decreases n - j,
        {
            let r = live_row_x(&wd.worker, wd.entries[j], j == 0);
            rows.push(r);
            j = j + 1;
        }
        proof {
            assert(windowed(wd.entries@) == wd.entries@);
        }
        LiveBlock { rows }
    }
}

/// Compose the live view: sort the workers by the display order, split them
/// into in-progress and not-in-progress, and render each as a block.
pub fn compose_live_view(workers: Vec<WorkerDay>) -> (r: LiveView)
    requires
        workers_ts_valid(workers@),
    ensures
        live_post(workers@, r),
{
    let ghost input = workers@;
    let mut sorted = sort_workers(workers);
    let ghost sseq = stable_sort(input, live_leq());
    let mut in_progress: Vec<LiveBlock> = Vec::new();
    let mut not_in_progress: Vec<LiveBlock> = Vec::new();
    let mut workers_in_order: Vec<Worker> = Vec::new();
    let ghost open_pred = |wd: WorkerDay| has_open(wd.entries@);
    let ghost closed_pred = |wd: WorkerDay| !has_open(wd.entries@);
    while sorted.len() > 0
        invariant
            sseq == stable_sort(input, live_leq()),
            workers_ts_valid(sseq),
            sorted@.len() <= sseq.len(),
            sorted@ =~= sseq.skip(sseq.len() - sorted@.len()),
            open_pred == (|wd: WorkerDay| has_open(wd.entries@)),
            closed_pred == (|wd: WorkerDay| !has_open(wd.entries@)),
            workers_in_order@.len() == sseq.len() - sorted@.len(),
            forall|t: int|
                0 <= t < workers_in_order@.len() ==> #[trigger] workers_in_order@[t]
                    == sseq[t].worker,
            in_progress@.len() == sseq.take(sseq.len() - sorted@.len()).filter(open_pred).len(),
            forall|t: int|
                0 <= t < in_progress@.len() ==> block_matches(
                    #[trigger] in_progress@[t],
                    sseq.take(sseq.len() - sorted@.len()).filter(open_pred)[t],
                ),
            not_in_progress@.len() == sseq.take(sseq.len() - sorted@.len()).filter(
                closed_pred,
            ).len(),
            forall|t: int|
                0 <= t < not_in_progress@.len() ==> block_matches(
                    #[trigger] not_in_progress@[t],
                    sseq.take(sseq.len() - sorted@.len()).filter(closed_pred)[t],
                ),
        decreases sorted@.len(),
    {
        let ghost k = sseq.len() - sorted@.len();
        let wd = sorted.remove(0);
        proof {
            assert(wd == sseq[k as int]);
            assert(sorted@ =~= sseq.skip(k + 1));
            assert(entries_ts_valid(wd.entries@));
        }
        let is_open = has_open_x(&wd.entries);
        let block = build_block(&wd);
        proof {
            reveal(Seq::filter);
            let s1 = sseq.take(k + 1);
            assert(s1.drop_last() =~= sseq.take(k as int));
            assert(s1.last() == sseq[k as int]);
        }
        if is_open {
            in_progress.push(block);
        } else {
            not_in_progress.push(block);
        }
        workers_in_order.push(wd.worker);
    }
    proof {
        assert(sseq.take(sseq.len() as int) =~= sseq);
    }
    LiveView { in_progress, not_in_progress, workers_in_order }
}

} // verus!
