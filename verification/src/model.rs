//! The data the event store hands the library: workers and attendance events.

use vstd::prelude::*;
use crate::clock::valid_ts;

verus! {

/// A worker as the store lists it.
#[derive(Debug)]
pub struct Worker {
    pub id: i64,
    pub name: String,
    pub barcode: String,
    pub active: bool,
}

/// One attendance event: a clock-in instant and, once the worker has left, a
/// clock-out instant. Instants are seconds since the Unix epoch, UTC. An event
/// whose `clock_out` is `None` is an open session.
#[derive(Clone, Copy, Debug)]
pub struct TimesheetEntry {
    pub id: i64,
    pub worker_id: i64,
    pub clock_in: i64,
    pub clock_out: Option<i64>,
}

/// Every instant of the entry lies in the range the clock wrappers accept.
pub open spec fn entry_ts_valid(e: TimesheetEntry) -> bool {
    valid_ts(e.clock_in as int) && match e.clock_out {
        Some(t) => valid_ts(t as int),
        None => true,
    }
}

/// All entries of a sequence have instants in range.
pub open spec fn entries_ts_valid(s: Seq<TimesheetEntry>) -> bool {
    forall|i: int| 0 <= i < s.len() ==> entry_ts_valid(#[trigger] s[i])
}

} // verus!
