//! The one place the library consults the calendar of its display timezone.
//! Everything here is about a fixed zone, America/Santiago, as the reports
//! and the live dashboard present Chilean wall-clock times.

use vstd::prelude::*;
use chrono::{Datelike, Timelike};
use crate::dates::{days_in_month, Date};
use crate::numfmt::hms_label;

verus! {

/// Instants this library accepts: from the Unix epoch to the last second of
/// year 9999 UTC. `chrono` converts every instant in this range.
pub open spec fn valid_ts(t: int) -> bool {
    0 <= t <= 253402300799
}

/// The civil date and wall-clock time of an instant in America/Santiago, as
/// `(year, month, day, hour, minute, second)`. The timezone's rules fill
/// pages; only the wrapper below says anything about this name.
pub uninterp spec fn civil_in_chile_of(ts: int) -> (int, int, int, int, int, int);

/// Relies on `chrono::DateTime::from_timestamp` and `chrono_tz`'s
/// America/Santiago table: the civil parts of an instant depend on the
/// instant alone, each part lies in its documented range, and the day is a
/// real day of its month.
#[verifier::external_body]
pub(crate) fn civil_in_chile(ts: i64) -> (r: (i64, u8, u8, u8, u8, u8))
    requires
        valid_ts(ts as int),
    ensures
        (r.0 as int, r.1 as int, r.2 as int, r.3 as int, r.4 as int, r.5 as int)
            == civil_in_chile_of(ts as int),
        1 <= r.0 <= 9999,
        1 <= r.1 <= 12,
        1 <= r.2,
        r.2 as int <= days_in_month(r.0 as int, r.1 as int),
        r.3 < 24,
        r.4 < 60,
        r.5 < 60,
{
    let utc = chrono::DateTime::from_timestamp(ts, 0).expect("instant in supported range");
    let local = utc.with_timezone(&chrono_tz::America::Santiago);
    (
        local.year() as i64,
        local.month() as u8,
        local.day() as u8,
        local.hour() as u8,
        local.minute() as u8,
        local.second() as u8,
    )
}

/// The local calendar date of an instant in America/Santiago.
pub open spec fn local_date_of(ts: int) -> Date {
    let c = civil_in_chile_of(ts);
    Date { year: c.0 as i64, month: c.1 as u8, day: c.2 as u8 }
}

/// Seconds since local midnight of an instant in America/Santiago.
pub open spec fn local_secs_of(ts: int) -> int {
    let c = civil_in_chile_of(ts);
    c.3 * 3600 + c.4 * 60 + c.5
}

/// The `HH:MM:SS` label of an instant's local wall-clock time.
pub open spec fn local_hms_label_of(ts: int) -> Seq<char> {
    let c = civil_in_chile_of(ts);
    hms_label(c.3, c.4, c.5)
}

} // verus!
