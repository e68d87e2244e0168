//! Calendar dates in the proleptic Gregorian calendar, with the day walk and
//! weekday arithmetic that the monthly report needs.

use vstd::prelude::*;
use crate::numfmt::{pad2, pad4, pad2_string, pad4_string, push_char};

verus! {

/// A calendar date. The library supports years 1 through 9999, which covers
/// every instant the clock wrappers accept.
#[derive(Clone, Copy, PartialEq, Eq, Structural, Debug)]
pub struct Date {
    pub year: i64,
    pub month: u8,
    pub day: u8,
}

pub open spec fn is_leap_year(y: int) -> bool {
    y % 4 == 0 && (y % 100 != 0 || y % 400 == 0)
}

pub open spec fn days_in_month(y: int, m: int) -> int {
    if m == 2 {
        if is_leap_year(y) {
            29
        } else {
            28
        }
    } else if m == 4 || m == 6 || m == 9 || m == 11 {
        30
    } else {
        31
    }
}

impl Date {
    pub open spec fn valid(self) -> bool {
        1 <= self.year <= 9999 && 1 <= self.month <= 12 && 1 <= self.day
            && self.day as int <= days_in_month(self.year as int, self.month as int)
    }
}

/// Lexicographic order on (year, month, day): the calendar order.
pub open spec fn date_le(a: Date, b: Date) -> bool {
    a.year < b.year || (a.year == b.year && (a.month < b.month || (a.month == b.month
        && a.day <= b.day)))
}

/// Days in all years strictly before year `y`, counted from year 1.
pub open spec fn days_before_year(y: int) -> int
    decreases y,
{
    if y <= 1 {
        0
    } else {
        days_before_year(y - 1) + if is_leap_year(y - 1) {
            366int
        } else {
            365int
        }
    }
}

/// Days in the months of year `y` strictly before month `m`.
pub open spec fn days_before_month(y: int, m: int) -> int
    decreases m,
{
    if m <= 1 {
        0
    } else {
        days_before_month(y, m - 1) + days_in_month(y, m - 1)
    }
}

/// Index of a date in the calendar: day 0 is January 1 of year 1.
pub open spec fn day_index(d: Date) -> int {
    days_before_year(d.year as int) + days_before_month(d.year as int, d.month as int)
        + d.day as int - 1
}

/// Weekday as a number: 0 is Monday, ..., 6 is Sunday. January 1 of year 1 in
/// the proleptic Gregorian calendar is a Monday.
pub open spec fn weekday_of(d: Date) -> int {
    day_index(d) % 7
}

/// The Spanish name of a weekday number.
pub open spec fn weekday_name_es_spec(w: int) -> Seq<char> {
    if w == 0 {
        "lunes"@
    } else if w == 1 {
        "martes"@
    } else if w == 2 {
        "mi\u{e9}rcoles"@
    } else if w == 3 {
        "jueves"@
    } else if w == 4 {
        "viernes"@
    } else if w == 5 {
        "s\u{e1}bado"@
    } else {
        "domingo"@
    }
}

/// The `YYYY-MM` label of a month.
pub open spec fn month_label_spec(y: int, m: int) -> Seq<char> {
    pad4(y as nat) + seq!['-'] + pad2(m as nat)
}

/// The `MM/DD` label of a date, as the report's date column shows it.
pub open spec fn month_day_label_spec(d: Date) -> Seq<char> {
    pad2(d.month as nat) + seq!['/'] + pad2(d.day as nat)
}

pub proof fn lemma_days_before_year_bound(y: int)
    requires
        1 <= y,
    ensures
        0 <= days_before_year(y) <= 366 * (y - 1),
    decreases y,
{
    if y > 1 {
        lemma_days_before_year_bound(y - 1);
    }
}

pub proof fn lemma_days_before_month_bound(y: int, m: int)
    requires
        1 <= m <= 13,
    ensures
        0 <= days_before_month(y, m) <= 31 * (m - 1),
    decreases m,
{
    if m > 1 {
        lemma_days_before_month_bound(y, m - 1);
    }
}

pub fn days_in_month_x(y: i64, m: u8) -> (r: u8)
    ensures
        r as int == days_in_month(y as int, m as int),
{
    if m == 2 {
        if (y % 4 == 0 && y % 100 != 0) || y % 400 == 0 {
            29
        } else {
            28
        }
    } else if m == 4 || m == 6 || m == 9 || m == 11 {
        30
    } else {
        31
    }
}

pub fn date_le_x(a: Date, b: Date) -> (r: bool)
    ensures
        r == date_le(a, b),
{
    a.year < b.year || (a.year == b.year && (a.month < b.month || (a.month == b.month
        && a.day <= b.day)))
}

/// Weekday of a valid date, 0 for Monday through 6 for Sunday.
pub fn weekday_x(d: Date) -> (r: u8)
    requires
        d.valid(),
    ensures
        r as int == weekday_of(d),
        r < 7,
{
    let mut acc: u64 = 0;
    let mut y: i64 = 1;
    while y < d.year
        invariant
            1 <= y <= d.year <= 9999,
            acc as int == days_before_year(y as int),
        decreases d.year - y,
    {
        proof {
            lemma_days_before_year_bound(y as int);
        }
        if (y % 4 == 0 && y % 100 != 0) || y % 400 == 0 {
            acc = acc + 366;
        } else {
            acc = acc + 365;
        }
        y = y + 1;
    }
    proof {
        lemma_days_before_year_bound(d.year as int);
    }
    let mut m: u8 = 1;
    while m < d.month
        invariant
            1 <= m <= d.month <= 12,
            1 <= d.year <= 9999,
            acc as int == days_before_year(d.year as int) + days_before_month(
                d.year as int,
                m as int,
            ),
            days_before_year(d.year as int) <= 366 * 9998,
        decreases d.month - m,
    {
        proof {
            lemma_days_before_year_bound(d.year as int);
            lemma_days_before_month_bound(d.year as int, m as int);
        }
        acc = acc + days_in_month_x(d.year, m) as u64;
        m = m + 1;
    }
    proof {
        lemma_days_before_month_bound(d.year as int, d.month as int);
    }
    acc = acc + (d.day - 1) as u64;
    (acc % 7) as u8
}

/// Spanish weekday name for a weekday number.
pub fn weekday_name_es(w: u8) -> (r: &'static str)
    requires
        w < 7,
    ensures
        r@ == weekday_name_es_spec(w as int),
{
    match w {
        0 => "lunes",
        1 => "martes",
        2 => "mi\u{e9}rcoles",
        3 => "jueves",
        4 => "viernes",
        5 => "s\u{e1}bado",
        _ => "domingo",
    }
}

/// The `YYYY-MM` label of a month.
pub fn month_label(y: i64, m: u8) -> (r: String)
    requires
        0 <= y <= 9999,
        m <= 12,
    ensures
        r@ == month_label_spec(y as int, m as int),
{
    let mut s = pad4_string(y as u64);
    push_char(&mut s, '-');
    let t = pad2_string(m as u64);
    s.append(t.as_str());
    assert(s@ =~= month_label_spec(y as int, m as int));
    s
}

/// The `MM/DD` label of a date.
pub fn month_day_label(d: Date) -> (r: String)
    ensures
        r@ == month_day_label_spec(d),
{
    let mut s = pad2_string(d.month as u64);
    push_char(&mut s, '/');
    let t = pad2_string(d.day as u64);
    s.append(t.as_str());
    assert(s@ =~= month_day_label_spec(d));
    s
}

} // verus!
