//! Decimal and `HH:MM` formatting used by the live view and the reports.

use vstd::prelude::*;

verus! {

/// The character for a single decimal digit.
pub open spec fn digit_char(d: nat) -> char {
    if d == 0 {
        '0'
    } else if d == 1 {
        '1'
    } else if d == 2 {
        '2'
    } else if d == 3 {
        '3'
    } else if d == 4 {
        '4'
    } else if d == 5 {
        '5'
    } else if d == 6 {
        '6'
    } else if d == 7 {
        '7'
    } else if d == 8 {
        '8'
    } else {
        '9'
    }
}

/// Decimal representation of a natural number, most significant digit first,
/// with no leading zeros (a lone `0` for zero).
pub open spec fn dec_str(n: nat) -> Seq<char>
    decreases n,
{
    if n < 10 {
        seq![digit_char(n)]
    } else {
        dec_str(n / 10).push(digit_char(n % 10))
    }
}

/// Decimal representation padded with a leading zero to at least two digits.
pub open spec fn pad2(n: nat) -> Seq<char> {
    if n < 10 {
        seq!['0'] + dec_str(n)
    } else {
        dec_str(n)
    }
}

/// Decimal representation padded with leading zeros to at least four digits.
pub open spec fn pad4(n: nat) -> Seq<char> {
    if n < 10 {
        seq!['0', '0', '0'] + dec_str(n)
    } else if n < 100 {
        seq!['0', '0'] + dec_str(n)
    } else if n < 1000 {
        seq!['0'] + dec_str(n)
    } else {
        dec_str(n)
    }
}

/// The `HH:MM` rendering of a non-negative number of minutes: hours are not
/// bounded (three digits appear past 99 hours), minutes are always two digits.
pub open spec fn duration_label(minutes: nat) -> Seq<char> {
    pad2(minutes / 60) + seq![':'] + pad2(minutes % 60)
}

/// The `HH:MM:SS` label of a wall-clock time.
pub open spec fn hms_label(h: int, m: int, s: int) -> Seq<char> {
    pad2(h as nat) + seq![':'] + pad2(m as nat) + seq![':'] + pad2(s as nat)
}

fn digit_to_char(d: u64) -> (c: char)
    requires
        d < 10,
    ensures
        c == digit_char(d as nat),
{
    match d {
        0 => '0',
        1 => '1',
        2 => '2',
        3 => '3',
        4 => '4',
        5 => '5',
        6 => '6',
        7 => '7',
        8 => '8',
        _ => '9',
    }
}

/// Relies on `String::push`: appends exactly the given character.
#[verifier::external_body]
pub(crate) fn push_char(s: &mut String, c: char)
    ensures
        final(s)@ == old(s)@.push(c),
{
    s.push(c);
}

pub fn u64_to_string(n: u64) -> (r: String)
    ensures
        r@ == dec_str(n as nat),
    decreases n,
{
    if n < 10 {
        let mut s = String::new();
        push_char(&mut s, digit_to_char(n));
        assert(s@ =~= dec_str(n as nat));
        s
    } else {
        let mut s = u64_to_string(n / 10);
        push_char(&mut s, digit_to_char(n % 10));
        assert(s@ =~= dec_str(n as nat));
        s
    }
}

pub fn pad2_string(n: u64) -> (r: String)
    ensures
        r@ == pad2(n as nat),
{
    if n < 10 {
        let mut s = String::new();
        push_char(&mut s, '0');
        push_char(&mut s, digit_to_char(n));
        assert(s@ =~= pad2(n as nat));
        s
    } else {
        u64_to_string(n)
    }
}

pub fn pad4_string(n: u64) -> (r: String)
    ensures
        r@ == pad4(n as nat),
{
    let mut s = String::new();
    if n < 10 {
        s.append("000");
        proof {
            reveal_strlit("000");
        }
    } else if n < 100 {
        s.append("00");
        proof {
            reveal_strlit("00");
        }
    } else if n < 1000 {
        s.append("0");
        proof {
            reveal_strlit("0");
        }
    }
    let t = u64_to_string(n);
    s.append(t.as_str());
    assert(s@ =~= pad4(n as nat));
    s
}

/// `HH:MM` label for a duration in whole minutes; callers never pass a
/// negative value (bad durations are clamped to zero before display).
pub fn format_duration(minutes: i64) -> (r: String)
    requires
        0 <= minutes,
    ensures
        r@ == duration_label(minutes as nat),
{
    let m = minutes as u64;
    let mut s = pad2_string(m / 60);
    push_char(&mut s, ':');
    let rest = pad2_string(m % 60);
    s.append(rest.as_str());
    assert(s@ =~= duration_label(minutes as nat));
    s
}

/// `HH:MM:SS` string of a wall-clock time.
pub fn hms_string(h: u8, m: u8, s: u8) -> (r: String)
    ensures
        r@ == hms_label(h as int, m as int, s as int),
{
    let mut out = pad2_string(h as u64);
    push_char(&mut out, ':');
    let t1 = pad2_string(m as u64);
    out.append(t1.as_str());
    push_char(&mut out, ':');
    let t2 = pad2_string(s as u64);
    out.append(t2.as_str());
    assert(out@ =~= hms_label(h as int, m as int, s as int));
    out
}

} // verus!
