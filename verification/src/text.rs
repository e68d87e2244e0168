//! Text hygiene: HTML escaping, filesystem-safe names, barcode digits.

use vstd::prelude::*;
use vstd::string::*;
use crate::numfmt::push_char;

verus! {

pub open spec fn is_ascii_digit_c(c: char) -> bool {
    ('0' as u32) <= (c as u32) && (c as u32) <= ('9' as u32)
}

pub open spec fn is_ascii_alnum(c: char) -> bool {
    is_ascii_digit_c(c) || (('a' as u32) <= (c as u32) && (c as u32) <= ('z' as u32)) || (('A'
        as u32) <= (c as u32) && (c as u32) <= ('Z' as u32))
}

/// What one character becomes under HTML escaping.
pub open spec fn esc_char(c: char) -> Seq<char> {
    if c == '&' {
        "&amp;"@
    } else if c == '<' {
        "&lt;"@
    } else if c == '>' {
        "&gt;"@
    } else if c == '"' {
        "&quot;"@
    } else if c == '\'' {
        "&#39;"@
    } else {
        seq![c]
    }
}

/// HTML escaping of a whole text.
pub open spec fn escaped(s: Seq<char>) -> Seq<char>
    decreases s.len(),
{
    if s.len() == 0 {
        Seq::empty()
    } else {
        escaped(s.drop_last()) + esc_char(s.last())
    }
}

/// What one character becomes in a filesystem-safe name: ASCII alphanumerics
/// stay, everything else becomes one underscore.
pub open spec fn sanitize_char(c: char) -> char {
    if is_ascii_alnum(c) {
        c
    } else {
        '_'
    }
}

/// The sanitized form of a name: one output character per input character.
pub open spec fn sanitized(s: Seq<char>) -> Seq<char> {
    s.map_values(|c: char| sanitize_char(c))
}

/// The digits of a scanned barcode, every other character dropped. Leading
/// and trailing noise (whitespace, byte-order marks, control characters) has
/// no digit in it, so keeping exactly the digits normalizes the scan.
pub open spec fn digits_of(s: Seq<char>) -> Seq<char> {
    s.filter(|c: char| is_ascii_digit_c(c))
}

/// Escape `& < > " '` for embedding user-supplied text in HTML.
pub fn escape_html(value: &str) -> (r: String)
    ensures
        r@ == escaped(value@),
{
    let n = value.unicode_len();
    let mut out = String::new();
    let mut i: usize = 0;
    while i < n
        invariant
            n == value@.len(),
            i <= n,
            out@ == escaped(value@.take(i as int)),
        decreases n - i,
    {
        let c = value.get_char(i);
        if c == '&' {
            out.append("&amp;");
        } else if c == '<' {
            out.append("&lt;");
        } else if c == '>' {
            out.append("&gt;");
        } else if c == '"' {
            out.append("&quot;");
        } else if c == '\'' {
            out.append("&#39;");
        } else {
            push_char(&mut out, c);
        }
        proof {
            assert(value@.take(i + 1).drop_last() =~= value@.take(i as int));
            assert(value@.take(i + 1).last() == value@[i as int]);
        }
        i = i + 1;
    }
    proof {
        assert(value@.take(n as int) =~= value@);
    }
    out
}

/// Map a worker's name to a filesystem-safe file-name stem. An empty name
/// falls back to a fixed placeholder.
pub fn sanitize_filename(name: &str) -> (r: String)
    ensures
        name@.len() == 0 ==> r@ == "worker"@,
        name@.len() > 0 ==> r@ == sanitized(name@),
{
    let n = name.unicode_len();
    if n == 0 {
        return String::from_str("worker");
    }
    let mut out = String::new();
    let mut i: usize = 0;
    while i < n
        invariant
            n == name@.len(),
            i <= n,
            out@ == sanitized(name@.take(i as int)),
        decreases n - i,
    {
        let c = name.get_char(i);
        let lower = ('a' as u32) <= (c as u32) && (c as u32) <= ('z' as u32);
        let upper = ('A' as u32) <= (c as u32) && (c as u32) <= ('Z' as u32);
        let digit = ('0' as u32) <= (c as u32) && (c as u32) <= ('9' as u32);
        if lower || upper || digit {
            push_char(&mut out, c);
        } else {
            push_char(&mut out, '_');
        }
        proof {
            assert(out@ =~= sanitized(name@.take(i + 1)));
        }
        i = i + 1;
    }
    proof {
        assert(name@.take(n as int) =~= name@);
    }
    out
}

/// Normalize a raw barcode scan: keep exactly its ASCII digits.
pub fn normalize(raw: &str) -> (r: String)
    ensures
        r@ == digits_of(raw@),
{
    let n = raw.unicode_len();
    let mut out = String::new();
    let mut i: usize = 0;
    while i < n
        invariant
            n == raw@.len(),
            i <= n,
            out@ == digits_of(raw@.take(i as int)),
        decreases n - i,
    {
        let c = raw.get_char(i);
        if ('0' as u32) <= (c as u32) && (c as u32) <= ('9' as u32) {
            push_char(&mut out, c);
        }
        proof {
            reveal(Seq::filter);
            let s1 = raw@.take(i + 1);
            assert(s1.drop_last() =~= raw@.take(i as int));
            assert(s1.last() == raw@[i as int]);
            assert(digits_of(s1) == if is_ascii_digit_c(s1.last()) {
                digits_of(s1.drop_last()).push(s1.last())
            } else {
                digits_of(s1.drop_last())
            });
        }
        i = i + 1;
    }
    proof {
        assert(raw@.take(n as int) =~= raw@);
    }
    out
}

} // verus!
