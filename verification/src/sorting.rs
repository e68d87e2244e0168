//! A stable insertion sort, written once as a specification: both the report
//! rows and the live-view worker order are pinned to it.

use vstd::prelude::*;
use vstd::relations::sorted_by;

verus! {

/// Insert `x` into `s` after the rightmost element `e` with `leq(e, x)`:
/// elements `x` could tie with stay in front of it, which makes the sort
/// stable.
pub open spec fn stable_insert<T>(s: Seq<T>, x: T, leq: spec_fn(T, T) -> bool) -> Seq<T>
    decreases s.len(),
{
    if s.len() == 0 {
        seq![x]
    } else if leq(s.last(), x) {
        s.push(x)
    } else {
        stable_insert(s.drop_last(), x, leq).push(s.last())
    }
}

/// Insertion sort by `leq`: equal elements keep their input order.
pub open spec fn stable_sort<T>(s: Seq<T>, leq: spec_fn(T, T) -> bool) -> Seq<T>
    decreases s.len(),
{
    if s.len() == 0 {
        Seq::empty()
    } else {
        stable_insert(stable_sort(s.drop_last(), leq), s.last(), leq)
    }
}

pub proof fn lemma_stable_insert_len<T>(s: Seq<T>, x: T, leq: spec_fn(T, T) -> bool)
    ensures
        stable_insert(s, x, leq).len() == s.len() + 1,
    decreases s.len(),
{
    if s.len() != 0 && !leq(s.last(), x) {
        lemma_stable_insert_len(s.drop_last(), x, leq);
    }
}

pub proof fn lemma_stable_sort_len<T>(s: Seq<T>, leq: spec_fn(T, T) -> bool)
    ensures
        stable_sort(s, leq).len() == s.len(),
    decreases s.len(),
{
    if s.len() != 0 {
        lemma_stable_sort_len(s.drop_last(), leq);
        lemma_stable_insert_len(stable_sort(s.drop_last(), leq), s.last(), leq);
    }
}

/// Where a scan from the right stops — every element from `j` on refuses to
/// let `x` follow it, and the one before `j`, if any, accepts it — the
/// insertion is an insertion at index `j`.
pub proof fn lemma_stable_insert_at<T>(s: Seq<T>, x: T, leq: spec_fn(T, T) -> bool, j: int)
    requires
        0 <= j <= s.len(),
        forall|k: int| j <= k < s.len() ==> !leq(#[trigger] s[k], x),
        j > 0 ==> leq(s[j - 1], x),
    ensures
        stable_insert(s, x, leq) == s.insert(j, x),
    decreases s.len(),
{
    if s.len() == 0 {
        assert(s.insert(0, x) =~= seq![x]);
    } else if leq(s.last(), x) {
        assert(j == s.len());
        assert(s.insert(j, x) =~= s.push(x));
    } else {
        assert(j < s.len());
        lemma_stable_insert_at(s.drop_last(), x, leq, j);
        assert(stable_insert(s, x, leq) == s.drop_last().insert(j, x).push(s.last()));
        assert(s.drop_last().insert(j, x).push(s.last()) =~= s.insert(j, x));
    }
}

pub proof fn lemma_stable_insert_sorted<T>(s: Seq<T>, x: T, leq: spec_fn(T, T) -> bool)
    requires
        sorted_by(s, leq),
        forall|a: T, b: T| #[trigger] leq(a, b) || #[trigger] leq(b, a),
        forall|a: T, b: T, c: T| #[trigger] leq(a, b) && #[trigger] leq(b, c) ==> leq(a, c),
    ensures
        sorted_by(stable_insert(s, x, leq), leq),
    decreases s.len(),
{
    if s.len() == 0 {
    } else if leq(s.last(), x) {
        let out = s.push(x);
        assert forall|i: int, j: int| 0 <= i < j < out.len() implies #[trigger] leq(
            out[i],
            out[j],
        ) by {
            if j == out.len() - 1 {
                if i < s.len() - 1 {
                    assert(leq(s[i], s[s.len() - 1]));
                }
                assert(leq(out[i], x));
            } else {
                assert(leq(s[i], s[j]));
            }
        }
    } else {
        let rest = s.drop_last();
        assert(sorted_by(rest, leq)) by {
            assert forall|i: int, j: int| 0 <= i < j < rest.len() implies #[trigger] leq(
                rest[i],
                rest[j],
            ) by {
                assert(leq(s[i], s[j]));
            }
        }
        lemma_stable_insert_sorted(rest, x, leq);
        lemma_stable_insert_len(rest, x, leq);
        let inner = stable_insert(rest, x, leq);
        let out = inner.push(s.last());
        assert(!leq(s.last(), x));
        assert(leq(x, s.last()));
        assert forall|i: int, j: int| 0 <= i < j < out.len() implies #[trigger] leq(
            out[i],
            out[j],
        ) by {
            if j < out.len() - 1 {
                assert(leq(inner[i], inner[j]));
            } else {
                // out[j] is s.last(); show every element of inner precedes it
                assert(exists|k: int|
                    0 <= k <= rest.len() && inner =~= rest.insert(k, x) && (forall|t: int|
                        k <= t < rest.len() ==> !leq(#[trigger] rest[t], x)) && (k > 0 ==> leq(
                        rest[k - 1],
                        x,
                    ))) by {
                    lemma_stable_insert_position(rest, x, leq);
                }
                let k = choose|k: int|
                    0 <= k <= rest.len() && inner =~= rest.insert(k, x) && (forall|t: int|
                        k <= t < rest.len() ==> !leq(#[trigger] rest[t], x)) && (k > 0 ==> leq(
                        rest[k - 1],
                        x,
                    ));
                if i == k {
                    assert(inner[i] == x);
                    assert(leq(x, s.last()));
                } else if i < k {
                    assert(inner[i] == rest[i]);
                    assert(leq(rest[i], s.last())) by {
                        assert(leq(s[i], s[s.len() - 1]));
                    }
                } else {
                    assert(inner[i] == rest[i - 1]);
                    assert(leq(rest[i - 1], s.last())) by {
                        assert(leq(s[i - 1], s[s.len() - 1]));
                    }
                }
            }
        }
    }
}

/// The insertion really is an index insertion somewhere.
pub proof fn lemma_stable_insert_position<T>(s: Seq<T>, x: T, leq: spec_fn(T, T) -> bool)
    ensures
        exists|k: int|
            0 <= k <= s.len() && stable_insert(s, x, leq) =~= s.insert(k, x) && (forall|t: int|
                k <= t < s.len() ==> !leq(#[trigger] s[t], x)) && (k > 0 ==> leq(s[k - 1], x)),
    decreases s.len(),
{
    if s.len() == 0 {
        assert(s.insert(0, x) =~= seq![x]);
        assert(0 <= 0 <= s.len() && stable_insert(s, x, leq) =~= s.insert(0, x) && (forall|t: int|
            0 <= t < s.len() ==> !leq(#[trigger] s[t], x)) && (0 > 0 ==> leq(s[0 - 1], x)));
    } else if leq(s.last(), x) {
        let k = s.len() as int;
        assert(s.insert(k, x) =~= s.push(x));
        assert(0 <= k <= s.len() && stable_insert(s, x, leq) =~= s.insert(k, x) && (forall|t: int|
            k <= t < s.len() ==> !leq(#[trigger] s[t], x)) && (k > 0 ==> leq(s[k - 1], x)));
    } else {
        lemma_stable_insert_position(s.drop_last(), x, leq);
        let k = choose|k: int|
            0 <= k <= s.drop_last().len() && stable_insert(s.drop_last(), x, leq)
                =~= s.drop_last().insert(k, x) && (forall|t: int|
                k <= t < s.drop_last().len() ==> !leq(#[trigger] s.drop_last()[t], x)) && (k > 0
                ==> leq(s.drop_last()[k - 1], x));
        assert(stable_insert(s, x, leq) == stable_insert(s.drop_last(), x, leq).push(s.last()));
        assert(s.drop_last().insert(k, x).push(s.last()) =~= s.insert(k, x));
        assert(forall|t: int| k <= t < s.len() ==> !leq(#[trigger] s[t], x)) by {
            assert(forall|t: int|
                k <= t < s.len() - 1 ==> s[t] == s.drop_last()[t] && !leq(#[trigger] s[t], x));
            assert(!leq(s[s.len() - 1], x));
        }
        assert(0 <= k <= s.len() && stable_insert(s, x, leq) =~= s.insert(k, x) && (forall|t: int|
            k <= t < s.len() ==> !leq(#[trigger] s[t], x)) && (k > 0 ==> leq(s[k - 1], x)));
    }
}

/// With a total and transitive `leq`, the stable sort is sorted by `leq`.
pub proof fn lemma_stable_sort_sorted<T>(s: Seq<T>, leq: spec_fn(T, T) -> bool)
    requires
        forall|a: T, b: T| #[trigger] leq(a, b) || #[trigger] leq(b, a),
        forall|a: T, b: T, c: T| #[trigger] leq(a, b) && #[trigger] leq(b, c) ==> leq(a, c),
    ensures
        sorted_by(stable_sort(s, leq), leq),
    decreases s.len(),
{
    if s.len() != 0 {
        lemma_stable_sort_sorted(s.drop_last(), leq);
        lemma_stable_insert_sorted(stable_sort(s.drop_last(), leq), s.last(), leq);
    }
}

} // verus!
