use vstd::prelude::*;

use crate::excerpt::{
    excerpt_of, marker, occurs_at, remove_excerpt_spec, scan, splits_in_two, splits_in_two_at,
    split_excerpt_spec, strip_quotes_spec, close_quote, open_quote, scan_step, without_first, without_last, QuoteScan,
};
use crate::text::{lemma_trim_idempotent, lemma_trim_is_range, trim_spec};

verus! {

/// The marker stands nowhere in `s`.
pub open spec fn lacks_marker(s: Seq<char>) -> bool {
    forall|q: int| !occurs_at(s, marker(), q)
}

/// A contiguous range of a string without the marker has no marker either.
pub proof fn lemma_range_lacks_marker(s: Seq<char>, a: int, b: int)
    requires
        0 <= a <= b <= s.len(),
        lacks_marker(s),
    ensures
        lacks_marker(s.subrange(a, b)),
{
    let t = s.subrange(a, b);
    assert forall|q: int| !occurs_at(t, marker(), q) by {
        if occurs_at(t, marker(), q) {
            assert(s.subrange(a + q, a + q + marker().len()) =~= t.subrange(q, q + marker().len()));
            assert(occurs_at(s, marker(), a + q));
        }
    }
}

/// Without the marker in the input, `remove_excerpt` returns the input
/// trimmed.
pub proof fn lemma_remove_excerpt_passthrough(s: Seq<char>)
    requires
        lacks_marker(s),
    ensures
        remove_excerpt_spec(s) == trim_spec(s),
{
    let (a, b) = lemma_trim_is_range(s);
    lemma_range_lacks_marker(s, a, b);
}

/// Where the marker stands twice without overlap, the text is not split.
pub proof fn lemma_split_two_markers(s: Seq<char>, i: int, j: int)
    requires
        occurs_at(s, marker(), i),
        occurs_at(s, marker(), j),
        i + marker().len() <= j,
    ensures
        split_excerpt_spec(s) == s,
{
    if splits_in_two(s) {
        let p = choose|p: int| splits_in_two_at(s, p);
        assert(!(i < p));
        assert(!occurs_at(s, marker(), j));
    }
}

/// Where the marker stands twice without overlap in the trimmed input,
/// `remove_excerpt` returns the input trimmed.
pub proof fn lemma_remove_excerpt_two_markers(s: Seq<char>, i: int, j: int)
    requires
        occurs_at(trim_spec(s), marker(), i),
        occurs_at(trim_spec(s), marker(), j),
        i + marker().len() <= j,
    ensures
        remove_excerpt_spec(s) == trim_spec(s),
{
    lemma_split_two_markers(trim_spec(s), i, j);
}

/// The piece before the marker holds no marker.
pub proof fn lemma_excerpt_lacks_marker(s: Seq<char>)
    requires
        splits_in_two(s),
    ensures
        lacks_marker(excerpt_of(s)),
        excerpt_of(s) == s.subrange(0, excerpt_of(s).len() as int),
        excerpt_of(s).len() <= s.len(),
{
    let p = choose|p: int| splits_in_two_at(s, p);
    let e = excerpt_of(s);
    assert forall|q: int| !occurs_at(e, marker(), q) by {
        if occurs_at(e, marker(), q) {
            assert(s.subrange(q, q + marker().len()) =~= e.subrange(q, q + marker().len()));
            assert(occurs_at(s, marker(), q));
        }
    }
}

/// Removing the quotes keeps a contiguous range of the excerpt.
pub proof fn lemma_strip_quotes_is_range(e: Seq<char>) -> (ab: (int, int))
    ensures
        0 <= ab.0 <= ab.1 <= e.len(),
        strip_quotes_spec(e) == e.subrange(ab.0, ab.1),
{
    let st = scan(e, e.len());
    let n = e.len() as int;
    if n == 0 {
        assert(strip_quotes_spec(e) =~= e.subrange(0, 0));
        (0, 0)
    } else if st.stack.len() > 0 {
        if st.stack.last().0 == 0 {
            (1, n)
        } else {
            (0, n - 1)
        }
    } else if st.first_close == Some(st.last) {
        if n >= 2 {
            assert(strip_quotes_spec(e) =~= e.subrange(1, n - 1));
            (1, n - 1)
        } else {
            assert(strip_quotes_spec(e) =~= e.subrange(1, 1));
            (1, 1)
        }
    } else {
        assert(strip_quotes_spec(e) =~= e.subrange(0, n));
        (0, n)
    }
}

/// Splitting and stripping keeps a contiguous range of the characters.
pub proof fn lemma_split_is_range(s: Seq<char>) -> (ab: (int, int))
    ensures
        0 <= ab.0 <= ab.1 <= s.len(),
        split_excerpt_spec(s) == s.subrange(ab.0, ab.1),
{
    if splits_in_two(s) {
        let e = excerpt_of(s);
        lemma_excerpt_lacks_marker(s);
        let (a, b) = lemma_strip_quotes_is_range(e);
        assert(e.subrange(a, b) =~= s.subrange(a, b));
        (a, b)
    } else {
        assert(s.subrange(0, s.len() as int) =~= s);
        (0, s.len() as int)
    }
}

/// A range of a range of `s` is a range of `s`.
pub proof fn lemma_range_of_range(s: Seq<char>, a: int, b: int, c: int, d: int)
    requires
        0 <= a <= b <= s.len(),
        0 <= c <= d <= b - a,
    ensures
        s.subrange(a, b).subrange(c, d) == s.subrange(a + c, a + d),
{
    assert(s.subrange(a, b).subrange(c, d) =~= s.subrange(a + c, a + d));
}

/// The result of `remove_excerpt` is a contiguous range of the characters
/// of its input.
pub proof fn lemma_remove_excerpt_is_range(s: Seq<char>) -> (ab: (int, int))
    ensures
        0 <= ab.0 <= ab.1 <= s.len(),
        remove_excerpt_spec(s) == s.subrange(ab.0, ab.1),
{
    let t = trim_spec(s);
    let (a, b) = lemma_trim_is_range(s);
    let (c, d) = lemma_split_is_range(t);
    lemma_range_of_range(s, a, b, c, d);
    (a + c, a + d)
}

/// Where the text splits, what comes out holds no marker.
pub proof fn lemma_split_result_lacks_marker(s: Seq<char>)
    requires
        splits_in_two(s),
    ensures
        lacks_marker(split_excerpt_spec(s)),
{
    let e = excerpt_of(s);
    lemma_excerpt_lacks_marker(s);
    let (a, b) = lemma_strip_quotes_is_range(e);
    lemma_range_lacks_marker(e, a, b);
}

/// `remove_excerpt` applied to its own result returns that result trimmed.
pub proof fn lemma_remove_excerpt_idempotent(s: Seq<char>)
    ensures
        remove_excerpt_spec(remove_excerpt_spec(s)) == trim_spec(remove_excerpt_spec(s)),
{
    let t = trim_spec(s);
    let r = remove_excerpt_spec(s);
    lemma_trim_idempotent(s);
    if splits_in_two(t) {
        lemma_split_result_lacks_marker(t);
        lemma_remove_excerpt_passthrough(r);
    }
}

/// The piece before the marker in the trimmed input.
pub open spec fn trimmed_excerpt(s: Seq<char>) -> Seq<char> {
    excerpt_of(trim_spec(s))
}

/// The scan over the whole excerpt of the trimmed input.
pub open spec fn final_scan(s: Seq<char>) -> QuoteScan {
    scan(trimmed_excerpt(s), trimmed_excerpt(s).len())
}

/// Where a quote stays unmatched, exactly one character goes: the first
/// where the top unmatched quote stands at position 0, else the last.
pub proof fn lemma_dangling_quote_removes_one(s: Seq<char>)
    requires
        splits_in_two(trim_spec(s)),
        final_scan(s).stack.len() > 0,
    ensures
        trimmed_excerpt(s).len() > 0,
        remove_excerpt_spec(s).len() == trimmed_excerpt(s).len() - 1,
        final_scan(s).stack.last().0 == 0 ==> remove_excerpt_spec(s) == trimmed_excerpt(
            s,
        ).subrange(1, trimmed_excerpt(s).len() as int),
        final_scan(s).stack.last().0 != 0 ==> remove_excerpt_spec(s) == trimmed_excerpt(
            s,
        ).subrange(0, trimmed_excerpt(s).len() - 1),
{
    let e = trimmed_excerpt(s);
    if e.len() == 0 {
        assert(scan(e, 0).stack.len() == 0);
    }
}

/// Where every quote is matched but no quote that closed the one at
/// position 0 is the last quote, the excerpt comes back whole.
pub proof fn lemma_nested_quotes_kept(s: Seq<char>)
    requires
        splits_in_two(trim_spec(s)),
        final_scan(s).stack.len() == 0,
        final_scan(s).first_close != Some(final_scan(s).last),
    ensures
        remove_excerpt_spec(s) == trimmed_excerpt(s),
{
}

/// Over a stretch without curly quotes the scan stays where it started.
pub proof fn lemma_scan_without_quotes(e: Seq<char>, n: nat)
    requires
        n <= e.len(),
        forall|k: int| 0 <= k < n ==> e[k] != open_quote() && e[k] != close_quote(),
    ensures
        scan(e, n).stack.len() == 0,
        scan(e, n).first_close is None,
    decreases n,
{
    if n > 0 {
        lemma_scan_without_quotes(e, (n - 1) as nat);
    }
}

/// An excerpt without curly quotes comes back whole.
pub proof fn lemma_no_quotes_kept(s: Seq<char>)
    requires
        splits_in_two(trim_spec(s)),
        forall|k: int|
            0 <= k < trimmed_excerpt(s).len() ==> trimmed_excerpt(s)[k] != open_quote()
                && trimmed_excerpt(s)[k] != close_quote(),
    ensures
        remove_excerpt_spec(s) == trimmed_excerpt(s),
{
    let e = trimmed_excerpt(s);
    lemma_scan_without_quotes(e, e.len());
}

/// Opening quotes minus closing quotes in `w`.
pub open spec fn quote_depth(w: Seq<char>) -> int
    decreases w.len(),
{
    if w.len() == 0 {
        0
    } else {
        quote_depth(w.drop_last()) + if w.last() == open_quote() {
            1int
        } else if w.last() == close_quote() {
            -1int
        } else {
            0int
        }
    }
}

/// Each closing quote of `w` closes an opening one before it, and every
/// opening quote is closed.
pub open spec fn balanced_quotes(w: Seq<char>) -> bool {
    &&& forall|m: int| 0 <= m <= w.len() ==> quote_depth(#[trigger] w.subrange(0, m)) >= 0
    &&& quote_depth(w) == 0
}

/// Over a stretch whose quotes never close more than they open, the scan
/// keeps the opening quotes below it and stacks only opening quotes, as
/// many as the stretch leaves open.
pub proof fn lemma_scan_over_balanced(e: Seq<char>, a: nat, b: nat)
    requires
        a <= b <= e.len(),
        a >= 1 || e[0] != open_quote(),
        forall|k: int| 0 <= k < scan(e, a).stack.len() ==> scan(e, a).stack[k].1,
        forall|m: int| a <= m <= b ==> quote_depth(#[trigger] e.subrange(a as int, m)) >= 0,
    ensures
        scan(e, b).stack.len() == scan(e, a).stack.len() + quote_depth(
            e.subrange(a as int, b as int),
        ),
        scan(e, b).stack.subrange(0, scan(e, a).stack.len() as int) == scan(e, a).stack,
        forall|k: int| 0 <= k < scan(e, b).stack.len() ==> scan(e, b).stack[k].1,
        forall|k: int|
            scan(e, a).stack.len() <= k < scan(e, b).stack.len() ==> {
                &&& a <= scan(e, b).stack[k].0 < b
                &&& e[scan(e, b).stack[k].0] == open_quote()
            },
        scan(e, b).first_close == scan(e, a).first_close,
    decreases b - a,
{
    if b == a {
        assert(e.subrange(a as int, a as int) =~= Seq::<char>::empty());
        assert(scan(e, a).stack.subrange(0, scan(e, a).stack.len() as int) =~= scan(e, a).stack);
    } else {
        let b1 = (b - 1) as nat;
        lemma_scan_over_balanced(e, a, b1);
        assert(e.subrange(a as int, b as int).drop_last() =~= e.subrange(a as int, b1 as int));
        let prev = scan(e, b1);
        let base = scan(e, a).stack;
        let c = e[b1 as int];
        assert(scan(e, b) == scan_step(prev, b1 as int, c));
        assert(quote_depth(e.subrange(a as int, b as int)) >= 0);
        if c == open_quote() {
            assert(prev.stack.push((b1 as int, true)).subrange(0, base.len() as int)
                =~= prev.stack.subrange(0, base.len() as int));
        } else if c == close_quote() {
            assert(prev.stack.len() > base.len());
            assert(prev.stack.last().1);
            assert(prev.stack.last().0 != 0);
            assert(prev.stack.drop_last().subrange(0, base.len() as int)
                =~= prev.stack.subrange(0, base.len() as int));
        }
    }
}

/// Where the excerpt opens with a curly quote, ends with the closing one,
/// and the quotes between them are balanced, the enclosing pair goes and
/// all between stays.
pub proof fn lemma_enclosing_pair_stripped(s: Seq<char>)
    requires
        splits_in_two(trim_spec(s)),
        trimmed_excerpt(s).len() >= 2,
        trimmed_excerpt(s)[0] == open_quote(),
        trimmed_excerpt(s).last() == close_quote(),
        balanced_quotes(trimmed_excerpt(s).subrange(1, trimmed_excerpt(s).len() - 1)),
    ensures
        remove_excerpt_spec(s) == trimmed_excerpt(s).subrange(1, trimmed_excerpt(s).len() - 1),
{
    let e = trimmed_excerpt(s);
    let n = e.len();
    let inner = e.subrange(1, n - 1);
    assert(scan(e, 1) == scan_step(scan(e, 0), 0, e[0]));
    assert(scan(e, 1).stack =~= seq![(0int, true)]);
    assert forall|m: int| 1 <= m <= n - 1 implies quote_depth(#[trigger] e.subrange(1, m)) >= 0 by {
        assert(inner.subrange(0, m - 1) =~= e.subrange(1, m));
    }
    lemma_scan_over_balanced(e, 1, (n - 1) as nat);
    assert(e.subrange(1, n - 1) =~= inner);
    let prev = scan(e, (n - 1) as nat);
    assert(prev.stack.len() == 1);
    assert(prev.stack.subrange(0, 1)[0] == prev.stack[0]);
    assert(prev.stack.subrange(0, 1) == seq![(0int, true)]);
    assert(scan(e, n) == scan_step(prev, n - 1, e[n - 1]));
    assert(without_first(without_last(e)) =~= inner);
}

/// Where the quotes of the excerpt are balanced and it does not open with a
/// curly quote, the excerpt comes back whole.
pub proof fn lemma_balanced_without_leading_quote_kept(s: Seq<char>)
    requires
        splits_in_two(trim_spec(s)),
        trimmed_excerpt(s).len() > 0,
        trimmed_excerpt(s)[0] != open_quote(),
        balanced_quotes(trimmed_excerpt(s)),
    ensures
        remove_excerpt_spec(s) == trimmed_excerpt(s),
{
    let e = trimmed_excerpt(s);
    let n = e.len();
    assert forall|m: int| 0 <= m <= n implies quote_depth(#[trigger] e.subrange(0, m)) >= 0 by {}
    lemma_scan_over_balanced(e, 0, n);
    assert(e.subrange(0, n as int) =~= e);
}

/// Where the excerpt opens with a curly quote that nothing closes and the
/// quotes after it are balanced, only that first quote goes.
pub proof fn lemma_leading_dangling_quote_removed(s: Seq<char>)
    requires
        splits_in_two(trim_spec(s)),
        trimmed_excerpt(s).len() > 0,
        trimmed_excerpt(s)[0] == open_quote(),
        balanced_quotes(trimmed_excerpt(s).subrange(1, trimmed_excerpt(s).len() as int)),
    ensures
        remove_excerpt_spec(s) == trimmed_excerpt(s).subrange(1, trimmed_excerpt(s).len() as int),
{
    let e = trimmed_excerpt(s);
    let n = e.len();
    let rest = e.subrange(1, n as int);
    assert(scan(e, 1) == scan_step(scan(e, 0), 0, e[0]));
    assert(scan(e, 1).stack =~= seq![(0int, true)]);
    assert forall|m: int| 1 <= m <= n implies quote_depth(#[trigger] e.subrange(1, m)) >= 0 by {
        assert(rest.subrange(0, m - 1) =~= e.subrange(1, m));
    }
    lemma_scan_over_balanced(e, 1, n);
    assert(rest.subrange(0, n - 1) =~= rest);
    let fin = scan(e, n);
    assert(fin.stack.len() == 1);
    assert(fin.stack.subrange(0, 1)[0] == fin.stack[0]);
    assert(fin.stack.subrange(0, 1) == seq![(0int, true)]);
}

/// Where the excerpt does not open with a curly quote, its quotes before
/// the last character are balanced, and it ends with a closing quote, only
/// that last quote goes.
pub proof fn lemma_trailing_dangling_quote_removed(s: Seq<char>)
    requires
        splits_in_two(trim_spec(s)),
        trimmed_excerpt(s).len() >= 2,
        trimmed_excerpt(s)[0] != open_quote(),
        trimmed_excerpt(s).last() == close_quote(),
        balanced_quotes(trimmed_excerpt(s).subrange(0, trimmed_excerpt(s).len() - 1)),
    ensures
        remove_excerpt_spec(s) == trimmed_excerpt(s).subrange(0, trimmed_excerpt(s).len() - 1),
{
    let e = trimmed_excerpt(s);
    let n = e.len();
    let init = e.subrange(0, n - 1);
    assert forall|m: int| 0 <= m <= n - 1 implies quote_depth(#[trigger] e.subrange(0, m)) >= 0 by {
        assert(init.subrange(0, m) =~= e.subrange(0, m));
    }
    lemma_scan_over_balanced(e, 0, (n - 1) as nat);
    let prev = scan(e, (n - 1) as nat);
    assert(scan(e, n) == scan_step(prev, n - 1, e[n - 1]));
}

} // verus!
