use vstd::prelude::*;

use crate::text::{chars_of, string_of, trim_spec, trim_str};

verus! {

/// The opening curly quote.
pub open spec fn open_quote() -> char {
    '\u{201C}'
}

/// The closing curly quote.
pub open spec fn close_quote() -> char {
    '\u{201D}'
}

/// The line that separates an excerpt from its attribution.
pub open spec fn marker() -> Seq<char> {
    seq!['\n', '\n', 'E', 'x', 'c', 'e', 'r', 'p', 't', ' ', 'F', 'r', 'o', 'm', '\n']
}

/// `m` stands in `s` from position `i` on.
pub open spec fn occurs_at(s: Seq<char>, m: Seq<char>, i: int) -> bool {
    0 <= i && i + m.len() <= s.len() && s.subrange(i, i + m.len()) == m
}

/// Splitting `s` on the marker, left to right and without overlaps, gives
/// exactly two pieces, the first of which has length `p`.
pub open spec fn splits_in_two_at(s: Seq<char>, p: int) -> bool {
    &&& occurs_at(s, marker(), p)
    &&& forall|q: int| 0 <= q < p ==> !occurs_at(s, marker(), q)
    &&& forall|q: int| p + marker().len() <= q ==> !occurs_at(s, marker(), q)
}

/// `s` splits on the marker into exactly two pieces.
pub open spec fn splits_in_two(s: Seq<char>) -> bool {
    exists|p: int| splits_in_two_at(s, p)
}

/// The piece of `s` before the marker, where `s` splits in two.
pub open spec fn excerpt_of(s: Seq<char>) -> Seq<char> {
    s.subrange(0, choose|p: int| splits_in_two_at(s, p))
}

/// What the left-to-right quote scan knows after some prefix: the unmatched
/// quotes (position, and whether it opens), the position of the quote that
/// closed the quote at position 0 (none until one does), and the position of
/// the last quote seen (0 until a quote is seen).
pub struct QuoteScan {
    pub stack: Seq<(int, bool)>,
    pub first_close: Option<int>,
    pub last: int,
}

/// One step of the scan: the character `c` at position `i`.
pub open spec fn scan_step(st: QuoteScan, i: int, c: char) -> QuoteScan {
    if c == open_quote() {
        QuoteScan { stack: st.stack.push((i, true)), first_close: st.first_close, last: i }
    } else if c == close_quote() {
        if st.stack.len() > 0 && st.stack.last().1 {
            QuoteScan {
                stack: st.stack.drop_last(),
                first_close: if st.stack.last().0 == 0 { Some(i) } else { st.first_close },
                last: i,
            }
        } else {
            QuoteScan { stack: st.stack.push((i, false)), first_close: st.first_close, last: i }
        }
    } else {
        st
    }
}

/// The scan over the first `n` characters of `s`.
pub open spec fn scan(s: Seq<char>, n: nat) -> QuoteScan
    decreases n,
{
    if n == 0 {
        QuoteScan { stack: Seq::empty(), first_close: None, last: 0 }
    } else {
        scan_step(scan(s, (n - 1) as nat), n - 1, s[n - 1])
    }
}

/// `s` without its first character, if it has one.
pub open spec fn without_first(s: Seq<char>) -> Seq<char> {
    if s.len() == 0 {
        s
    } else {
        s.subrange(1, s.len() as int)
    }
}

/// `s` without its last character, if it has one.
pub open spec fn without_last(s: Seq<char>) -> Seq<char> {
    if s.len() == 0 {
        s
    } else {
        s.subrange(0, s.len() - 1)
    }
}

/// The excerpt once its dangling or enclosing quotes are removed: where a
/// quote stays unmatched, the top one decides (position 0: drop the first
/// character, else the last); where all match and a quote closed the one at
/// position 0 and is the last quote, both ends go. Anything else stays.
pub open spec fn strip_quotes_spec(s: Seq<char>) -> Seq<char> {
    let st = scan(s, s.len());
    if st.stack.len() > 0 {
        if st.stack.last().0 == 0 {
            without_first(s)
        } else {
            without_last(s)
        }
    } else if st.first_close == Some(st.last) {
        without_first(without_last(s))
    } else {
        s
    }
}

/// The stripped excerpt where `s` splits in two on the marker, else `s`
/// itself.
pub open spec fn split_excerpt_spec(s: Seq<char>) -> Seq<char> {
    if splits_in_two(s) {
        strip_quotes_spec(excerpt_of(s))
    } else {
        s
    }
}

/// What `remove_excerpt` returns: `split_excerpt_spec` of the trimmed input.
pub open spec fn remove_excerpt_spec(s: Seq<char>) -> Seq<char> {
    split_excerpt_spec(trim_spec(s))
}

fn marker_chars() -> (r: Vec<char>)
    ensures
        r@ == marker(),
{
    let r = vec!['\n', '\n', 'E', 'x', 'c', 'e', 'r', 'p', 't', ' ', 'F', 'r', 'o', 'm', '\n'];
    assert(r@ =~= marker());
    r
}

/// Whether `m` stands in `s` from position `i` on.
fn occurs_at_exec(s: &Vec<char>, m: &Vec<char>, i: usize) -> (r: bool)
    ensures
        r == occurs_at(s@, m@, i as int),
{
    if i > s.len() || m.len() > s.len() - i {
        return false;
    }
    let mut k: usize = 0;
    while k < m.len()
        invariant
            i + m@.len() <= s@.len() <= usize::MAX,
            k <= m@.len(),
            forall|j: int| 0 <= j < k ==> s@[i + j] == m@[j],
        decreases m@.len() - k,
    {
        if s[i + k] != m[k] {
            assert(s@.subrange(i as int, i + m@.len())[k as int] != m@[k as int]);
            return false;
        }
        k = k + 1;
    }
    assert(s@.subrange(i as int, i + m@.len()) =~= m@);
    true
}

/// The first position from `start` on at which `m` stands in `s`.
fn find_from(s: &Vec<char>, m: &Vec<char>, start: usize) -> (r: Option<usize>)
    requires
        m@.len() > 0,
    ensures
        match r {
            Some(p) => start <= p && s@.len() <= usize::MAX && occurs_at(s@, m@, p as int) && forall|q: int|
                start <= q < p ==> !occurs_at(s@, m@, q),
            None => forall|q: int| start <= q ==> !occurs_at(s@, m@, q),
        },
{
    let mut i: usize = start;
    if start >= s.len() {
        return None;
    }
    while i < s.len()
        invariant
            start <= i,
            forall|q: int| start <= q < i ==> !occurs_at(s@, m@, q),
        decreases s@.len() - i,
    {
        if occurs_at_exec(s, m, i) {
            return Some(i);
        }
        i = i + 1;
    }
    None
}

/// The stack that the scan keeps at run time holds the same entries as the
/// one that `scan` describes.
pub open spec fn stack_matches(ex: Seq<(usize, bool)>, sp: Seq<(int, bool)>) -> bool {
    &&& ex.len() == sp.len()
    &&& forall|k: int| 0 <= k < ex.len() ==> ex[k].0 as int == sp[k].0 && ex[k].1 == sp[k].1
}

/// Removes the dangling or enclosing quotes of the excerpt `e`.
fn strip_quotes(e: &Vec<char>) -> (r: String)
    ensures
        r@ == strip_quotes_spec(e@),
{
    let n = e.len();
    let mut stack: Vec<(usize, bool)> = Vec::new();
    let mut closed_first = false;
    let mut first_close: usize = 0;
    let mut last: usize = 0;
    let mut i: usize = 0;
    while i < n
        invariant
            n == e@.len(),
            i <= n,
            stack_matches(stack@, scan(e@, i as nat).stack),
            forall|k: int| 0 <= k < stack@.len() ==> stack@[k].0 < i,
            closed_first == scan(e@, i as nat).first_close is Some,
            closed_first ==> scan(e@, i as nat).first_close == Some(first_close as int),
            last as int == scan(e@, i as nat).last,
        decreases n - i,
    {
        let c = e[i];
        let ghost st = scan(e@, i as nat);
        if c == '\u{201C}' {
            stack.push((i, true));
            last = i;
        } else if c == '\u{201D}' {
            let len = stack.len();
            if len > 0 && stack[len - 1].1 {
                if stack[len - 1].0 == 0 {
                    closed_first = true;
                    first_close = i;
                }
                stack.pop();
            } else {
                stack.push((i, false));
            }
            last = i;
        }
        assert(scan(e@, (i + 1) as nat) == scan_step(st, i as int, c));
        i = i + 1;
    }
    let len = stack.len();
    if len > 0 {
        if stack[len - 1].0 == 0 {
            string_of(e, 1, n)
        } else {
            string_of(e, 0, n - 1)
        }
    } else if closed_first && first_close == last {
        if n >= 2 {
            assert(without_first(without_last(e@)) =~= e@.subrange(1, n - 1));
            string_of(e, 1, n - 1)
        } else {
            assert(without_first(without_last(e@)) =~= Seq::<char>::empty());
            String::new()
        }
    } else {
        assert(e@.subrange(0, n as int) =~= e@);
        string_of(e, 0, n)
    }
}

/// Where `input` splits on "\n\nExcerpt From\n" into exactly two pieces, the
/// first piece without its dangling or enclosing curly quotes; else `input`
/// unchanged.
fn split_excerpt(input: String) -> (r: String)
    ensures
        r@ == split_excerpt_spec(input@),
{
    let mut v = chars_of(input.as_str());
    let m = marker_chars();
    match find_from(&v, &m, 0) {
        None => {
            assert(!splits_in_two(v@));
            input
        },
        Some(p) => {
            let after = p + m.len();
            match find_from(&v, &m, after) {
                Some(q) => {
                    assert(!splits_in_two(v@)) by {
                        if exists|other: int| splits_in_two_at(v@, other) {
                            let other = choose|other: int| splits_in_two_at(v@, other);
                            assert(!(other < p));
                            assert(!(p < other));
                            assert(occurs_at(v@, marker(), q as int));
                        }
                    }
                    input
                },
                None => {
                    assert(splits_in_two_at(v@, p as int));
                    let ghost other = choose|other: int| splits_in_two_at(v@, other);
                    assert(!(other < p));
                    assert(!(p < other));
                    v.truncate(p);
                    assert(v@ == excerpt_of(input@));
                    strip_quotes(&v)
                },
            }
        },
    }
}

/// The excerpt of `input` once trimmed: its leading and trailing white space
/// go first, then the text is split on the marker and its quotes resolved.
pub fn remove_excerpt(input: String) -> (r: String)
    ensures
        r@ == remove_excerpt_spec(input@),
{
    let t = trim_str(input.as_str()).to_owned();
    split_excerpt(t)
}

/// The excerpt of `input`, as `remove_excerpt` gives it.
pub fn strip(input: String) -> (r: String)
    ensures
        r@ == remove_excerpt_spec(input@),
{
    remove_excerpt(input)
}

} // verus!
