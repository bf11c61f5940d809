//! Character-level text model: the views of `str` and `String` are `Seq<char>`,
//! and the functions here state `trim`, `lines`, prefix and substring tests over them.

use vstd::prelude::*;

verus! {

/// Unicode `White_Space`, the property behind `char::is_whitespace`.
pub open spec fn is_ws(c: char) -> bool {
    let u = c as u32;
    (0x09 <= u <= 0x0d) || u == 0x20 || u == 0x85 || u == 0xa0 || u == 0x1680
        || (0x2000 <= u <= 0x200a) || u == 0x2028 || u == 0x2029 || u == 0x202f
        || u == 0x205f || u == 0x3000
}

/// Executable whitespace test.
pub fn is_whitespace(c: char) -> (b: bool)
    ensures
        b == is_ws(c),
{
    let u = c as u32;
    (0x09 <= u && u <= 0x0d) || u == 0x20 || u == 0x85 || u == 0xa0 || u == 0x1680 || (0x2000
        <= u && u <= 0x200a) || u == 0x2028 || u == 0x2029 || u == 0x202f || u == 0x205f || u
        == 0x3000
}

/// The characters of a string slice, in order.
pub fn chars_of(s: &str) -> (v: Vec<char>)
    ensures
        v@ == s@,
{
    let mut v: Vec<char> = Vec::new();
    for c in it: s.chars()
        invariant
            it.seq() == s@,
            v@ == it.seq().take(it.index() as int),
    {
        v.push(c);
        assert(v@ =~= it.seq().take(it.index() as int + 1));
    }
    assert(v@ =~= s@);
    v
}


// ---------------------------------------------------------------------------
// Prefixes, suffixes, substrings
// ---------------------------------------------------------------------------

/// `s` begins with `p`.
pub open spec fn has_prefix(s: Seq<char>, p: Seq<char>) -> bool {
    p.len() <= s.len() && s.subrange(0, p.len() as int) =~= p
}

/// `s` ends with `p`.
pub open spec fn has_suffix(s: Seq<char>, p: Seq<char>) -> bool {
    p.len() <= s.len() && s.subrange(s.len() - p.len(), s.len() as int) =~= p
}

/// `p` occurs in `s` at position `i`.
pub open spec fn occurs_at(s: Seq<char>, p: Seq<char>, i: int) -> bool {
    0 <= i && i + p.len() <= s.len() && s.subrange(i, i + p.len()) =~= p
}

/// `p` occurs somewhere in `s` (`str::contains`).
pub open spec fn has_substring(s: Seq<char>, p: Seq<char>) -> bool {
    exists|i: int| occurs_at(s, p, i)
}

/// `s` contains the character `c`.
pub open spec fn has_char(s: Seq<char>, c: char) -> bool {
    exists|i: int| 0 <= i < s.len() && s[i] == c
}

/// `str::trim_start_matches` with a non-empty pattern: every leading copy of `p` removed.
pub open spec fn strip_all_prefix(s: Seq<char>, p: Seq<char>) -> Seq<char>
    decreases s.len(),
{
    if p.len() > 0 && has_prefix(s, p) {
        strip_all_prefix(s.skip(p.len() as int), p)
    } else {
        s
    }
}

/// `str::trim_end_matches` with a non-empty pattern: every trailing copy of `p` removed.
pub open spec fn strip_all_suffix(s: Seq<char>, p: Seq<char>) -> Seq<char>
    decreases s.len(),
{
    if p.len() > 0 && has_suffix(s, p) {
        strip_all_suffix(s.take(s.len() - p.len()), p)
    } else {
        s
    }
}

/// The text after the last `c` in `s`, or all of `s` when `c` does not occur
/// (the first item of `str::rsplit(c)`).
pub open spec fn last_segment(s: Seq<char>, c: char) -> Seq<char>
    decreases s.len(),
{
    if s.len() == 0 {
        s
    } else if s.last() == c {
        Seq::empty()
    } else {
        last_segment(s.drop_last(), c).push(s.last())
    }
}

// ---------------------------------------------------------------------------
// Whitespace trimming
// ---------------------------------------------------------------------------

/// `str::trim_start`.
pub open spec fn trim_start(s: Seq<char>) -> Seq<char>
    decreases s.len(),
{
    if s.len() > 0 && is_ws(s[0]) {
        trim_start(s.drop_first())
    } else {
        s
    }
}

/// `str::trim_end`.
pub open spec fn trim_end(s: Seq<char>) -> Seq<char>
    decreases s.len(),
{
    if s.len() > 0 && is_ws(s.last()) {
        trim_end(s.drop_last())
    } else {
        s
    }
}

/// `str::trim`.
pub open spec fn trim(s: Seq<char>) -> Seq<char> {
    trim_end(trim_start(s))
}

// ---------------------------------------------------------------------------
// Lines
// ---------------------------------------------------------------------------

/// Index of the first `'\n'` at or after `i`, or `s.len()` when there is none.
pub open spec fn find_nl(s: Seq<char>, i: int) -> int
    decreases s.len() - i,
{
    if i < 0 || i >= s.len() {
        s.len() as int
    } else if s[i] == '\n' {
        i
    } else {
        find_nl(s, i + 1)
    }
}

/// A line that was ended by `'\n'` loses one trailing `'\r'`.
pub open spec fn strip_cr(l: Seq<char>) -> Seq<char> {
    if l.len() > 0 && l.last() == '\r' {
        l.drop_last()
    } else {
        l
    }
}

/// The lines of `s` from position `start` on.
pub open spec fn lines_from(s: Seq<char>, start: int) -> Seq<Seq<char>>
    decreases s.len() - start,
{
    if start < 0 || start >= s.len() {
        Seq::empty()
    } else {
        let e = find_nl(s, start);
        if e >= s.len() {
            seq![s.subrange(start, s.len() as int)]
        } else {
            proof {
                lemma_find_nl_bounds(s, start);
            }
            seq![strip_cr(s.subrange(start, e))] + lines_from(s, e + 1)
        }
    }
}

/// `str::lines`: split at `'\n'` (a `"\r\n"` ending counts as one), no empty
/// last line after a final line ending, no lines at all for the empty string.
pub open spec fn lines(s: Seq<char>) -> Seq<Seq<char>> {
    lines_from(s, 0)
}

pub proof fn lemma_find_nl_bounds(s: Seq<char>, i: int)
    requires
        0 <= i <= s.len(),
    ensures
        i <= find_nl(s, i) <= s.len(),
        find_nl(s, i) < s.len() ==> s[find_nl(s, i)] == '\n',
        forall|k: int| i <= k < find_nl(s, i) ==> s[k] != '\n',
    decreases s.len() - i,
{
    if i < s.len() && s[i] != '\n' {
        lemma_find_nl_bounds(s, i + 1);
    }
}

/// When no `'\n'` lies in `[i, j)` the search from `i` goes on at `j`.
pub proof fn lemma_find_nl_skip(s: Seq<char>, i: int, j: int)
    requires
        0 <= i <= j <= s.len(),
        forall|k: int| i <= k < j ==> s[k] != '\n',
    ensures
        find_nl(s, i) == find_nl(s, j),
    decreases j - i,
{
    if i < j {
        lemma_find_nl_skip(s, i + 1, j);
    }
}

/// A `'\n'` at `k` (at or after `i`) bounds the search from `i`.
pub proof fn lemma_find_nl_at_most(s: Seq<char>, i: int, k: int)
    requires
        0 <= i <= k < s.len(),
        s[k] == '\n',
    ensures
        find_nl(s, i) <= k,
    decreases k - i,
{
    if s[i] != '\n' {
        lemma_find_nl_at_most(s, i + 1, k);
    }
}

/// Searching `a + b` from inside `a` finds what searching `a` finds, when
/// that lies in `a`.
proof fn lemma_find_nl_prefix(a: Seq<char>, b: Seq<char>, i: int)
    requires
        0 <= i <= a.len(),
        find_nl(a, i) < a.len(),
    ensures
        find_nl(a + b, i) == find_nl(a, i),
    decreases a.len() - i,
{
    if i < a.len() && a[i] != '\n' {
        lemma_find_nl_prefix(a, b, i + 1);
    }
}

/// Searching `a + b` past `a` is searching `b`, shifted.
proof fn lemma_find_nl_shift(a: Seq<char>, b: Seq<char>, j: int)
    requires
        0 <= j <= b.len(),
    ensures
        find_nl(a + b, a.len() + j) == a.len() + find_nl(b, j),
    decreases b.len() - j,
{
    if j < b.len() && b[j] != '\n' {
        lemma_find_nl_shift(a, b, j + 1);
    }
}

/// The lines of `a + b` past `a` are the lines of `b`.
proof fn lemma_lines_shift(a: Seq<char>, b: Seq<char>, j: int)
    requires
        0 <= j <= b.len(),
    ensures
        lines_from(a + b, a.len() + j) == lines_from(b, j),
    decreases b.len() - j,
{
    let s = a + b;
    if j < b.len() {
        lemma_find_nl_shift(a, b, j);
        lemma_find_nl_bounds(b, j);
        let e = find_nl(b, j);
        if e >= b.len() {
            assert(s.subrange(a.len() + j, s.len() as int) =~= b.subrange(j, b.len() as int));
        } else {
            lemma_lines_shift(a, b, e + 1);
            assert(s.subrange(a.len() + j, a.len() + e) =~= b.subrange(j, e));
        }
    }
}

proof fn lemma_lines_concat_from(a: Seq<char>, b: Seq<char>, i: int)
    requires
        0 <= i <= a.len(),
        a.len() == 0 || a.last() == '\n',
    ensures
        lines_from(a + b, i) == lines_from(a, i) + lines_from(b, 0),
    decreases a.len() - i,
{
    let s = a + b;
    if i == a.len() {
        lemma_lines_shift(a, b, 0);
        assert(lines_from(a, i) + lines_from(b, 0) =~= lines_from(b, 0));
    } else {
        lemma_find_nl_at_most(a, i, a.len() - 1);
        lemma_find_nl_bounds(a, i);
        lemma_find_nl_prefix(a, b, i);
        let e = find_nl(a, i);
        lemma_lines_concat_from(a, b, e + 1);
        assert(s.subrange(i, e) =~= a.subrange(i, e));
        assert(lines_from(s, i) == seq![strip_cr(a.subrange(i, e))] + lines_from(s, e + 1));
        assert(lines_from(a, i) == seq![strip_cr(a.subrange(i, e))] + lines_from(a, e + 1));
        assert(seq![strip_cr(a.subrange(i, e))] + (lines_from(a, e + 1) + lines_from(b, 0)) =~= (
        seq![strip_cr(a.subrange(i, e))] + lines_from(a, e + 1)) + lines_from(b, 0));
    }
}

/// A text that ends a line (or is empty), followed by another: the lines of
/// both, in order.
pub proof fn lemma_lines_concat(a: Seq<char>, b: Seq<char>)
    requires
        a.len() == 0 || a.last() == '\n',
    ensures
        lines(a + b) == lines(a) + lines(b),
{
    lemma_lines_concat_from(a, b, 0);
}

/// A text fit to be one line: no `'\n'` in it, and no `'\r'` at its end.
pub open spec fn one_line(t: Seq<char>) -> bool {
    (forall|i: int| 0 <= i < t.len() ==> t[i] != '\n') && (t.len() == 0 || t.last() != '\r')
}

/// A line ended by `'\n'` is read back as itself.
pub proof fn lemma_single_line(x: Seq<char>)
    requires
        one_line(x),
    ensures
        lines(x + "\n"@) == seq![x],
{
    reveal_strlit("\n");
    let s = x + "\n"@;
    assert forall|k: int| 0 <= k < x.len() implies s[k] != '\n' by {
        assert(s[k] == x[k]);
    }
    lemma_find_nl_skip(s, 0, x.len() as int);
    assert(s[x.len() as int] == '\n');
    assert(find_nl(s, x.len() as int) == x.len());
    assert(s.subrange(0, x.len() as int) =~= x);
    assert(lines_from(s, x.len() as int + 1) == Seq::<Seq<char>>::empty());
    assert(lines_from(s, 0) =~= seq![strip_cr(x)] + Seq::<Seq<char>>::empty());
}

/// The texts of `[start, end)` spans of `s`.
pub open spec fn span_texts(s: Seq<char>, spans: Seq<(usize, usize)>) -> Seq<Seq<char>> {
    Seq::new(spans.len(), |k: int| s.subrange(spans[k].0 as int, spans[k].1 as int))
}

pub open spec fn spans_in_bounds(s: Seq<char>, spans: Seq<(usize, usize)>) -> bool {
    forall|k: int| 0 <= k < spans.len() ==> #[trigger] spans[k].0 <= spans[k].1 <= s.len()
}

/// The `[start, end)` spans of the lines of `v`.
pub fn line_spans(v: &Vec<char>) -> (spans: Vec<(usize, usize)>)
    ensures
        spans_in_bounds(v@, spans@),
        span_texts(v@, spans@) == lines(v@),
{
    let mut spans: Vec<(usize, usize)> = Vec::new();
    let mut start: usize = 0;
    let mut i: usize = 0;
    let n = v.len();
    while i < n
        invariant
            n == v@.len(),
            start <= i <= n,
            forall|k: int| start <= k < i ==> v@[k] != '\n',
            spans_in_bounds(v@, spans@),
            lines(v@) == span_texts(v@, spans@) + lines_from(v@, start as int),
        decreases n - i,
    {
        if v[i] == '\n' {
            let end = if i > start && v[i - 1] == '\r' { i - 1 } else { i };
            proof {
                lemma_find_nl_skip(v@, start as int, i as int);
                let s = v@;
                assert(find_nl(s, start as int) == i);
                assert(s.subrange(start as int, end as int) =~= strip_cr(s.subrange(start as int, i as int)));
                let old_spans = spans@;
                assert(span_texts(s, old_spans.push((start, end))) =~= span_texts(s, old_spans).push(s.subrange(start as int, end as int)));
                assert(lines_from(s, start as int) =~= seq![strip_cr(s.subrange(start as int, i as int))] + lines_from(s, i + 1));
            }
            spans.push((start, end));
            start = i + 1;
        }
        i = i + 1;
    }
    if start < n {
        proof {
            lemma_find_nl_skip(v@, start as int, n as int);
            let s = v@;
            let old_spans = spans@;
            assert(span_texts(s, old_spans.push((start, n))) =~= span_texts(s, old_spans).push(s.subrange(start as int, n as int)));
        }
        spans.push((start, n));
    }
    proof {
        let s = v@;
        assert(span_texts(s, spans@) + Seq::<Seq<char>>::empty() =~= span_texts(s, spans@));
    }
    spans
}

// ---------------------------------------------------------------------------
// Executable tests and trimming over character vectors
// ---------------------------------------------------------------------------

/// Does `v[lo..hi]` begin with `p`?
pub fn prefix_at(v: &Vec<char>, lo: usize, hi: usize, p: &Vec<char>) -> (b: bool)
    requires
        lo <= hi <= v@.len(),
    ensures
        b == has_prefix(v@.subrange(lo as int, hi as int), p@),
{
    if p.len() > hi - lo {
        return false;
    }
    let mut k: usize = 0;
    while k < p.len()
        invariant
            lo <= hi <= v@.len(),
            p@.len() <= hi - lo,
            k <= p@.len(),
            forall|j: int| 0 <= j < k ==> v@[lo + j] == p@[j],
        decreases p@.len() - k,
    {
        if v[lo + k] != p[k] {
            assert(v@.subrange(lo as int, hi as int).subrange(0, p@.len() as int)[k as int] != p@[k as int]);
            return false;
        }
        k = k + 1;
    }
    assert(v@.subrange(lo as int, hi as int).subrange(0, p@.len() as int) =~= p@);
    true
}

/// Does `v[lo..hi]` end with `p`?
pub fn suffix_at(v: &Vec<char>, lo: usize, hi: usize, p: &Vec<char>) -> (b: bool)
    requires
        lo <= hi <= v@.len(),
    ensures
        b == has_suffix(v@.subrange(lo as int, hi as int), p@),
{
    if p.len() > hi - lo {
        return false;
    }
    let start = hi - p.len();
    let b = prefix_at(v, start, hi, p);
    proof {
        let t = v@.subrange(lo as int, hi as int);
        assert(t.subrange(t.len() - p@.len(), t.len() as int) =~= v@.subrange(start as int, hi as int));
        assert(v@.subrange(start as int, hi as int).subrange(0, p@.len() as int) =~= v@.subrange(start as int, hi as int));
    }
    b
}

/// Does `p` occur in `v[lo..hi]`?
pub fn substring_at(v: &Vec<char>, lo: usize, hi: usize, p: &Vec<char>) -> (b: bool)
    requires
        lo <= hi <= v@.len(),
    ensures
        b == has_substring(v@.subrange(lo as int, hi as int), p@),
{
    let ghost t = v@.subrange(lo as int, hi as int);
    if p.len() > hi - lo {
        assert forall|i: int| !occurs_at(t, p@, i) by {}
        return false;
    }
    let last = hi - lo - p.len();
    let mut i: usize = 0;
    while i <= last
        invariant
            lo <= hi <= v@.len(),
            t == v@.subrange(lo as int, hi as int),
            p@.len() <= hi - lo,
            last == hi - lo - p@.len(),
            i <= last + 1,
            forall|j: int| 0 <= j < i ==> !occurs_at(t, p@, j),
        decreases last + 1 - i,
    {
        let here = prefix_at(v, lo + i, hi, p);
        proof {
            let u = v@.subrange(lo + i, hi as int);
            assert(u.subrange(0, p@.len() as int) =~= t.subrange(i as int, i + p@.len()));
        }
        if here {
            assert(occurs_at(t, p@, i as int));
            return true;
        }
        i = i + 1;
    }
    assert forall|j: int| !occurs_at(t, p@, j) by {
        if 0 <= j && j + p@.len() <= t.len() {
            assert(j < i);
        }
    }
    false
}

/// Does `c` occur in `v[lo..hi]`?
pub fn char_at_any(v: &Vec<char>, lo: usize, hi: usize, c: char) -> (b: bool)
    requires
        lo <= hi <= v@.len(),
    ensures
        b == has_char(v@.subrange(lo as int, hi as int), c),
{
    let ghost t = v@.subrange(lo as int, hi as int);
    let mut i = lo;
    while i < hi
        invariant
            lo <= i <= hi <= v@.len(),
            t == v@.subrange(lo as int, hi as int),
            forall|j: int| 0 <= j < i - lo ==> t[j] != c,
        decreases hi - i,
    {
        if v[i] == c {
            assert(t[i - lo] == c);
            return true;
        }
        i = i + 1;
    }
    false
}

pub proof fn lemma_trim_start_skip(s: Seq<char>, a: int)
    requires
        0 <= a <= s.len(),
        forall|k: int| 0 <= k < a ==> is_ws(s[k]),
    ensures
        trim_start(s) == trim_start(s.skip(a)),
    decreases a,
{
    if a > 0 {
        assert(s.drop_first().skip(a - 1) =~= s.skip(a));
        lemma_trim_start_skip(s.drop_first(), a - 1);
    } else {
        assert(s.skip(0) =~= s);
    }
}

pub proof fn lemma_trim_end_take(s: Seq<char>, b: int)
    requires
        0 <= b <= s.len(),
        forall|k: int| b <= k < s.len() ==> is_ws(s[k]),
    ensures
        trim_end(s) == trim_end(s.take(b)),
    decreases s.len() - b,
{
    if b < s.len() {
        assert(s.drop_last().take(b) =~= s.take(b));
        lemma_trim_end_take(s.drop_last(), b);
    } else {
        assert(s.take(b) =~= s);
    }
}

/// The bounds of `trim(v[lo..hi])` inside `v`.
pub fn trim_span(v: &Vec<char>, lo: usize, hi: usize) -> (r: (usize, usize))
    requires
        lo <= hi <= v@.len(),
    ensures
        lo <= r.0 <= r.1 <= hi,
        v@.subrange(r.0 as int, r.1 as int) == trim(v@.subrange(lo as int, hi as int)),
{
    let ghost t = v@.subrange(lo as int, hi as int);
    let mut a = lo;
    while a < hi && is_whitespace(v[a])
        invariant
            lo <= a <= hi <= v@.len(),
            t == v@.subrange(lo as int, hi as int),
            forall|k: int| 0 <= k < a - lo ==> is_ws(t[k]),
        decreases hi - a,
    {
        a = a + 1;
    }
    proof {
        lemma_trim_start_skip(t, a - lo);
        assert(t.skip(a - lo) =~= v@.subrange(a as int, hi as int));
        let u = v@.subrange(a as int, hi as int);
        if u.len() > 0 {
            assert(u[0] == v@[a as int]);
        }
        assert(trim_start(u) == u);
    }
    let mut b = hi;
    while b > a && is_whitespace(v[b - 1])
        invariant
            lo <= a <= b <= hi <= v@.len(),
            forall|k: int| b <= k < hi ==> is_ws(v@[k]),
        decreases b - a,
    {
        b = b - 1;
    }
    proof {
        let u = v@.subrange(a as int, hi as int);
        assert forall|k: int| b - a <= k < u.len() implies is_ws(u[k]) by {
            assert(u[k] == v@[a + k]);
        }
        lemma_trim_end_take(u, b - a);
        assert(u.take(b - a) =~= v@.subrange(a as int, b as int));
        let w = v@.subrange(a as int, b as int);
        if w.len() > 0 {
            assert(w.last() == v@[b - 1]);
        }
        assert(trim_end(w) == w);
    }
    (a, b)
}

/// The characters `[a, b)` of `s` as an owned string.
pub fn slice_string(s: &str, a: usize, b: usize) -> (r: String)
    requires
        a <= b <= s@.len(),
    ensures
        r@ == s@.subrange(a as int, b as int),
{
    s.substring_char(a, b).to_owned()
}

// ---------------------------------------------------------------------------
// Decimal numbers
// ---------------------------------------------------------------------------

pub open spec fn is_digit(c: char) -> bool {
    '0' <= c && c <= '9'
}

pub open spec fn all_digits(d: Seq<char>) -> bool {
    forall|i: int| 0 <= i < d.len() ==> is_digit(#[trigger] d[i])
}

/// The value of a string of decimal digits.
pub open spec fn digits_value(d: Seq<char>) -> int
    decreases d.len(),
{
    if d.len() == 0 {
        0
    } else {
        digits_value(d.drop_last()) * 10 + (d.last() as int - '0' as int)
    }
}

/// `str::parse::<usize>`: an optional `+`, then at least one decimal digit,
/// with a value that fits a `usize`.
pub open spec fn parsed_usize(s: Seq<char>) -> Option<int> {
    let d = if s.len() > 0 && s[0] == '+' {
        s.drop_first()
    } else {
        s
    };
    if d.len() > 0 && all_digits(d) && digits_value(d) <= usize::MAX {
        Some(digits_value(d))
    } else {
        None
    }
}

pub proof fn lemma_digits_value_prefix(d: Seq<char>, i: int)
    requires
        0 <= i <= d.len(),
        all_digits(d),
    ensures
        0 <= digits_value(d.take(i)) <= digits_value(d),
    decreases d.len() - i,
{
    if i < d.len() {
        lemma_digits_value_prefix(d, i + 1);
        assert(d.take(i + 1).drop_last() =~= d.take(i));
        assert(is_digit(d[i]));
        lemma_digits_value_nonneg(d.take(i));
    } else {
        assert(d.take(i) =~= d);
        lemma_digits_value_nonneg(d);
    }
}

pub proof fn lemma_digits_value_nonneg(d: Seq<char>)
    requires
        all_digits(d),
    ensures
        digits_value(d) >= 0,
    decreases d.len(),
{
    if d.len() > 0 {
        assert(is_digit(d.last()));
        lemma_digits_value_nonneg(d.drop_last());
    }
}

/// Parse a decimal `usize` as `str::parse` does.
pub fn parse_usize(s: &str) -> (r: Option<usize>)
    ensures
        r matches Some(n) ==> parsed_usize(s@) == Some(n as int),
        r is None ==> parsed_usize(s@) is None,
{
    let v = chars_of(s);
    let start: usize = if v.len() > 0 && v[0] == '+' {
        1
    } else {
        0
    };
    let ghost d = v@.subrange(start as int, v@.len() as int);
    proof {
        if start == 1 {
            assert(d =~= v@.drop_first());
        } else {
            assert(d =~= v@);
        }
    }
    if start == v.len() {
        return None;
    }
    let mut i = start;
    while i < v.len()
        invariant
            start <= i <= v@.len(),
            v@ == s@,
            d == v@.subrange(start as int, v@.len() as int),
            d == (if s@.len() > 0 && s@[0] == '+' {
                s@.drop_first()
            } else {
                s@
            }),
            forall|k: int| 0 <= k < i - start ==> is_digit(#[trigger] d[k]),
        decreases v@.len() - i,
    {
        if !('0' <= v[i] && v[i] <= '9') {
            assert(!is_digit(d[i - start]));
            return None;
        }
        i = i + 1;
    }
    assert(all_digits(d));
    let mut acc: usize = 0;
    let mut i = start;
    while i < v.len()
        invariant
            start <= i <= v@.len(),
            v@ == s@,
            d == v@.subrange(start as int, v@.len() as int),
            d == (if s@.len() > 0 && s@[0] == '+' {
                s@.drop_first()
            } else {
                s@
            }),
            all_digits(d),
            acc as int == digits_value(d.take(i - start)),
        decreases v@.len() - i,
    {
        let c = v[i];
        assert(c == d[i - start]);
        let digit = (c as u32 - '0' as u32) as usize;
        assert(digit as int == c as int - '0' as int);
        assert(0 <= digit <= 9);
        proof {
            assert(d.take(i - start + 1).drop_last() =~= d.take(i - start));
            assert(d.take(i - start + 1).last() == c);
            lemma_digits_value_prefix(d, i - start + 1);
        }
        match acc.checked_mul(10) {
            Some(m) => match m.checked_add(digit) {
                Some(n) => {
                    acc = n;
                },
                None => {
                    return None;
                },
            },
            None => {
                proof {
                    lemma_digits_value_nonneg(d.take(i - start));
                }
                return None;
            },
        }
        i = i + 1;
    }
    assert(d.take(i - start) =~= d);
    Some(acc)
}

/// The digit for `d` (0 to 9).
pub open spec fn digit_char(d: int) -> char {
    if d <= 0 {
        '0'
    } else if d == 1 {
        '1'
    } else if d == 2 {
        '2'
    } else if d == 3 {
        '3'
    } else if d == 4 {
        '4'
    } else if d == 5 {
        '5'
    } else if d == 6 {
        '6'
    } else if d == 7 {
        '7'
    } else if d == 8 {
        '8'
    } else {
        '9'
    }
}

/// The decimal digits of `n`, without leading zeros (`"0"` for zero).
pub open spec fn decimal_text(n: nat) -> Seq<char>
    decreases n,
{
    if n < 10 {
        seq![digit_char(n as int)]
    } else {
        decimal_text(n / 10).push(digit_char((n % 10) as int))
    }
}

/// The decimal text of `n` reads back as `n`.
pub proof fn lemma_decimal_value(n: nat)
    ensures
        decimal_text(n).len() > 0,
        all_digits(decimal_text(n)),
        digits_value(decimal_text(n)) == n,
    decreases n,
{
    if n >= 10 {
        lemma_decimal_value(n / 10);
        let t = decimal_text(n);
        assert(t.drop_last() =~= decimal_text(n / 10));
        assert(t.last() == digit_char((n % 10) as int));
        assert(digit_char((n % 10) as int) as int - '0' as int == n % 10);
        assert(n == (n / 10) * 10 + n % 10);
        assert(digits_value(t) == digits_value(t.drop_last()) * 10 + (t.last() as int - '0' as int));
        assert forall|i: int| 0 <= i < t.len() implies is_digit(#[trigger] t[i]) by {
            if i < t.len() - 1 {
                assert(t[i] == decimal_text(n / 10)[i]);
            }
        }
    } else {
        assert(decimal_text(n).drop_last() =~= Seq::<char>::empty());
        assert(digit_char(n as int) as int - '0' as int == n);
        assert(is_digit(decimal_text(n)[0]));
        let t = decimal_text(n);
        assert(digits_value(t) == digits_value(t.drop_last()) * 10 + (t.last() as int - '0' as int));
        assert(digits_value(t.drop_last()) == 0);
    }
}

fn digit_str(d: usize) -> (r: &'static str)
    requires
        d < 10,
    ensures
        r@ == seq![digit_char(d as int)],
{
    proof {
        reveal_strlit("0");
        reveal_strlit("1");
        reveal_strlit("2");
        reveal_strlit("3");
        reveal_strlit("4");
        reveal_strlit("5");
        reveal_strlit("6");
        reveal_strlit("7");
        reveal_strlit("8");
        reveal_strlit("9");
    }
    match d {
        0 => "0",
        1 => "1",
        2 => "2",
        3 => "3",
        4 => "4",
        5 => "5",
        6 => "6",
        7 => "7",
        8 => "8",
        _ => "9",
    }
}

/// `n` written in decimal (`usize::to_string`).
pub fn decimal(n: usize) -> (r: String)
    ensures
        r@ == decimal_text(n as nat),
    decreases n,
{
    let mut s = if n >= 10 {
        decimal(n / 10)
    } else {
        String::new()
    };
    let ghost before = s@;
    s.append(digit_str(n % 10));
    proof {
        if n < 10 {
            assert(s@ =~= seq![digit_char(n as int)]);
        } else {
            assert(s@ =~= before.push(digit_char((n % 10) as int)));
        }
    }
    s
}

} // verus!
