//! Reading the history that `git log` prints for the viewer: one commit per
//! line, fields separated by the unit separator `U+001F`, in the order hash,
//! short hash, subject, author date, author, refs, parent hashes (separated by
//! spaces).

use vstd::prelude::*;
use crate::git::{texts, GitCommand};
use crate::text::{chars_of, decimal, decimal_text, line_spans, lines, slice_string, span_texts, spans_in_bounds};
use crate::types::CommitEntry;

verus! {

/// Index of the first `c` at or after `i`, or `s.len()` when there is none.
pub open spec fn find_char(s: Seq<char>, c: char, i: int) -> int
    decreases s.len() - i,
{
    if i < 0 || i >= s.len() {
        s.len() as int
    } else if s[i] == c {
        i
    } else {
        find_char(s, c, i + 1)
    }
}

pub proof fn lemma_find_char_bounds(s: Seq<char>, c: char, i: int)
    requires
        0 <= i <= s.len(),
    ensures
        i <= find_char(s, c, i) <= s.len(),
        find_char(s, c, i) < s.len() ==> s[find_char(s, c, i)] == c,
    decreases s.len() - i,
{
    if i < s.len() && s[i] != c {
        lemma_find_char_bounds(s, c, i + 1);
    }
}

/// When no `c` lies in `[i, j)` the search from `i` goes on at `j`.
pub proof fn lemma_find_char_skip(s: Seq<char>, c: char, i: int, j: int)
    requires
        0 <= i <= j <= s.len(),
        forall|k: int| i <= k < j ==> s[k] != c,
    ensures
        find_char(s, c, i) == find_char(s, c, j),
    decreases j - i,
{
    if i < j {
        lemma_find_char_skip(s, c, i + 1, j);
    }
}

/// The pieces of `s[start..]` between the separators `c` (`str::split`).
pub open spec fn split_from(s: Seq<char>, c: char, start: int) -> Seq<Seq<char>>
    decreases s.len() - start,
{
    if start < 0 || start > s.len() {
        Seq::empty()
    } else {
        let e = find_char(s, c, start);
        if e >= s.len() {
            seq![s.subrange(start, s.len() as int)]
        } else {
            proof {
                lemma_find_char_bounds(s, c, start);
            }
            seq![s.subrange(start, e)] + split_from(s, c, e + 1)
        }
    }
}

/// `str::split` on one character: at least one piece, empty pieces kept.
pub open spec fn split_on(s: Seq<char>, c: char) -> Seq<Seq<char>> {
    split_from(s, c, 0)
}

/// The `[start, end)` spans of the pieces of `v[lo..hi]` between separators `c`.
fn split_spans(v: &Vec<char>, lo: usize, hi: usize, c: char) -> (spans: Vec<(usize, usize)>)
    requires
        lo <= hi <= v@.len(),
    ensures
        spans_in_bounds(v@, spans@),
        span_texts(v@, spans@) == split_on(v@.subrange(lo as int, hi as int), c),
{
    let ghost s = v@.subrange(lo as int, hi as int);
    let mut spans: Vec<(usize, usize)> = Vec::new();
    let mut start: usize = lo;
    let mut i: usize = lo;
    while i < hi
        invariant
            lo <= start <= i <= hi <= v@.len(),
            s == v@.subrange(lo as int, hi as int),
            forall|k: int| start <= k < i ==> v@[k] != c,
            spans_in_bounds(v@, spans@),
            split_on(s, c) == span_texts(v@, spans@) + split_from(s, c, start - lo),
        decreases hi - i,
    {
        if v[i] == c {
            proof {
                assert forall|k: int| start - lo <= k < i - lo implies s[k] != c by {
                    assert(s[k] == v@[k + lo]);
                }
                lemma_find_char_skip(s, c, start - lo, i - lo);
                assert(s[i - lo] == c);
                assert(s.subrange(start - lo, i - lo) =~= v@.subrange(start as int, i as int));
                let old_spans = spans@;
                assert(span_texts(v@, old_spans.push((start, i))) =~= span_texts(v@, old_spans).push(
                    v@.subrange(start as int, i as int),
                ));
                assert(split_from(s, c, start - lo) =~= seq![s.subrange(start - lo, i - lo)]
                    + split_from(s, c, i - lo + 1));
            }
            spans.push((start, i));
            start = i + 1;
        }
        i = i + 1;
    }
    proof {
        assert forall|k: int| start - lo <= k < hi - lo implies s[k] != c by {
            assert(s[k] == v@[k + lo]);
        }
        lemma_find_char_skip(s, c, start - lo, hi - lo);
        assert(s.subrange(start - lo, hi - lo) =~= v@.subrange(start as int, hi as int));
        let old_spans = spans@;
        assert(span_texts(v@, old_spans.push((start, hi))) =~= span_texts(v@, old_spans).push(
            v@.subrange(start as int, hi as int),
        ));
        assert(split_from(s, c, start - lo) =~= seq![s.subrange(start - lo, hi - lo)]);
    }
    spans.push((start, hi));
    proof {
        assert(split_on(s, c) =~= span_texts(v@, spans@));
    }
    spans
}

/// The field separator of the log format.
pub open spec fn field_separator() -> char {
    '\u{1f}'
}

/// The parent hashes: the pieces between spaces that are not empty.
pub open spec fn parent_list(f: Seq<char>) -> Seq<Seq<char>> {
    split_on(f, ' ').filter(|p: Seq<char>| p.len() > 0)
}

/// What a commit line holds: at least the seven fields of the format.
pub open spec fn is_commit_line(line: Seq<char>) -> bool {
    split_on(line, field_separator()).len() >= 7
}

/// The value of a commit read from a line.
pub struct CommitView {
    pub hash: Seq<char>,
    pub short_hash: Seq<char>,
    pub subject: Seq<char>,
    pub date: Seq<char>,
    pub author: Seq<char>,
    pub refs: Seq<char>,
    pub parents: Seq<Seq<char>>,
}

pub open spec fn commit_view(c: CommitEntry) -> CommitView {
    CommitView {
        hash: c.hash@,
        short_hash: c.short_hash@,
        subject: c.subject@,
        date: c.date@,
        author: c.author@,
        refs: c.refs@,
        parents: crate::git::texts(c.parents@),
    }
}

/// The commit that a commit line describes.
pub open spec fn commit_of_line(line: Seq<char>) -> CommitView {
    let f = split_on(line, field_separator());
    CommitView {
        hash: f[0],
        short_hash: f[1],
        subject: f[2],
        date: f[3],
        author: f[4],
        refs: f[5],
        parents: parent_list(f[6]),
    }
}

/// The commits of a log, in order; lines that are not commit lines are
/// passed over.
pub open spec fn log_commits(ls: Seq<Seq<char>>) -> Seq<CommitView>
    decreases ls.len(),
{
    if ls.len() == 0 {
        Seq::empty()
    } else if is_commit_line(ls.last()) {
        log_commits(ls.drop_last()).push(commit_of_line(ls.last()))
    } else {
        log_commits(ls.drop_last())
    }
}

/// The fields of line `l`, read as a commit, are those of `c`: the hash is
/// the first field, then the short hash, the subject, the date, the author,
/// the refs, and the parents from the seventh.
pub open spec fn fields_hold(l: Seq<char>, c: CommitView) -> bool {
    let f = split_on(l, field_separator());
    &&& f.len() >= 7
    &&& c.hash == f[0]
    &&& c.short_hash == f[1]
    &&& c.subject == f[2]
    &&& c.date == f[3]
    &&& c.author == f[4]
    &&& c.refs == f[5]
    &&& c.parents == split_on(f[6], ' ').filter(|p: Seq<char>| p.len() > 0)
}

/// Each commit read from a log comes from one of its lines, field by field
/// at the same positions; and a log that ends in a line with all seven
/// fields yields that line's commit last.
pub proof fn law_log_fields_in_place(ls: Seq<Seq<char>>)
    ensures
        forall|j: int|
            0 <= j < log_commits(ls).len() ==> exists|i: int|
                0 <= i < ls.len() && fields_hold(ls[i], #[trigger] log_commits(ls)[j]),
        ls.len() > 0 && split_on(ls.last(), field_separator()).len() >= 7 ==> log_commits(ls).len() > 0
            && fields_hold(ls.last(), log_commits(ls).last()),
    decreases ls.len(),
{
    if ls.len() > 0 {
        let prev = ls.drop_last();
        law_log_fields_in_place(prev);
        let r = log_commits(ls);
        assert forall|j: int| 0 <= j < r.len() implies exists|i: int|
            0 <= i < ls.len() && fields_hold(ls[i], #[trigger] r[j]) by {
            if j < log_commits(prev).len() {
                let i = choose|i: int| 0 <= i < prev.len() && fields_hold(prev[i], log_commits(prev)[j]);
                assert(ls[i] == prev[i]);
                assert(r[j] == log_commits(prev)[j]);
            } else {
                assert(fields_hold(ls[ls.len() - 1], r[j]));
            }
        }
    }
}

/// The texts of the spans, as strings.
fn span_strings(s: &str, v: &Vec<char>, spans: &Vec<(usize, usize)>) -> (r: Vec<String>)
    requires
        v@ == s@,
        spans_in_bounds(v@, spans@),
    ensures
        crate::git::texts(r@) == span_texts(v@, spans@),
{
    let mut r: Vec<String> = Vec::new();
    let mut k: usize = 0;
    while k < spans.len()
        invariant
            v@ == s@,
            spans_in_bounds(v@, spans@),
            k <= spans@.len(),
            crate::git::texts(r@) == span_texts(v@, spans@).take(k as int),
        decreases spans@.len() - k,
    {
        let (a, b) = spans[k];
        assert(spans@[k as int].0 <= spans@[k as int].1 <= v@.len());
        let piece = slice_string(s, a, b);
        let ghost prev = r@;
        r.push(piece);
        assert(crate::git::texts(r@) =~= crate::git::texts(prev).push(piece@));
        assert(span_texts(v@, spans@).take(k + 1) =~= span_texts(v@, spans@).take(k as int).push(
            piece@,
        ));
        k = k + 1;
    }
    assert(span_texts(v@, spans@).take(k as int) =~= span_texts(v@, spans@));
    r
}

/// The non-empty pieces of `s` between spaces.
fn parents_of(s: &str) -> (r: Vec<String>)
    ensures
        crate::git::texts(r@) == parent_list(s@),
{
    let v = chars_of(s);
    let spans = split_spans(&v, 0, v.len(), ' ');
    assert(v@.subrange(0, v@.len() as int) =~= v@);
    let pieces = span_strings(s, &v, &spans);
    let ghost all = crate::git::texts(pieces@);
    let ghost keep = |p: Seq<char>| p.len() > 0;
    let mut r: Vec<String> = Vec::new();
    let mut k: usize = 0;
    while k < pieces.len()
        invariant
            all == crate::git::texts(pieces@),
            all == split_on(s@, ' '),
            keep == (|p: Seq<char>| p.len() > 0),
            k <= pieces@.len(),
            crate::git::texts(r@) == all.take(k as int).filter(keep),
        decreases pieces@.len() - k,
    {
        proof {
            assert(all.take(k + 1) =~= all.take(k as int).push(all[k as int]));
            all.take(k as int).lemma_filter_push(all[k as int], keep);
            assert(all[k as int] == pieces@[k as int]@);
        }
        let nonempty = pieces[k].as_str().unicode_len() > 0;
        assert(nonempty == keep(all[k as int]));
        if nonempty {
            let ghost prev = r@;
            r.push(pieces[k].clone());
            assert(crate::git::texts(r@) =~= crate::git::texts(prev).push(pieces@[k as int]@));
        }
        k = k + 1;
    }
    assert(all.take(k as int) =~= all);
    r
}

/// Read the commits that `git log` printed in the viewer's format.
pub fn parse_log(output: &str) -> (commits: Vec<CommitEntry>)
    ensures
        commits@.map_values(|c: CommitEntry| commit_view(c)) == log_commits(lines(output@)),
{
    let v = chars_of(output);
    let line_sp = line_spans(&v);
    let ghost ls = lines(output@);
    let mut commits: Vec<CommitEntry> = Vec::new();
    let mut k: usize = 0;
    while k < line_sp.len()
        invariant
            v@ == output@,
            ls == lines(output@),
            spans_in_bounds(v@, line_sp@),
            span_texts(v@, line_sp@) == ls,
            k <= line_sp@.len(),
            commits@.map_values(|c: CommitEntry| commit_view(c)) == log_commits(ls.take(k as int)),
        decreases line_sp@.len() - k,
    {
        let (a, b) = line_sp[k];
        assert(line_sp@[k as int].0 <= line_sp@[k as int].1 <= v@.len());
        let ghost line = ls[k as int];
        assert(line == v@.subrange(a as int, b as int));
        assert(ls.take(k + 1).drop_last() =~= ls.take(k as int));
        assert(ls.take(k + 1).last() == line);
        let fields = split_spans(&v, a, b, '\u{1f}');
        if fields.len() >= 7 {
            let f = span_strings(output, &v, &fields);
            let ghost fs = split_on(line, field_separator());
            assert(crate::git::texts(f@) == fs);
            let c = CommitEntry {
                hash: f[0].clone(),
                short_hash: f[1].clone(),
                subject: f[2].clone(),
                date: f[3].clone(),
                author: f[4].clone(),
                refs: f[5].clone(),
                parents: parents_of(f[6].as_str()),
            };
            assert(f@[0]@ == fs[0] && f@[1]@ == fs[1] && f@[2]@ == fs[2] && f@[3]@ == fs[3]);
            assert(f@[4]@ == fs[4] && f@[5]@ == fs[5] && f@[6]@ == fs[6]);
            assert(commit_view(c) == commit_of_line(line));
            let ghost prev = commits@;
            commits.push(c);
            assert(commits@.map_values(|c: CommitEntry| commit_view(c)) =~= prev.map_values(
                |c: CommitEntry| commit_view(c),
            ).push(commit_view(c)));
        }
        k = k + 1;
    }
    assert(ls.take(k as int) =~= ls);
    commits
}

/// The format that asks `git log` for the fields `parse_log` reads.
pub open spec fn log_format() -> Seq<char> {
    "--format=%H%x1f%h%x1f%s%x1f%aI%x1f%an%x1f%D%x1f%P"@
}

/// `git log --topo-order` in the viewer's format: at most `count` commits
/// after skipping `skip`, of the given branches or of all refs.
pub open spec fn log_args(count: nat, skip: nat, branches: Option<Seq<Seq<char>>>) -> Seq<Seq<char>> {
    seq![
        "log"@,
        "--topo-order"@,
        log_format(),
        "--max-count="@ + decimal_text(count),
        "--skip="@ + decimal_text(skip),
    ] + match branches {
        Some(bs) => bs,
        None => seq!["--all"@],
    } + seq!["--"@]
}

pub open spec fn opt_texts(b: Option<&Vec<String>>) -> Option<Seq<Seq<char>>> {
    match b {
        Some(v) => Some(texts(v@)),
        None => None,
    }
}

/// Plan the history load inside the repository; its output is read by
/// `parse_log`.
pub fn log_command(repo_path: &str, count: usize, skip: usize, branches: Option<&Vec<String>>) -> (c: GitCommand)
    ensures
        c@.args == log_args(count as nat, skip as nat, opt_texts(branches)),
        c@.cwd == Some(repo_path@),
{
    let mut args: Vec<String> = Vec::new();
    args.push("log".to_owned());
    args.push("--topo-order".to_owned());
    args.push("--format=%H%x1f%h%x1f%s%x1f%aI%x1f%an%x1f%D%x1f%P".to_owned());
    let mut max = "--max-count=".to_owned();
    max.append(decimal(count).as_str());
    args.push(max);
    let mut sk = "--skip=".to_owned();
    sk.append(decimal(skip).as_str());
    args.push(sk);
    let ghost head = texts(args@);
    let mut tail: Vec<String> = Vec::new();
    match branches {
        Some(bs) => {
            let mut i: usize = 0;
            while i < bs.len()
                invariant
                    i <= bs@.len(),
                    texts(tail@) == texts(bs@).take(i as int),
                decreases bs@.len() - i,
            {
                let ghost prev = tail@;
                tail.push(bs[i].clone());
                assert(texts(tail@) =~= texts(prev).push(bs@[i as int]@));
                assert(texts(bs@).take(i + 1) =~= texts(bs@).take(i as int).push(bs@[i as int]@));
                i = i + 1;
            }
            assert(texts(bs@).take(i as int) =~= texts(bs@));
        },
        None => {
            tail.push("--all".to_owned());
            assert(texts(tail@) =~= seq!["--all"@]);
        },
    }
    let ghost mid = texts(tail@);
    let mut i: usize = 0;
    while i < tail.len()
        invariant
            i <= tail@.len(),
            mid == texts(tail@),
            texts(args@) == head + mid.take(i as int),
        decreases tail@.len() - i,
    {
        let ghost prev = args@;
        args.push(tail[i].clone());
        assert(texts(args@) =~= texts(prev).push(tail@[i as int]@));
        assert(mid.take(i + 1) =~= mid.take(i as int).push(mid[i as int]));
        i = i + 1;
    }
    let ghost before = args@;
    args.push("--".to_owned());
    proof {
        assert(mid.take(i as int) =~= mid);
        assert(texts(args@) =~= texts(before).push("--"@));
        assert(head =~= seq![
            "log"@,
            "--topo-order"@,
            log_format(),
            "--max-count="@ + decimal_text(count as nat),
            "--skip="@ + decimal_text(skip as nat),
        ]);
        assert(texts(args@) =~= log_args(count as nat, skip as nat, opt_texts(branches)));
    }
    GitCommand { args, cwd: Some(repo_path.to_owned()) }
}

/// Plan `git show --stat --format=fuller <hash>` inside the repository.
pub fn detail_command(repo_path: &str, hash: &str) -> (c: GitCommand)
    ensures
        c@.args == seq!["show"@, "--stat"@, "--format=fuller"@, hash@],
        c@.cwd == Some(repo_path@),
{
    let mut args: Vec<String> = Vec::new();
    args.push("show".to_owned());
    args.push("--stat".to_owned());
    args.push("--format=fuller".to_owned());
    args.push(hash.to_owned());
    assert(texts(args@) =~= seq!["show"@, "--stat"@, "--format=fuller"@, hash@]);
    GitCommand { args, cwd: Some(repo_path.to_owned()) }
}

} // verus!
