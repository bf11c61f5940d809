//! Text search: case-insensitive substring and regular-expression matching
//! of commits, and the filters behind the lists shown to the user.

use vstd::prelude::*;
use crate::text::{chars_of, has_substring, substring_at};
use crate::types::{opt_text, CommitEntry, Worktree};

verus! {

// ---------------------------------------------------------------------------
// Calls into std and the regex crate (contracts believed, not proved)
// ---------------------------------------------------------------------------

/// What `str::to_lowercase` returns for a text (full Unicode lowercase mapping).
pub uninterp spec fn lowercase_of(s: Seq<char>) -> Seq<char>;

/// Lowercase a text with `str::to_lowercase`; the result is `lowercase_of`
/// of the text and nothing more is claimed of it.
#[verifier::external_body]
pub(crate) fn lowercase(s: &str) -> (r: String)
    ensures
        r@ == lowercase_of(s@),
{
    s.to_lowercase()
}

#[verifier::external_type_specification]
#[verifier::external_body]
pub struct ExRegex(regex::Regex);

/// Whether `regex::RegexBuilder::new(p).case_insensitive(true).build()` succeeds.
pub uninterp spec fn pattern_compiles(p: Seq<char>) -> bool;

/// What `is_match` of the case-insensitive regex compiled from `p` returns on `text`.
pub uninterp spec fn regex_match(p: Seq<char>, text: Seq<char>) -> bool;

/// A case-insensitive regular expression together with its source text.
/// Only `compile_pattern` makes one, so `re` is always compiled from `source`.
/// The fields stay private to this module: `pattern_matches` relies on `re`
/// being the expression compiled from `source`.
pub struct SearchPattern {
    source: String,
    re: regex::Regex,
}

impl SearchPattern {
    /// The pattern text the expression was compiled from.
    pub closed spec fn source_text(&self) -> Seq<char> {
        self.source@
    }
}

/// Compile `pattern` case-insensitively with `regex::RegexBuilder`
/// (`new`, `case_insensitive(true)`, `build`). Claims only that it succeeds
/// exactly when `pattern_compiles` holds of the pattern, and that the result
/// remembers the pattern.
#[verifier::external_body]
pub(crate) fn compile_pattern(pattern: &str) -> (r: Option<SearchPattern>)
    ensures
        r is Some <==> pattern_compiles(pattern@),
        r matches Some(sp) ==> sp.source_text() == pattern@,
{
    match regex::RegexBuilder::new(pattern).case_insensitive(true).build() {
        Ok(re) => Some(SearchPattern { source: pattern.to_owned(), re }),
        Err(_) => None,
    }
}

/// `regex::Regex::is_match`: claims only that the answer is `regex_match` of
/// the pattern's source and the text.
#[verifier::external_body]
pub(crate) fn pattern_matches(sp: &SearchPattern, text: &str) -> (b: bool)
    ensures
        b == regex_match(sp.source_text(), text@),
{
    sp.re.is_match(text)
}

// ---------------------------------------------------------------------------
// Case-insensitive containment
// ---------------------------------------------------------------------------

/// `needle` (already lowercased) occurs in the lowercased `hay`.
pub open spec fn contains_ci(hay: Seq<char>, lowered_needle: Seq<char>) -> bool {
    has_substring(lowercase_of(hay), lowered_needle)
}

/// Does `lowered_needle` occur in the lowercase of `hay`?
pub fn contains_lowered(hay: &str, lowered_needle: &Vec<char>) -> (b: bool)
    ensures
        b == contains_ci(hay@, lowered_needle@),
{
    let h = lowercase(hay);
    let hv = chars_of(h.as_str());
    let b = substring_at(&hv, 0, hv.len(), lowered_needle);
    assert(hv@.subrange(0, hv@.len() as int) =~= hv@);
    b
}

/// A list filter: the lowercased filter text is empty, or occurs in the
/// lowercase of the item's text.
pub open spec fn filter_keeps(filter: Seq<char>, item: Seq<char>) -> bool {
    lowercase_of(filter).len() == 0 || contains_ci(item, lowercase_of(filter))
}

/// Positions of the items of `items` (in order) that satisfy `keep`.
pub open spec fn kept_positions(n: int, keep: spec_fn(int) -> bool) -> Seq<int>
    decreases n,
{
    if n <= 0 {
        Seq::empty()
    } else if keep(n - 1) {
        kept_positions(n - 1, keep).push(n - 1)
    } else {
        kept_positions(n - 1, keep)
    }
}

/// A filter keeps exactly the items it matches, each once, in their order:
/// the kept positions lie in range, match, strictly increase, and every
/// matching position is among them.
pub proof fn law_kept_positions(n: int, keep: spec_fn(int) -> bool)
    ensures
        forall|j: int|
            0 <= j < kept_positions(n, keep).len() ==> 0 <= #[trigger] kept_positions(n, keep)[j] < n
                && keep(kept_positions(n, keep)[j]),
        forall|j1: int, j2: int|
            0 <= j1 < j2 < kept_positions(n, keep).len() ==> #[trigger] kept_positions(n, keep)[j1]
                < #[trigger] kept_positions(n, keep)[j2],
        forall|i: int| 0 <= i < n && #[trigger] keep(i) ==> kept_positions(n, keep).contains(i),
    decreases n,
{
    if n > 0 {
        law_kept_positions(n - 1, keep);
        let prev = kept_positions(n - 1, keep);
        if keep(n - 1) {
            assert(kept_positions(n, keep) == prev.push(n - 1));
            assert forall|i: int| 0 <= i < n && #[trigger] keep(i) implies kept_positions(
                n,
                keep,
            ).contains(i) by {
                if i < n - 1 {
                    let j = choose|j: int| 0 <= j < prev.len() && prev[j] == i;
                    assert(kept_positions(n, keep)[j] == i);
                } else {
                    assert(kept_positions(n, keep)[prev.len() as int] == i);
                }
            }
        } else {
            assert(kept_positions(n, keep) == prev);
        }
    }
}

pub open spec fn index_views(v: Seq<usize>) -> Seq<int> {
    v.map_values(|i: usize| i as int)
}

/// Positions (in order) of the names that the filter keeps.
pub fn filter_names(names: &Vec<String>, filter: &str) -> (idx: Vec<usize>)
    ensures
        index_views(idx@) == kept_positions(
            names@.len() as int,
            |i: int| filter_keeps(filter@, names@[i]@),
        ),
{
    let lf = lowercase(filter);
    let lv = chars_of(lf.as_str());
    let ghost keep = |i: int| filter_keeps(filter@, names@[i]@);
    let mut idx: Vec<usize> = Vec::new();
    let mut i: usize = 0;
    while i < names.len()
        invariant
            lv@ == lowercase_of(filter@),
            keep == (|i: int| filter_keeps(filter@, names@[i]@)),
            i <= names@.len(),
            index_views(idx@) == kept_positions(i as int, keep),
        decreases names@.len() - i,
    {
        let k = lv.len() == 0 || contains_lowered(names[i].as_str(), &lv);
        assert(k == keep(i as int));
        if k {
            let ghost prev = idx@;
            idx.push(i);
            assert(index_views(idx@) =~= index_views(prev).push(i as int));
        }
        i = i + 1;
    }
    idx
}

/// The worktree list filter: keeps a worktree whose path or branch (the
/// empty text when detached) contains the filter, ignoring case.
pub open spec fn worktree_filter_keeps(filter: Seq<char>, w: Worktree) -> bool {
    let lf = lowercase_of(filter);
    lf.len() == 0 || contains_ci(w.path@, lf) || contains_ci(
        match opt_text(w.branch) {
            Some(b) => b,
            None => Seq::empty(),
        },
        lf,
    )
}

/// Positions (in order) of the worktrees that the filter keeps.
pub fn filter_worktrees(wts: &Vec<Worktree>, filter: &str) -> (idx: Vec<usize>)
    ensures
        index_views(idx@) == kept_positions(
            wts@.len() as int,
            |i: int| worktree_filter_keeps(filter@, wts@[i]),
        ),
{
    let lf = lowercase(filter);
    let lv = chars_of(lf.as_str());
    let ghost keep = |i: int| worktree_filter_keeps(filter@, wts@[i]);
    let mut idx: Vec<usize> = Vec::new();
    let mut i: usize = 0;
    while i < wts.len()
        invariant
            lv@ == lowercase_of(filter@),
            keep == (|i: int| worktree_filter_keeps(filter@, wts@[i])),
            i <= wts@.len(),
            index_views(idx@) == kept_positions(i as int, keep),
        decreases wts@.len() - i,
    {
        let w = &wts[i];
        let k = if lv.len() == 0 {
            true
        } else if contains_lowered(w.path.as_str(), &lv) {
            true
        } else {
            match &w.branch {
                Some(b) => contains_lowered(b.as_str(), &lv),
                None => contains_lowered("", &lv),
            }
        };
        proof {
            if w.branch is None {
                assert(""@ =~= Seq::<char>::empty()) by {
                    reveal_strlit("");
                }
            }
        }
        assert(k == keep(i as int));
        if k {
            let ghost prev = idx@;
            idx.push(i);
            assert(index_views(idx@) =~= index_views(prev).push(i as int));
        }
        i = i + 1;
    }
    idx
}

// ---------------------------------------------------------------------------
// Commit search
// ---------------------------------------------------------------------------

/// The search fields of the history viewer.
#[derive(Debug, Clone, PartialEq, Eq)]
pub struct CommitSearch {
    pub hash: String,
    pub message: String,
    pub date: String,
    pub author: String,
    /// Treat the fields as case-insensitive regular expressions.
    pub regex: bool,
}

/// Some field is filled in.
pub open spec fn search_active(s: CommitSearch) -> bool {
    s.hash@.len() > 0 || s.message@.len() > 0 || s.date@.len() > 0 || s.author@.len() > 0
}

/// One field against one value: an empty query matches; in regex mode a
/// query that compiles is matched as a regex; otherwise (also when it does
/// not compile) it is a case-insensitive substring.
pub open spec fn query_matches(q: Seq<char>, use_regex: bool, v: Seq<char>) -> bool {
    if q.len() == 0 {
        true
    } else if use_regex && pattern_compiles(q) {
        regex_match(q, v)
    } else {
        contains_ci(v, lowercase_of(q))
    }
}

/// A commit matches when every field matches; the hash field may match the
/// full or the short hash.
pub open spec fn commit_matches(s: CommitSearch, c: CommitEntry) -> bool {
    &&& (query_matches(s.hash@, s.regex, c.hash@) || query_matches(
        s.hash@,
        s.regex,
        c.short_hash@,
    ))
    &&& query_matches(s.message@, s.regex, c.subject@)
    &&& query_matches(s.date@, s.regex, c.date@)
    &&& query_matches(s.author@, s.regex, c.author@)
}

/// The positions of the matching commits; none at all while no field is
/// filled in.
pub open spec fn search_results(s: CommitSearch, cs: Seq<CommitEntry>) -> Seq<int> {
    if !search_active(s) {
        Seq::empty()
    } else {
        kept_positions(cs.len() as int, |i: int| commit_matches(s, cs[i]))
    }
}

/// Every field of the search counts: a found commit matches each filled
/// field (its hash field by the full or the short hash, its message field by
/// the subject, its date field by the date, its author field by the
/// author), every commit that matches them all is found, each found commit
/// lies in range, and an empty search finds nothing.
pub proof fn law_search_matches_every_field(s: CommitSearch, cs: Seq<CommitEntry>)
    ensures
        !search_active(s) ==> search_results(s, cs).len() == 0,
        forall|j: int|
            0 <= j < search_results(s, cs).len() ==> {
                let i = #[trigger] search_results(s, cs)[j];
                &&& 0 <= i < cs.len()
                &&& query_matches(s.hash@, s.regex, cs[i].hash@) || query_matches(
                    s.hash@,
                    s.regex,
                    cs[i].short_hash@,
                )
                &&& query_matches(s.message@, s.regex, cs[i].subject@)
                &&& query_matches(s.date@, s.regex, cs[i].date@)
                &&& query_matches(s.author@, s.regex, cs[i].author@)
            },
        forall|i: int|
            0 <= i < cs.len() && search_active(s) && (query_matches(s.hash@, s.regex, cs[i].hash@)
                || query_matches(s.hash@, s.regex, cs[i].short_hash@)) && query_matches(
                s.message@,
                s.regex,
                cs[i].subject@,
            ) && query_matches(s.date@, s.regex, cs[i].date@) && query_matches(
                s.author@,
                s.regex,
                cs[i].author@,
            ) ==> #[trigger] search_results(s, cs).contains(i),
{
    let keep = |i: int| commit_matches(s, cs[i]);
    law_kept_positions(cs.len() as int, keep);
    if search_active(s) {
        let r = kept_positions(cs.len() as int, keep);
        assert(search_results(s, cs) == r);
        assert forall|i: int|
            0 <= i < cs.len() && commit_matches(s, cs[i]) implies #[trigger] r.contains(i) by {
            assert(keep(i));
        }
        assert forall|j: int| 0 <= j < r.len() implies commit_matches(s, cs[#[trigger] r[j]]) by {
            assert(keep(r[j]));
        }
    }
}

/// A query prepared for matching: its text, its lowercase, and its compiled
/// form when regex mode is on and it compiles.
struct PreparedQuery {
    text: String,
    lowered: Vec<char>,
    compiled: Option<SearchPattern>,
}

spec fn prepared_for(p: PreparedQuery, q: Seq<char>, use_regex: bool) -> bool {
    &&& p.text@ == q
    &&& p.lowered@ == lowercase_of(q)
    &&& (p.compiled is Some <==> use_regex && q.len() > 0 && pattern_compiles(q))
    &&& (p.compiled matches Some(sp) ==> sp.source_text() == q)
}

fn prepare(q: &String, use_regex: bool) -> (p: PreparedQuery)
    ensures
        prepared_for(p, q@, use_regex),
{
    let l = lowercase(q.as_str());
    let compiled = if use_regex && !q.as_str().is_empty() {
        compile_pattern(q.as_str())
    } else {
        None
    };
    PreparedQuery { text: q.clone(), lowered: chars_of(l.as_str()), compiled }
}

fn matches_value(p: &PreparedQuery, v: &str, Ghost(use_regex): Ghost<bool>) -> (b: bool)
    requires
        prepared_for(*p, p.text@, use_regex),
    ensures
        b == query_matches(p.text@, use_regex, v@),
{
    if p.text.as_str().is_empty() {
        return true;
    }
    match &p.compiled {
        Some(sp) => pattern_matches(sp, v),
        None => contains_lowered(v, &p.lowered),
    }
}

/// The positions of the commits matching the search, in order; empty when
/// no field is filled in.
pub fn filter_commits(s: &CommitSearch, commits: &Vec<CommitEntry>) -> (idx: Vec<usize>)
    ensures
        index_views(idx@) == search_results(*s, commits@),
{
    if s.hash.as_str().is_empty() && s.message.as_str().is_empty() && s.date.as_str().is_empty()
        && s.author.as_str().is_empty() {
        return Vec::new();
    }
    let ph = prepare(&s.hash, s.regex);
    let pm = prepare(&s.message, s.regex);
    let pd = prepare(&s.date, s.regex);
    let pa = prepare(&s.author, s.regex);
    let ghost keep = |i: int| commit_matches(*s, commits@[i]);
    let mut idx: Vec<usize> = Vec::new();
    let mut i: usize = 0;
    while i < commits.len()
        invariant
            search_active(*s),
            prepared_for(ph, s.hash@, s.regex),
            prepared_for(pm, s.message@, s.regex),
            prepared_for(pd, s.date@, s.regex),
            prepared_for(pa, s.author@, s.regex),
            keep == (|i: int| commit_matches(*s, commits@[i])),
            i <= commits@.len(),
            index_views(idx@) == kept_positions(i as int, keep),
        decreases commits@.len() - i,
    {
        let c = &commits[i];
        let mh = matches_value(&ph, c.hash.as_str(), Ghost(s.regex)) || matches_value(
            &ph,
            c.short_hash.as_str(),
            Ghost(s.regex),
        );
        let k = mh && matches_value(&pm, c.subject.as_str(), Ghost(s.regex)) && matches_value(
            &pd,
            c.date.as_str(),
            Ghost(s.regex),
        ) && matches_value(&pa, c.author.as_str(), Ghost(s.regex));
        assert(k == keep(i as int));
        if k {
            let ghost prev = idx@;
            idx.push(i);
            assert(index_views(idx@) =~= index_views(prev).push(i as int));
        }
        i = i + 1;
    }
    idx
}

/// Positions (in order) of the repositories whose name the filter keeps.
pub fn filter_repositories(repos: &Vec<crate::types::Repository>, filter: &str) -> (idx: Vec<usize>)
    ensures
        index_views(idx@) == kept_positions(
            repos@.len() as int,
            |i: int| filter_keeps(filter@, repos@[i].name@),
        ),
{
    let lf = lowercase(filter);
    let lv = chars_of(lf.as_str());
    let ghost keep = |i: int| filter_keeps(filter@, repos@[i].name@);
    let mut idx: Vec<usize> = Vec::new();
    let mut i: usize = 0;
    while i < repos.len()
        invariant
            lv@ == lowercase_of(filter@),
            keep == (|i: int| filter_keeps(filter@, repos@[i].name@)),
            i <= repos@.len(),
            index_views(idx@) == kept_positions(i as int, keep),
        decreases repos@.len() - i,
    {
        let k = lv.len() == 0 || contains_lowered(repos[i].name.as_str(), &lv);
        assert(k == keep(i as int));
        if k {
            let ghost prev = idx@;
            idx.push(i);
            assert(index_views(idx@) =~= index_views(prev).push(i as int));
        }
        i = i + 1;
    }
    idx
}

} // verus!
