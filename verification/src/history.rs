//! The decisions of the history viewer: which commits are loaded, which are
//! shown by the search, which branches are selected, and what the viewer
//! asks its surroundings to do next. Column widths and drawing are not here.

use vstd::prelude::*;
use crate::git::texts;
use crate::graph::{commit_keys, compute_graph, graph_rows, row_views, GraphRow, RowView};
use crate::search::{filter_commits, index_views, search_results, CommitSearch};
use crate::text::{all_digits, chars_of, is_digit, parse_usize, parsed_usize};
use crate::types::CommitEntry;

verus! {

/// Commits are loaded in pages of this many.
pub const PAGE_SIZE: usize = 200;

/// Which handler a batch of loaded commits goes to.
#[derive(Debug, Clone, Copy, PartialEq, Eq)]
pub enum CommitsReply {
    /// The next page of the history.
    Page,
    /// Commits loaded to reach the requested search depth.
    Search,
    /// The first page after the branch selection changed.
    BranchReload,
}

/// What the viewer asks its surroundings to do.
#[derive(Debug, Clone, PartialEq, Eq)]
pub enum HistoryRequest {
    Nothing,
    /// Load `count` commits after skipping `skip`, of the given branches
    /// (`None`: of all branches), and hand them to the `reply` handler.
    LoadCommits { skip: usize, count: usize, branches: Option<Vec<String>>, reply: CommitsReply },
    /// Load the branch names.
    LoadBranches,
    /// Load the details of the commit with this hash.
    LoadDetail(String),
    /// Put this text on the clipboard.
    CopyToClipboard(String),
}

/// The outcome of a step: a request, and whether the graph was laid out
/// anew (so that its column width may follow).
#[derive(Debug, Clone, PartialEq, Eq)]
pub struct HistoryEffect {
    pub request: HistoryRequest,
    pub graph_rebuilt: bool,
}

/// How the branch selector labels itself.
#[derive(Debug, Clone, Copy, PartialEq, Eq)]
pub enum BranchLabel {
    Loading,
    /// Every branch is selected; the number of branches.
    All(usize),
    /// Selected count and total count.
    Partial(usize, usize),
}

/// The viewer's state apart from layout widths.
pub struct HistoryState {
    pub repo_path: String,
    pub commits: Vec<CommitEntry>,
    pub graph_rows: Vec<GraphRow>,
    pub max_graph_cols: usize,
    pub selected_index: Option<usize>,
    pub loading: bool,
    pub all_loaded: bool,
    pub error: Option<String>,
    /// Position of the commit whose context menu is open.
    pub context_menu: Option<usize>,
    /// Details shown in the inspect dialog.
    pub inspect: Option<String>,
    pub search_depth: String,
    pub search: CommitSearch,
    pub filtered_indices: Vec<usize>,
    pub search_loading: bool,
    pub all_branches: Vec<String>,
    /// The selected branches, each once.
    pub selected_branches: Vec<String>,
    pub branch_filter_text: String,
    pub branch_dropdown_open: bool,
    pub branches_loading: bool,
}

/// The largest column count of the rows, 0 without rows.
pub open spec fn max_cols(rows: Seq<RowView>) -> int
    decreases rows.len(),
{
    if rows.len() == 0 {
        0
    } else if rows.last().num_cols > max_cols(rows.drop_last()) {
        rows.last().num_cols
    } else {
        max_cols(rows.drop_last())
    }
}

/// No text occurs twice.
pub open spec fn no_dups(v: Seq<Seq<char>>) -> bool {
    forall|i: int, j: int| 0 <= i < j < v.len() ==> v[i] != v[j]
}

/// `sel` holds exactly the texts of `all` (as a set).
pub open spec fn selects_all(sel: Seq<Seq<char>>, all: Seq<Seq<char>>) -> bool {
    sel.len() == all.len() && forall|i: int| 0 <= i < all.len() ==> sel.contains(#[trigger] all[i])
}

/// The texts of a search-depth field that the viewer accepts: empty, or
/// decimal digits only.
pub open spec fn depth_text_ok(v: Seq<char>) -> bool {
    all_digits(v)
}

impl HistoryState {
    /// The layout and the search results agree with the commits, and no
    /// branch is selected twice.
    pub open spec fn wf(&self) -> bool {
        &&& row_views(self.graph_rows@) == graph_rows(commit_keys(self.commits@))
        &&& self.max_graph_cols as int == max_cols(row_views(self.graph_rows@))
        &&& index_views(self.filtered_indices@) == search_results(self.search, self.commits@)
        &&& no_dups(texts(self.selected_branches@))
    }
}

pub proof fn lemma_push_contains(s: Seq<Seq<char>>, x: Seq<char>)
    ensures
        forall|t: Seq<char>| s.push(x).contains(t) <==> s.contains(t) || t == x,
{
    assert forall|t: Seq<char>| s.push(x).contains(t) <==> s.contains(t) || t == x by {
        if s.push(x).contains(t) {
            let k = choose|k: int| 0 <= k < s.push(x).len() && s.push(x)[k] == t;
            if k < s.len() {
                assert(s[k] == t);
            }
        }
        if s.contains(t) {
            let k = choose|k: int| 0 <= k < s.len() && s[k] == t;
            assert(s.push(x)[k] == t);
        }
        if t == x {
            assert(s.push(x)[s.len() as int] == t);
        }
    }
}

fn string_in(v: &Vec<String>, s: &String) -> (b: bool)
    ensures
        b == texts(v@).contains(s@),
{
    let mut i: usize = 0;
    while i < v.len()
        invariant
            i <= v@.len(),
            forall|k: int| 0 <= k < i ==> v@[k]@ != s@,
        decreases v@.len() - i,
    {
        if v[i] == *s {
            assert(texts(v@)[i as int] == s@);
            return true;
        }
        i = i + 1;
    }
    false
}

fn clone_strings(v: &Vec<String>) -> (r: Vec<String>)
    ensures
        texts(r@) == texts(v@),
{
    let mut r: Vec<String> = Vec::new();
    let mut i: usize = 0;
    while i < v.len()
        invariant
            i <= v@.len(),
            r@.len() == i,
            forall|k: int| 0 <= k < i ==> r@[k]@ == v@[k]@,
        decreases v@.len() - i,
    {
        r.push(v[i].clone());
        i = i + 1;
    }
    assert(texts(r@) =~= texts(v@));
    r
}

/// The distinct texts of `v`, first occurrences first.
fn distinct_strings(v: &Vec<String>) -> (r: Vec<String>)
    ensures
        no_dups(texts(r@)),
        forall|t: Seq<char>| texts(r@).contains(t) <==> texts(v@).contains(t),
{
    let mut r: Vec<String> = Vec::new();
    let mut i: usize = 0;
    while i < v.len()
        invariant
            i <= v@.len(),
            no_dups(texts(r@)),
            forall|t: Seq<char>| texts(r@).contains(t) <==> texts(v@.take(i as int)).contains(t),
        decreases v@.len() - i,
    {
        let ghost prev = texts(r@);
        proof {
            assert(texts(v@.take(i + 1)) =~= texts(v@.take(i as int)).push(v@[i as int]@));
            lemma_push_contains(texts(v@.take(i as int)), v@[i as int]@);
            lemma_push_contains(prev, v@[i as int]@);
        }
        if !string_in(&r, &v[i]) {
            r.push(v[i].clone());
            assert(texts(r@) =~= prev.push(v@[i as int]@));
        }
        assert forall|t: Seq<char>|
            texts(r@).contains(t) <==> texts(v@.take(i + 1)).contains(t) by {
            assert(prev.contains(t) <==> texts(v@.take(i as int)).contains(t));
            assert(texts(v@.take(i + 1)).contains(t) <==> texts(v@.take(i as int)).contains(t) || t
                == v@[i as int]@);
            if prev.contains(v@[i as int]@) {
                assert(texts(v@.take(i as int)).contains(v@[i as int]@));
            }
        }
        i = i + 1;
    }
    assert(v@.take(v@.len() as int) =~= v@);
    r
}

/// `v` without the text `s`.
fn without_string(v: &Vec<String>, s: &String) -> (r: Vec<String>)
    requires
        no_dups(texts(v@)),
    ensures
        no_dups(texts(r@)),
        forall|t: Seq<char>| texts(r@).contains(t) <==> texts(v@).contains(t) && t != s@,
{
    let mut r: Vec<String> = Vec::new();
    let mut i: usize = 0;
    while i < v.len()
        invariant
            i <= v@.len(),
            no_dups(texts(v@)),
            no_dups(texts(r@)),
            forall|t: Seq<char>|
                texts(r@).contains(t) <==> texts(v@.take(i as int)).contains(t) && t != s@,
        decreases v@.len() - i,
    {
        let ghost prev = texts(r@);
        proof {
            assert(texts(v@.take(i + 1)) =~= texts(v@.take(i as int)).push(v@[i as int]@));
            lemma_push_contains(texts(v@.take(i as int)), v@[i as int]@);
            lemma_push_contains(prev, v@[i as int]@);
        }
        if v[i] != *s {
            proof {
                if prev.contains(v@[i as int]@) {
                    let k = choose|k: int| 0 <= k < prev.len() && prev[k] == v@[i as int]@;
                    assert(texts(v@.take(i as int)).contains(v@[i as int]@));
                    let m = choose|m: int|
                        0 <= m < i && texts(v@.take(i as int))[m] == v@[i as int]@;
                    assert(texts(v@)[m] == texts(v@)[i as int]);
                }
            }
            r.push(v[i].clone());
            assert(texts(r@) =~= prev.push(v@[i as int]@));
        }
        assert forall|t: Seq<char>|
            texts(r@).contains(t) <==> texts(v@.take(i + 1)).contains(t) && t != s@ by {
            assert(prev.contains(t) <==> texts(v@.take(i as int)).contains(t) && t != s@);
            assert(texts(v@.take(i + 1)).contains(t) <==> texts(v@.take(i as int)).contains(t) || t
                == v@[i as int]@);
        }
        i = i + 1;
    }
    assert(v@.take(v@.len() as int) =~= v@);
    r
}

fn all_selected(sel: &Vec<String>, all: &Vec<String>) -> (b: bool)
    ensures
        b == selects_all(texts(sel@), texts(all@)),
{
    if sel.len() != all.len() {
        return false;
    }
    let mut i: usize = 0;
    while i < all.len()
        invariant
            i <= all@.len(),
            sel@.len() == all@.len(),
            forall|k: int| 0 <= k < i ==> texts(sel@).contains(#[trigger] texts(all@)[k]),
        decreases all@.len() - i,
    {
        if !string_in(sel, &all[i]) {
            assert(!texts(sel@).contains(texts(all@)[i as int]));
            return false;
        }
        i = i + 1;
    }
    true
}

fn max_num_cols(rows: &Vec<GraphRow>) -> (m: usize)
    ensures
        m as int == max_cols(row_views(rows@)),
{
    let mut m: usize = 0;
    let mut i: usize = 0;
    while i < rows.len()
        invariant
            i <= rows@.len(),
            m as int == max_cols(row_views(rows@).take(i as int)),
        decreases rows@.len() - i,
    {
        proof {
            assert(row_views(rows@).take(i + 1).drop_last() =~= row_views(rows@).take(i as int));
        }
        if rows[i].num_cols > m {
            m = rows[i].num_cols;
        }
        i = i + 1;
    }
    assert(row_views(rows@).take(rows@.len() as int) =~= row_views(rows@));
    m
}

fn no_request() -> (e: HistoryEffect)
    ensures
        e.request == HistoryRequest::Nothing,
        !e.graph_rebuilt,
{
    HistoryEffect { request: HistoryRequest::Nothing, graph_rebuilt: false }
}

/// The outcome of reading a page: fewer commits than a page means the
/// history is exhausted.
pub open spec fn page_exhausted(n: int) -> bool {
    n < PAGE_SIZE
}

/// How many commits a search asks to load beyond those loaded: the search
/// depth, when it is a positive number larger than the loaded count, while
/// the history is not exhausted and no search load is pending.
pub open spec fn deep_load_count(st: HistoryState) -> Option<int> {
    let depth = parsed_usize(st.search_depth@);
    if depth is Some && depth->0 > 0 && depth->0 > st.commits@.len() && !st.all_loaded
        && !st.search_loading {
        Some(depth->0 - st.commits@.len())
    } else {
        None
    }
}

/// The deeper-history load of state `st`: with commits missing, a search
/// load starts (skipping those loaded) and is marked pending; otherwise
/// nothing is asked and the pending mark stays.
pub open spec fn deep_load_done(st: HistoryState, search_loading: bool, e: HistoryEffect) -> bool {
    match deep_load_count(st) {
        Some(n) => search_loading && e.request == (HistoryRequest::LoadCommits {
            skip: st.commits@.len() as usize,
            count: n as usize,
            branches: None,
            reply: CommitsReply::Search,
        }),
        None => search_loading == st.search_loading && e.request == HistoryRequest::Nothing,
    }
}

/// The state after the branch selection `sel` (of the branches `all`)
/// changed: everything loaded is dropped; with nothing selected the history
/// is empty and complete, otherwise the first page is asked for, of every
/// branch when all are selected, else of the selected ones.
pub open spec fn reloaded_for(
    sel: Seq<Seq<char>>,
    all: Seq<Seq<char>>,
    f: HistoryState,
    e: HistoryEffect,
) -> bool {
    &&& !e.graph_rebuilt
    &&& f.commits@.len() == 0
    &&& f.graph_rows@.len() == 0
    &&& f.max_graph_cols == 0
    &&& f.selected_index is None
    &&& f.filtered_indices@.len() == 0
    &&& sel.len() == 0 ==> !f.loading && f.all_loaded && e.request == HistoryRequest::Nothing
    &&& sel.len() > 0 ==> f.loading && !f.all_loaded && (e.request matches HistoryRequest::LoadCommits {
        skip,
        count,
        branches,
        reply,
    } && skip == 0 && count == PAGE_SIZE && reply == CommitsReply::BranchReload && (if selects_all(
        sel,
        all,
    ) {
        branches is None
    } else {
        branches matches Some(bs) && texts(bs@) == sel
    }))
}

impl HistoryState {
    /// A viewer of the repository at `repo_path`, loading the first page of
    /// commits and the branch names.
    pub fn new(repo_path: &str) -> (r: (HistoryState, Vec<HistoryRequest>))
        ensures
            r.0.wf(),
            r.0.repo_path@ == repo_path@,
            r.0.commits@.len() == 0,
            r.0.loading,
            !r.0.all_loaded,
            r.0.branches_loading,
            r.1@.len() == 2,
            r.1@[0] == (HistoryRequest::LoadCommits {
                skip: 0,
                count: PAGE_SIZE,
                branches: None,
                reply: CommitsReply::Page,
            }),
            r.1@[1] == HistoryRequest::LoadBranches,
    {
        let st = HistoryState {
            repo_path: repo_path.to_owned(),
            commits: Vec::new(),
            graph_rows: Vec::new(),
            max_graph_cols: 0,
            selected_index: None,
            loading: true,
            all_loaded: false,
            error: None,
            context_menu: None,
            inspect: None,
            search_depth: String::new(),
            search: CommitSearch {
                hash: String::new(),
                message: String::new(),
                date: String::new(),
                author: String::new(),
                regex: false,
            },
            filtered_indices: Vec::new(),
            search_loading: false,
            all_branches: Vec::new(),
            selected_branches: Vec::new(),
            branch_filter_text: String::new(),
            branch_dropdown_open: false,
            branches_loading: true,
        };
        proof {
            assert(row_views(st.graph_rows@) =~= Seq::<RowView>::empty());
            assert(commit_keys(st.commits@) =~= Seq::empty());
            assert(index_views(st.filtered_indices@) =~= Seq::<int>::empty());
            assert(search_results(st.search, st.commits@) =~= Seq::<int>::empty());
        }
        let mut reqs: Vec<HistoryRequest> = Vec::new();
        reqs.push(
            HistoryRequest::LoadCommits {
                skip: 0,
                count: PAGE_SIZE,
                branches: None,
                reply: CommitsReply::Page,
            },
        );
        reqs.push(HistoryRequest::LoadBranches);
        (st, reqs)
    }

    /// Lay the graph out anew from the commits.
    fn rebuild_graph(&mut self)
        ensures
            *final(self) == (HistoryState {
                graph_rows: final(self).graph_rows,
                max_graph_cols: final(self).max_graph_cols,
                ..*old(self)
            }),
            row_views(final(self).graph_rows@) == graph_rows(commit_keys(final(self).commits@)),
            final(self).max_graph_cols as int == max_cols(row_views(final(self).graph_rows@)),
            final(self).commits == old(self).commits,
            final(self).filtered_indices == old(self).filtered_indices,
            final(self).search == old(self).search,
            final(self).selected_branches == old(self).selected_branches,
            final(self).all_branches == old(self).all_branches,
            final(self).loading == old(self).loading,
            final(self).all_loaded == old(self).all_loaded,
            final(self).search_loading == old(self).search_loading,
            final(self).error == old(self).error,
            final(self).selected_index == old(self).selected_index,
            final(self).search_depth == old(self).search_depth,
    {
        let rows = compute_graph(&self.commits);
        self.max_graph_cols = max_num_cols(&rows);
        self.graph_rows = rows;
    }

    /// Recompute the search results.
    fn refilter(&mut self)
        ensures
            index_views(final(self).filtered_indices@) == search_results(
                final(self).search,
                final(self).commits@,
            ),
            *final(self) == (HistoryState { filtered_indices: final(self).filtered_indices, ..*old(self) }),
    {
        self.filtered_indices = filter_commits(&self.search, &self.commits);
    }

    /// Some search field is filled in.
    pub fn has_active_search(&self) -> (b: bool)
        ensures
            b == crate::search::search_active(self.search),
    {
        !self.search.hash.as_str().is_empty() || !self.search.message.as_str().is_empty()
            || !self.search.date.as_str().is_empty() || !self.search.author.as_str().is_empty()
    }

    /// A page of commits arrived (or failed to).
    pub fn commits_loaded(&mut self, result: Result<Vec<CommitEntry>, String>) -> (e: HistoryEffect)
        requires
            old(self).wf(),
        ensures
            *final(self) == (HistoryState {
                loading: final(self).loading,
                commits: final(self).commits,
                all_loaded: final(self).all_loaded,
                graph_rows: final(self).graph_rows,
                max_graph_cols: final(self).max_graph_cols,
                filtered_indices: final(self).filtered_indices,
                error: final(self).error,
                ..*old(self)
            }),
            final(self).wf(),
            !final(self).loading,
            e.request == HistoryRequest::Nothing,
            e.graph_rebuilt == result is Ok,
            result matches Ok(new) ==> final(self).commits@ == old(self).commits@ + new@
                && final(self).all_loaded == (old(self).all_loaded || page_exhausted(
                new@.len() as int,
            )) && final(self).error == old(self).error,
            result matches Err(msg) ==> final(self).commits@ == old(self).commits@
                && final(self).all_loaded == old(self).all_loaded && (if old(self).commits@.len()
                == 0 {
                final(self).error == Some(msg)
            } else {
                final(self).error == old(self).error
            }),
            final(self).search == old(self).search,
            final(self).selected_branches == old(self).selected_branches,
            final(self).search_loading == old(self).search_loading,
    {
        self.loading = false;
        match result {
            Ok(new_commits) => {
                let mut new_commits = new_commits;
                if new_commits.len() < PAGE_SIZE {
                    self.all_loaded = true;
                }
                self.commits.append(&mut new_commits);
                self.rebuild_graph();
                self.refilter();
                HistoryEffect { request: HistoryRequest::Nothing, graph_rebuilt: true }
            },
            Err(e) => {
                if self.commits.len() == 0 {
                    self.error = Some(e);
                }
                no_request()
            },
        }
    }

    /// Commits loaded to reach the search depth arrived; a failure is ignored.
    pub fn search_commits_loaded(&mut self, result: Result<Vec<CommitEntry>, String>) -> (e: HistoryEffect)
        requires
            old(self).wf(),
        ensures
            *final(self) == (HistoryState {
                search_loading: final(self).search_loading,
                commits: final(self).commits,
                all_loaded: final(self).all_loaded,
                graph_rows: final(self).graph_rows,
                max_graph_cols: final(self).max_graph_cols,
                filtered_indices: final(self).filtered_indices,
                ..*old(self)
            }),
            final(self).wf(),
            !final(self).search_loading,
            e.request == HistoryRequest::Nothing,
            e.graph_rebuilt == result is Ok,
            result matches Ok(new) ==> final(self).commits@ == old(self).commits@ + new@
                && final(self).all_loaded == (old(self).all_loaded || page_exhausted(
                new@.len() as int,
            )),
            result is Err ==> final(self).commits@ == old(self).commits@ && final(self).all_loaded
                == old(self).all_loaded,
            final(self).loading == old(self).loading,
            final(self).error == old(self).error,
            final(self).search == old(self).search,
    {
        self.search_loading = false;
        match result {
            Ok(new_commits) => {
                let mut new_commits = new_commits;
                if new_commits.len() < PAGE_SIZE {
                    self.all_loaded = true;
                }
                self.commits.append(&mut new_commits);
                self.rebuild_graph();
                self.refilter();
                HistoryEffect { request: HistoryRequest::Nothing, graph_rebuilt: true }
            },
            Err(_) => no_request(),
        }
    }

    /// The first page after a change of the branch selection arrived.
    pub fn branch_commits_loaded(&mut self, result: Result<Vec<CommitEntry>, String>) -> (e: HistoryEffect)
        requires
            old(self).wf(),
        ensures
            *final(self) == (HistoryState {
                loading: final(self).loading,
                commits: final(self).commits,
                all_loaded: final(self).all_loaded,
                graph_rows: final(self).graph_rows,
                max_graph_cols: final(self).max_graph_cols,
                filtered_indices: final(self).filtered_indices,
                error: final(self).error,
                ..*old(self)
            }),
            final(self).wf(),
            !final(self).loading,
            e.request == HistoryRequest::Nothing,
            e.graph_rebuilt == result is Ok,
            result matches Ok(new) ==> final(self).commits@ == new@ && final(self).all_loaded == (
            old(self).all_loaded || page_exhausted(new@.len() as int)) && final(self).error == old(self).error,
            result matches Err(msg) ==> final(self).commits@ == old(self).commits@
                && final(self).all_loaded == old(self).all_loaded && (if old(self).commits@.len()
                == 0 {
                final(self).error == Some(msg)
            } else {
                final(self).error == old(self).error
            }),
            final(self).search == old(self).search,
    {
        self.loading = false;
        match result {
            Ok(new_commits) => {
                if new_commits.len() < PAGE_SIZE {
                    self.all_loaded = true;
                }
                self.commits = new_commits;
                self.rebuild_graph();
                self.refilter();
                HistoryEffect { request: HistoryRequest::Nothing, graph_rebuilt: true }
            },
            Err(e) => {
                if self.commits.len() == 0 {
                    self.error = Some(e);
                }
                no_request()
            },
        }
    }

    /// Ask for the next page, unless one is loading or the history is
    /// exhausted; with a partial branch selection only those branches.
    pub fn load_more(&mut self) -> (e: HistoryEffect)
        requires
            old(self).wf(),
        ensures
            *final(self) == (HistoryState {
                loading: final(self).loading,
                ..*old(self)
            }),
            final(self).wf(),
            !e.graph_rebuilt,
            final(self).commits == old(self).commits,
            old(self).loading || old(self).all_loaded ==> e.request == HistoryRequest::Nothing
                && final(self).loading == old(self).loading,
            !(old(self).loading || old(self).all_loaded) ==> final(self).loading && (
            e.request matches HistoryRequest::LoadCommits { skip, count, branches, reply } && skip
                == old(self).commits@.len() && count == PAGE_SIZE && reply == CommitsReply::Page
                && (if old(self).selected_branches@.len() == 0 || selects_all(
                texts(old(self).selected_branches@),
                texts(old(self).all_branches@),
            ) {
                branches is None
            } else {
                branches matches Some(bs) && texts(bs@) == texts(old(self).selected_branches@)
            })),
    {
        if self.loading || self.all_loaded {
            return no_request();
        }
        self.loading = true;
        let skip = self.commits.len();
        let all = self.selected_branches.len() == 0 || all_selected(
            &self.selected_branches,
            &self.all_branches,
        );
        let branches = if all {
            None
        } else {
            Some(clone_strings(&self.selected_branches))
        };
        HistoryEffect {
            request: HistoryRequest::LoadCommits {
                skip,
                count: PAGE_SIZE,
                branches,
                reply: CommitsReply::Page,
            },
            graph_rebuilt: false,
        }
    }

    /// Select a commit, or unselect it when it is selected already.
    pub fn select_commit(&mut self, idx: usize)
        ensures
            old(self).wf() ==> final(self).wf(),
            final(self).selected_index == (if old(self).selected_index == Some(idx) {
                None::<usize>
            } else {
                Some(idx)
            }),
            final(self).commits == old(self).commits,
            final(self).graph_rows == old(self).graph_rows,
            final(self).max_graph_cols == old(self).max_graph_cols,
            final(self).filtered_indices == old(self).filtered_indices,
            final(self).search == old(self).search,
            final(self).selected_branches == old(self).selected_branches,
    {
        self.selected_index = if self.selected_index == Some(idx) {
            None
        } else {
            Some(idx)
        };
    }

    /// Open the context menu of a commit, selecting it.
    pub fn show_context_menu(&mut self, idx: usize)
        ensures
            old(self).wf() ==> final(self).wf(),
            final(self).selected_index == Some(idx),
            final(self).context_menu == Some(idx),
            final(self).commits == old(self).commits,
            final(self).graph_rows == old(self).graph_rows,
            final(self).max_graph_cols == old(self).max_graph_cols,
            final(self).filtered_indices == old(self).filtered_indices,
            final(self).search == old(self).search,
            final(self).selected_branches == old(self).selected_branches,
    {
        self.selected_index = Some(idx);
        self.context_menu = Some(idx);
    }

    /// Close the context menu.
    pub fn dismiss_context_menu(&mut self)
        ensures
            old(self).wf() ==> final(self).wf(),
            final(self).context_menu is None,
            final(self).commits == old(self).commits,
            final(self).graph_rows == old(self).graph_rows,
            final(self).max_graph_cols == old(self).max_graph_cols,
            final(self).filtered_indices == old(self).filtered_indices,
            final(self).search == old(self).search,
            final(self).selected_branches == old(self).selected_branches,
            final(self).selected_index == old(self).selected_index,
    {
        self.context_menu = None;
    }

    /// Copy a hash: the menu closes and the hash goes to the clipboard.
    pub fn copy_hash(&mut self, hash: String) -> (e: HistoryEffect)
        ensures
            old(self).wf() ==> final(self).wf(),
            final(self).context_menu is None,
            e.request == HistoryRequest::CopyToClipboard(hash),
            !e.graph_rebuilt,
            final(self).commits == old(self).commits,
            final(self).graph_rows == old(self).graph_rows,
            final(self).max_graph_cols == old(self).max_graph_cols,
            final(self).filtered_indices == old(self).filtered_indices,
            final(self).search == old(self).search,
            final(self).selected_branches == old(self).selected_branches,
    {
        self.context_menu = None;
        HistoryEffect { request: HistoryRequest::CopyToClipboard(hash), graph_rebuilt: false }
    }

    /// Inspect a commit: the menu closes and its details are loaded.
    pub fn inspect_commit(&mut self, hash: String) -> (e: HistoryEffect)
        ensures
            old(self).wf() ==> final(self).wf(),
            final(self).context_menu is None,
            e.request == HistoryRequest::LoadDetail(hash),
            !e.graph_rebuilt,
            final(self).commits == old(self).commits,
            final(self).graph_rows == old(self).graph_rows,
            final(self).max_graph_cols == old(self).max_graph_cols,
            final(self).filtered_indices == old(self).filtered_indices,
            final(self).search == old(self).search,
            final(self).selected_branches == old(self).selected_branches,
    {
        self.context_menu = None;
        HistoryEffect { request: HistoryRequest::LoadDetail(hash), graph_rebuilt: false }
    }

    /// Details arrived: shown as they are, or as `Error: <message>`.
    pub fn inspect_loaded(&mut self, result: Result<String, String>)
        ensures
            old(self).wf() ==> final(self).wf(),
            result matches Ok(d) ==> final(self).inspect == Some(d),
            result matches Err(m) ==> (final(self).inspect matches Some(d) && d@ == "Error: "@
                + m@),
            final(self).commits == old(self).commits,
            final(self).graph_rows == old(self).graph_rows,
            final(self).max_graph_cols == old(self).max_graph_cols,
            final(self).filtered_indices == old(self).filtered_indices,
            final(self).search == old(self).search,
            final(self).selected_branches == old(self).selected_branches,
    {
        match result {
            Ok(detail) => {
                self.inspect = Some(detail);
            },
            Err(e) => {
                let mut d = "Error: ".to_owned();
                d.append(e.as_str());
                self.inspect = Some(d);
            },
        }
    }

    /// Close the inspect dialog.
    pub fn dismiss_inspect(&mut self)
        ensures
            old(self).wf() ==> final(self).wf(),
            final(self).inspect is None,
            final(self).commits == old(self).commits,
            final(self).graph_rows == old(self).graph_rows,
            final(self).max_graph_cols == old(self).max_graph_cols,
            final(self).filtered_indices == old(self).filtered_indices,
            final(self).search == old(self).search,
            final(self).selected_branches == old(self).selected_branches,
    {
        self.inspect = None;
    }

    /// When a positive search depth beyond the loaded commits is asked for,
    /// and no history or search load is pending, load the missing commits.
    fn maybe_deep_load(&mut self) -> (e: HistoryEffect)
        ensures
            !e.graph_rebuilt,
            final(self).commits == old(self).commits,
            final(self).graph_rows == old(self).graph_rows,
            final(self).max_graph_cols == old(self).max_graph_cols,
            final(self).filtered_indices == old(self).filtered_indices,
            final(self).search == old(self).search,
            final(self).selected_branches == old(self).selected_branches,
            final(self).search_depth == old(self).search_depth,
            final(self).loading == old(self).loading,
            final(self).all_loaded == old(self).all_loaded,
            *final(self) == (HistoryState { search_loading: final(self).search_loading, ..*old(self) }),
            deep_load_done(*old(self), final(self).search_loading, e),
    {
        let depth = match parse_usize(self.search_depth.as_str()) {
            Some(n) => {
                if n > 0 {
                    n
                } else {
                    return no_request();
                }
            },
            None => {
                return no_request();
            },
        };
        if depth <= self.commits.len() || self.all_loaded || self.search_loading {
            return no_request();
        }
        self.search_loading = true;
        let skip = self.commits.len();
        HistoryEffect {
            request: HistoryRequest::LoadCommits {
                skip,
                count: depth - skip,
                branches: None,
                reply: CommitsReply::Search,
            },
            graph_rebuilt: false,
        }
    }

    /// The search depth field changed: accepted when empty or all digits,
    /// then the search is refreshed and deeper history loaded if needed.
    pub fn set_search_depth(&mut self, v: String) -> (e: HistoryEffect)
        requires
            old(self).wf(),
        ensures
            final(self).wf(),
            !e.graph_rebuilt,
            depth_text_ok(v@) ==> *final(self) == (HistoryState {
                search_depth: v,
                filtered_indices: final(self).filtered_indices,
                search_loading: final(self).search_loading,
                ..*old(self)
            }) && deep_load_done(
                (HistoryState { search_depth: v, ..*old(self) }),
                final(self).search_loading,
                e,
            ),
            !depth_text_ok(v@) ==> *final(self) == *old(self) && e.request == HistoryRequest::Nothing,
    {
        let cs = chars_of(v.as_str());
        let mut ok = true;
        let mut i: usize = 0;
        while i < cs.len()
            invariant
                i <= cs@.len(),
                cs@ == v@,
                ok == (forall|k: int| 0 <= k < i ==> is_digit(#[trigger] cs@[k])),
            decreases cs@.len() - i,
        {
            if !('0' <= cs[i] && cs[i] <= '9') {
                ok = false;
            }
            i = i + 1;
        }
        if ok {
            self.search_depth = v;
            self.refilter();
            return self.maybe_deep_load();
        }
        no_request()
    }

    /// The hash search field changed.
    pub fn set_search_hash(&mut self, v: String) -> (e: HistoryEffect)
        requires
            old(self).wf(),
        ensures
            final(self).wf(),
            *final(self) == (HistoryState {
                search: CommitSearch { hash: v, ..old(self).search },
                filtered_indices: final(self).filtered_indices,
                search_loading: final(self).search_loading,
                ..*old(self)
            }),
            deep_load_done(*old(self), final(self).search_loading, e),
            !e.graph_rebuilt,
    {
        self.search.hash = v;
        self.refilter();
        self.maybe_deep_load()
    }

    /// The message search field changed.
    pub fn set_search_message(&mut self, v: String) -> (e: HistoryEffect)
        requires
            old(self).wf(),
        ensures
            final(self).wf(),
            *final(self) == (HistoryState {
                search: CommitSearch { message: v, ..old(self).search },
                filtered_indices: final(self).filtered_indices,
                search_loading: final(self).search_loading,
                ..*old(self)
            }),
            deep_load_done(*old(self), final(self).search_loading, e),
            !e.graph_rebuilt,
    {
        self.search.message = v;
        self.refilter();
        self.maybe_deep_load()
    }

    /// The date search field changed.
    pub fn set_search_date(&mut self, v: String) -> (e: HistoryEffect)
        requires
            old(self).wf(),
        ensures
            final(self).wf(),
            *final(self) == (HistoryState {
                search: CommitSearch { date: v, ..old(self).search },
                filtered_indices: final(self).filtered_indices,
                search_loading: final(self).search_loading,
                ..*old(self)
            }),
            deep_load_done(*old(self), final(self).search_loading, e),
            !e.graph_rebuilt,
    {
        self.search.date = v;
        self.refilter();
        self.maybe_deep_load()
    }

    /// The author search field changed.
    pub fn set_search_author(&mut self, v: String) -> (e: HistoryEffect)
        requires
            old(self).wf(),
        ensures
            final(self).wf(),
            *final(self) == (HistoryState {
                search: CommitSearch { author: v, ..old(self).search },
                filtered_indices: final(self).filtered_indices,
                search_loading: final(self).search_loading,
                ..*old(self)
            }),
            deep_load_done(*old(self), final(self).search_loading, e),
            !e.graph_rebuilt,
    {
        self.search.author = v;
        self.refilter();
        self.maybe_deep_load()
    }

    /// Regex mode switched on or off.
    pub fn toggle_regex(&mut self, on: bool)
        requires
            old(self).wf(),
        ensures
            final(self).wf(),
            *final(self) == (HistoryState {
                search: CommitSearch { regex: on, ..old(self).search },
                filtered_indices: final(self).filtered_indices,
                ..*old(self)
            }),
    {
        self.search.regex = on;
        self.refilter();
    }

    /// Empty every search field (regex mode stays) and the results.
    pub fn clear_search(&mut self)
        requires
            old(self).wf(),
        ensures
            final(self).wf(),
            final(self).search.hash@.len() == 0,
            final(self).search.message@.len() == 0,
            final(self).search.date@.len() == 0,
            final(self).search.author@.len() == 0,
            final(self).search_depth@.len() == 0,
            final(self).search.regex == old(self).search.regex,
            final(self).filtered_indices@.len() == 0,
            *final(self) == (HistoryState {
                search: final(self).search,
                search_depth: final(self).search_depth,
                filtered_indices: final(self).filtered_indices,
                ..*old(self)
            }),
    {
        self.search.hash = String::new();
        self.search.message = String::new();
        self.search.date = String::new();
        self.search.author = String::new();
        self.search_depth = String::new();
        self.filtered_indices = Vec::new();
        assert(index_views(self.filtered_indices@) =~= Seq::<int>::empty());
    }

    /// The branch names arrived: all of them become selected.
    pub fn branches_loaded(&mut self, result: Result<Vec<String>, String>)
        requires
            old(self).wf(),
        ensures
            *final(self) == (HistoryState {
                branches_loading: final(self).branches_loading,
                selected_branches: final(self).selected_branches,
                all_branches: final(self).all_branches,
                ..*old(self)
            }),
            final(self).wf(),
            !final(self).branches_loading,
            result matches Ok(bs) ==> texts(final(self).all_branches@) == texts(bs@) && forall|
                t: Seq<char>,
            | texts(final(self).selected_branches@).contains(t) <==> texts(bs@).contains(t),
            result is Err ==> final(self).all_branches == old(self).all_branches
                && final(self).selected_branches == old(self).selected_branches,
            final(self).commits == old(self).commits,
    {
        self.branches_loading = false;
        if let Ok(branches) = result {
            self.selected_branches = distinct_strings(&branches);
            self.all_branches = branches;
        }
    }

    /// Open or close the branch selector.
    pub fn toggle_branch_dropdown(&mut self)
        ensures
            old(self).wf() ==> final(self).wf(),
            final(self).branch_dropdown_open == !old(self).branch_dropdown_open,
            final(self).commits == old(self).commits,
            final(self).graph_rows == old(self).graph_rows,
            final(self).max_graph_cols == old(self).max_graph_cols,
            final(self).filtered_indices == old(self).filtered_indices,
            final(self).search == old(self).search,
            final(self).selected_branches == old(self).selected_branches,
    {
        self.branch_dropdown_open = !self.branch_dropdown_open;
    }

    /// Close the branch selector.
    pub fn dismiss_branch_dropdown(&mut self)
        ensures
            old(self).wf() ==> final(self).wf(),
            !final(self).branch_dropdown_open,
            final(self).commits == old(self).commits,
            final(self).graph_rows == old(self).graph_rows,
            final(self).max_graph_cols == old(self).max_graph_cols,
            final(self).filtered_indices == old(self).filtered_indices,
            final(self).search == old(self).search,
            final(self).selected_branches == old(self).selected_branches,
    {
        self.branch_dropdown_open = false;
    }

    /// The branch selector's filter text changed.
    pub fn set_branch_filter_text(&mut self, v: String)
        ensures
            old(self).wf() ==> final(self).wf(),
            final(self).branch_filter_text == v,
            final(self).commits == old(self).commits,
            final(self).graph_rows == old(self).graph_rows,
            final(self).max_graph_cols == old(self).max_graph_cols,
            final(self).filtered_indices == old(self).filtered_indices,
            final(self).search == old(self).search,
            final(self).selected_branches == old(self).selected_branches,
    {
        self.branch_filter_text = v;
    }

    /// The branch selection changed: the history is dropped and reloaded
    /// from the start for the selected branches (all branches: no branch
    /// list); with nothing selected nothing is loaded.
    pub fn branch_selection_changed(&mut self) -> (e: HistoryEffect)
        requires
            old(self).wf(),
        ensures
            final(self).wf(),
            final(self).selected_branches == old(self).selected_branches,
            final(self).all_branches == old(self).all_branches,
            reloaded_for(
                texts(final(self).selected_branches@),
                texts(final(self).all_branches@),
                *final(self),
                e,
            ),
            final(self).search == old(self).search,
            final(self).search_depth == old(self).search_depth,
            final(self).repo_path == old(self).repo_path,
    {
        self.commits = Vec::new();
        self.graph_rows = Vec::new();
        self.max_graph_cols = 0;
        self.selected_index = None;
        self.all_loaded = false;
        self.filtered_indices = Vec::new();
        self.loading = true;
        proof {
            assert(row_views(self.graph_rows@) =~= Seq::<RowView>::empty());
            assert(commit_keys(self.commits@) =~= Seq::empty());
            assert(index_views(self.filtered_indices@) =~= Seq::<int>::empty());
            assert(search_results(self.search, self.commits@) =~= Seq::<int>::empty());
        }
        if self.selected_branches.len() == 0 {
            self.loading = false;
            self.all_loaded = true;
            return no_request();
        }
        let all = all_selected(&self.selected_branches, &self.all_branches);
        let branches = if all {
            None
        } else {
            Some(clone_strings(&self.selected_branches))
        };
        HistoryEffect {
            request: HistoryRequest::LoadCommits {
                skip: 0,
                count: PAGE_SIZE,
                branches,
                reply: CommitsReply::BranchReload,
            },
            graph_rebuilt: false,
        }
    }

    /// Select or unselect one branch, then reload.
    pub fn toggle_branch(&mut self, branch: String) -> (e: HistoryEffect)
        requires
            old(self).wf(),
        ensures
            final(self).wf(),
            forall|t: Seq<char>|
                texts(final(self).selected_branches@).contains(t) <==> (if t == branch@ {
                    !texts(old(self).selected_branches@).contains(t)
                } else {
                    texts(old(self).selected_branches@).contains(t)
                }),
            final(self).all_branches == old(self).all_branches,
            reloaded_for(
                texts(final(self).selected_branches@),
                texts(final(self).all_branches@),
                *final(self),
                e,
            ),
            final(self).search == old(self).search,
    {
        if string_in(&self.selected_branches, &branch) {
            self.selected_branches = without_string(&self.selected_branches, &branch);
        } else {
            let ghost prev = texts(self.selected_branches@);
            let ghost b = branch@;
            self.selected_branches.push(branch);
            assert(texts(self.selected_branches@) =~= prev.push(b));
            proof {
                lemma_push_contains(prev, b);
            }
        }
        self.branch_selection_changed()
    }

    /// Select every branch, then reload.
    pub fn select_all_branches(&mut self) -> (e: HistoryEffect)
        requires
            old(self).wf(),
        ensures
            final(self).wf(),
            forall|t: Seq<char>|
                texts(final(self).selected_branches@).contains(t) <==> texts(
                    old(self).all_branches@,
                ).contains(t),
            final(self).all_branches == old(self).all_branches,
            reloaded_for(
                texts(final(self).selected_branches@),
                texts(final(self).all_branches@),
                *final(self),
                e,
            ),
            final(self).search == old(self).search,
    {
        self.selected_branches = distinct_strings(&self.all_branches);
        self.branch_selection_changed()
    }

    /// Unselect every branch, then reload (nothing is loaded).
    pub fn deselect_all_branches(&mut self) -> (e: HistoryEffect)
        requires
            old(self).wf(),
        ensures
            final(self).wf(),
            final(self).selected_branches@.len() == 0,
            final(self).all_branches == old(self).all_branches,
            reloaded_for(Seq::empty(), texts(final(self).all_branches@), *final(self), e),
            final(self).search == old(self).search,
    {
        self.selected_branches = Vec::new();
        assert(texts(self.selected_branches@) =~= Seq::<Seq<char>>::empty());
        self.branch_selection_changed()
    }

    /// How the branch selector labels itself.
    pub fn branch_label(&self) -> (l: BranchLabel)
        ensures
            self.branches_loading ==> l == BranchLabel::Loading,
            !self.branches_loading && self.selected_branches@.len() == self.all_branches@.len()
                ==> l == BranchLabel::All(self.all_branches@.len() as usize),
            !self.branches_loading && self.selected_branches@.len() != self.all_branches@.len()
                ==> l == BranchLabel::Partial(
                self.selected_branches@.len() as usize,
                self.all_branches@.len() as usize,
            ),
    {
        if self.branches_loading {
            BranchLabel::Loading
        } else if self.selected_branches.len() == self.all_branches.len() {
            BranchLabel::All(self.all_branches.len())
        } else {
            BranchLabel::Partial(self.selected_branches.len(), self.all_branches.len())
        }
    }
}

} // verus!
