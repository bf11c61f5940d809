//! The tracked repositories and their recorded worktrees: naming a
//! repository after its URL, looking repositories up, tracking and
//! untracking them, recording and forgetting worktrees.

use vstd::prelude::*;
use crate::text::{chars_of, last_segment, slice_string, strip_all_suffix, suffix_at};
use crate::types::{
    opt_text, worktree_views, AppState, Repository, Worktree, WorktreeView,
};

verus! {

// ---------------------------------------------------------------------------
// Values
// ---------------------------------------------------------------------------

/// The value of a `Repository`.
pub struct RepositoryView {
    pub name: Seq<char>,
    pub path: Seq<char>,
    pub url: Seq<char>,
    pub worktrees: Seq<WorktreeView>,
}

impl View for Repository {
    type V = RepositoryView;

    open spec fn view(&self) -> RepositoryView {
        RepositoryView {
            name: self.name@,
            path: self.path@,
            url: self.url@,
            worktrees: worktree_views(self.worktrees@),
        }
    }
}

/// The values of a list of repositories.
pub open spec fn repository_views(rs: Seq<Repository>) -> Seq<RepositoryView> {
    rs.map_values(|r: Repository| r@)
}

/// The value of an `AppState`.
pub struct AppStateView {
    pub repositories: Seq<RepositoryView>,
    pub default_repo_dir: Option<Seq<char>>,
}

impl View for AppState {
    type V = AppStateView;

    open spec fn view(&self) -> AppStateView {
        AppStateView {
            repositories: repository_views(self.repositories@),
            default_repo_dir: opt_text(self.default_repo_dir),
        }
    }
}

/// Why a state operation was refused.
#[derive(Debug, Clone, PartialEq, Eq)]
pub enum StateError {
    /// No tracked repository has this name.
    NoSuchRepository(String),
    /// A repository at this path is tracked already.
    AlreadyTracked(String),
}

/// The text of a state error, as the program reports it.
pub open spec fn state_error_text(e: StateError) -> Seq<char> {
    match e {
        StateError::NoSuchRepository(n) => "no tracked repository named \""@ + n@ + "\""@,
        StateError::AlreadyTracked(p) => "a repository at "@ + p@ + " is already tracked"@,
    }
}

impl StateError {
    /// The error's text.
    pub fn message(&self) -> (m: String)
        ensures
            m@ == state_error_text(*self),
    {
        match self {
            StateError::NoSuchRepository(n) => {
                let mut m = "no tracked repository named \"".to_owned();
                m.append(n.as_str());
                m.append("\"");
                m
            },
            StateError::AlreadyTracked(p) => {
                let mut m = "a repository at ".to_owned();
                m.append(p.as_str());
                m.append(" is already tracked");
                m
            },
        }
    }
}

// ---------------------------------------------------------------------------
// Naming
// ---------------------------------------------------------------------------

/// A repository's display name: the last `/`-separated segment of its URL
/// with every trailing `.git` removed.
pub open spec fn name_from_url(url: Seq<char>) -> Seq<char> {
    strip_all_suffix(last_segment(url, '/'), ".git"@)
}

pub proof fn lemma_last_segment_from(s: Seq<char>, c: char, k: int)
    requires
        0 <= k <= s.len(),
        forall|j: int| k <= j < s.len() ==> s[j] != c,
        k == 0 || s[k - 1] == c,
    ensures
        last_segment(s, c) == s.skip(k),
    decreases s.len(),
{
    if s.len() == 0 {
        assert(s.skip(k) =~= s);
    } else if k == s.len() {
        assert(s.skip(k) =~= Seq::<char>::empty());
    } else {
        lemma_last_segment_from(s.drop_last(), c, k);
        assert(s.drop_last().skip(k).push(s.last()) =~= s.skip(k));
    }
}

/// Derive a display name from a repository URL.
pub fn repo_name_from_url(url: &str) -> (name: String)
    ensures
        name@ == name_from_url(url@),
{
    let v = chars_of(url);
    let n = v.len();
    let mut k = n;
    while k > 0 && v[k - 1] != '/'
        invariant
            k <= n == v@.len(),
            forall|j: int| k <= j < n ==> v@[j] != '/',
        decreases k,
    {
        k = k - 1;
    }
    proof {
        lemma_last_segment_from(v@, '/', k as int);
        assert(v@.skip(k as int) =~= v@.subrange(k as int, n as int));
    }
    let git = chars_of(".git");
    let mut e = n;
    while suffix_at(&v, k, e, &git)
        invariant
            k <= e <= n == v@.len(),
            git@ == ".git"@,
            strip_all_suffix(v@.subrange(k as int, n as int), ".git"@) == strip_all_suffix(
                v@.subrange(k as int, e as int),
                ".git"@,
            ),
        decreases e - k,
    {
        proof {
            reveal_strlit(".git");
            let t = v@.subrange(k as int, e as int);
            assert(t.take(t.len() - 4) =~= v@.subrange(k as int, e - 4));
        }
        e = e - git.len();
    }
    slice_string(url, k, e)
}

// ---------------------------------------------------------------------------
// Lookup
// ---------------------------------------------------------------------------

/// `i` is the position of the first repository named `name`.
pub open spec fn is_first_named(rs: Seq<RepositoryView>, name: Seq<char>, i: int) -> bool {
    0 <= i < rs.len() && rs[i].name == name && forall|j: int| 0 <= j < i ==> rs[j].name != name
}

/// Some repository is named `name`.
pub open spec fn has_named(rs: Seq<RepositoryView>, name: Seq<char>) -> bool {
    exists|j: int| 0 <= j < rs.len() && rs[j].name == name
}

/// Position of the first tracked repository named `name`.
pub fn find_repo_index(repos: &Vec<Repository>, name: &str) -> (r: Result<usize, StateError>)
    ensures
        r matches Ok(i) ==> is_first_named(repository_views(repos@), name@, i as int),
        r is Err <==> !has_named(repository_views(repos@), name@),
        r matches Err(e) ==> (e matches StateError::NoSuchRepository(n) && n@ == name@),
{
    let ghost rs = repository_views(repos@);
    let target = name.to_owned();
    let mut i: usize = 0;
    while i < repos.len()
        invariant
            rs == repository_views(repos@),
            i <= repos@.len(),
            target@ == name@,
            forall|j: int| 0 <= j < i ==> rs[j].name != name@,
        decreases repos@.len() - i,
    {
        if repos[i].name == target {
            assert(rs[i as int].name == name@);
            return Ok(i);
        }
        i = i + 1;
    }
    Err(StateError::NoSuchRepository(target))
}

/// The first tracked repository named `name`.
pub fn find_repo<'a>(repos: &'a Vec<Repository>, name: &str) -> (r: Result<&'a Repository, StateError>)
    ensures
        r matches Ok(rp) ==> exists|i: int|
            is_first_named(repository_views(repos@), name@, i) && *rp == repos@[i],
        r is Err <==> !has_named(repository_views(repos@), name@),
        r matches Err(e) ==> (e matches StateError::NoSuchRepository(n) && n@ == name@),
{
    let i = find_repo_index(repos, name)?;
    Ok(&repos[i])
}

// ---------------------------------------------------------------------------
// Tracking repositories
// ---------------------------------------------------------------------------

/// A repository at path `p` is tracked.
pub open spec fn path_tracked(rs: Seq<RepositoryView>, p: Seq<char>) -> bool {
    exists|j: int| 0 <= j < rs.len() && rs[j].path == p
}

/// The repositories after tracking `r`: refused (`None`) when its path is
/// tracked already, otherwise `r` is appended.
pub open spec fn tracked_after(rs: Seq<RepositoryView>, r: RepositoryView) -> Option<
    Seq<RepositoryView>,
> {
    if path_tracked(rs, r.path) {
        None
    } else {
        Some(rs.push(r))
    }
}

impl Repository {
    /// A newly cloned repository: named after its URL, with no worktrees.
    pub fn from_clone(url: &str, path: &str) -> (r: Repository)
        ensures
            r@.name == name_from_url(url@),
            r@.path == path@,
            r@.url == url@,
            r@.worktrees.len() == 0,
    {
        let r = Repository {
            name: repo_name_from_url(url),
            path: path.to_owned(),
            url: url.to_owned(),
            worktrees: Vec::new(),
        };
        assert(worktree_views(r.worktrees@) =~= Seq::<WorktreeView>::empty());
        r
    }
}

impl AppState {
    /// Is a repository at `path` tracked?
    pub fn is_tracked(&self, path: &str) -> (b: bool)
        ensures
            b == path_tracked(self@.repositories, path@),
    {
        let ghost rs = self@.repositories;
        let target = path.to_owned();
        let mut i: usize = 0;
        while i < self.repositories.len()
            invariant
                rs == self@.repositories,
                i <= self.repositories@.len(),
                target@ == path@,
                forall|j: int| 0 <= j < i ==> rs[j].path != path@,
            decreases self.repositories@.len() - i,
        {
            if self.repositories[i].path == target {
                assert(rs[i as int].path == path@);
                return true;
            }
            i = i + 1;
        }
        false
    }

    /// Track a repository, refusing one whose path is tracked already.
    pub fn track(&mut self, repo: Repository) -> (r: Result<(), StateError>)
        ensures
            r is Ok <==> tracked_after(old(self)@.repositories, repo@) is Some,
            r is Ok ==> final(self)@.repositories == tracked_after(
                old(self)@.repositories,
                repo@,
            )->Some_0,
            r is Err ==> final(self)@.repositories == old(self)@.repositories,
            r matches Err(e) ==> (e matches StateError::AlreadyTracked(p) && p@ == repo@.path),
            final(self).default_repo_dir == old(self).default_repo_dir,
    {
        if self.is_tracked(repo.path.as_str()) {
            return Err(StateError::AlreadyTracked(repo.path));
        }
        let ghost before = self.repositories@;
        self.repositories.push(repo);
        assert(repository_views(self.repositories@) =~= repository_views(before).push(repo@));
        Ok(())
    }

    /// Stop tracking the repository at `index`; nothing happens when there is
    /// no such position. No files are touched.
    pub fn untrack(&mut self, index: usize)
        ensures
            index < old(self)@.repositories.len() ==> final(self)@.repositories == old(self)@.repositories.remove(index as int),
            index >= old(self)@.repositories.len() ==> final(self)@.repositories == old(self)@.repositories,
            final(self).default_repo_dir == old(self).default_repo_dir,
    {
        if index < self.repositories.len() {
            let ghost before = self.repositories@;
            self.repositories.remove(index);
            assert(repository_views(self.repositories@) =~= repository_views(before).remove(
                index as int,
            ));
        }
    }
}

// ---------------------------------------------------------------------------
// Recording worktrees
// ---------------------------------------------------------------------------

/// The entry recorded for a worktree created on `branch`, or on the new
/// branch `new_branch` when one was asked for.
pub open spec fn recorded_worktree(
    path: Seq<char>,
    branch: Seq<char>,
    new_branch: Option<Seq<char>>,
) -> WorktreeView {
    WorktreeView {
        path,
        branch: Some(
            match new_branch {
                Some(n) => n,
                None => branch,
            },
        ),
        commit: None,
    }
}

/// The worktrees left after forgetting every entry at `path`.
pub open spec fn without_path(ws: Seq<WorktreeView>, path: Seq<char>) -> Seq<WorktreeView> {
    ws.filter(|w: WorktreeView| w.path != path)
}

impl Repository {
    /// Record a worktree created at `path` from `branch` (or on `new_branch`).
    pub fn record_worktree(&mut self, path: &str, branch: &str, new_branch: Option<&str>)
        ensures
            final(self)@.worktrees == old(self)@.worktrees.push(
                recorded_worktree(path@, branch@, crate::git::opt_str_text(new_branch)),
            ),
            final(self)@.name == old(self)@.name,
            final(self)@.path == old(self)@.path,
            final(self)@.url == old(self)@.url,
    {
        let b = match new_branch {
            Some(n) => n.to_owned(),
            None => branch.to_owned(),
        };
        let w = Worktree { path: path.to_owned(), branch: Some(b), commit: None };
        let ghost before = self.worktrees@;
        self.worktrees.push(w);
        assert(worktree_views(self.worktrees@) =~= worktree_views(before).push(w@));
    }

    /// Forget every recorded worktree at `path`, keeping the others in order.
    pub fn forget_worktree(&mut self, path: &str)
        ensures
            final(self)@.worktrees == without_path(old(self)@.worktrees, path@),
            final(self)@.name == old(self)@.name,
            final(self)@.path == old(self)@.path,
            final(self)@.url == old(self)@.url,
    {
        let ghost ws = worktree_views(self.worktrees@);
        let target = path.to_owned();
        let mut kept: Vec<Worktree> = Vec::new();
        let mut i: usize = 0;
        while i < self.worktrees.len()
            invariant
                ws == worktree_views(self.worktrees@),
                i <= self.worktrees@.len(),
                target@ == path@,
                worktree_views(kept@) == without_path(ws.take(i as int), path@),
            decreases self.worktrees@.len() - i,
        {
            let ghost prev = kept@;
            proof {
                assert(ws.take(i + 1) =~= ws.take(i as int).push(ws[i as int]));
                ws.take(i as int).lemma_filter_push(ws[i as int], |w: WorktreeView| w.path != path@);
            }
            if self.worktrees[i].path != target {
                let w = self.worktrees[i].duplicate();
                kept.push(w);
                assert(worktree_views(kept@) =~= worktree_views(prev).push(w@));
            }
            i = i + 1;
        }
        assert(ws.take(ws.len() as int) =~= ws);
        self.worktrees = kept;
    }
}

// ---------------------------------------------------------------------------
// Laws
// ---------------------------------------------------------------------------

/// Tracking is refused for a path that is tracked; once a path is tracked,
/// tracking it again is refused.
pub proof fn law_track_refuses_tracked_path(rs: Seq<RepositoryView>, r: RepositoryView, r2: RepositoryView)
    requires
        r2.path == r.path,
    ensures
        tracked_after(rs, r) matches Some(rs2) ==> tracked_after(rs2, r2) is None,
        path_tracked(rs, r.path) ==> tracked_after(rs, r) is None,
{
    if let Some(rs2) = tracked_after(rs, r) {
        assert(rs2[rs.len() as int].path == r2.path);
    }
}

/// Untracking the repository that tracking just added gives back the
/// repositories as they were.
pub proof fn law_untrack_undoes_track(rs: Seq<RepositoryView>, r: RepositoryView)
    ensures
        tracked_after(rs, r) matches Some(rs2) ==> rs2.len() == rs.len() + 1 && rs2.remove(
            rs.len() as int,
        ) == rs,
{
    if let Some(rs2) = tracked_after(rs, r) {
        assert(rs2.remove(rs.len() as int) =~= rs);
    }
}

/// Recording a worktree and then forgetting its path leaves exactly the
/// worktrees that were recorded before, without that path.
pub proof fn law_forget_undoes_record(
    ws: Seq<WorktreeView>,
    path: Seq<char>,
    branch: Seq<char>,
    new_branch: Option<Seq<char>>,
)
    ensures
        without_path(ws.push(recorded_worktree(path, branch, new_branch)), path) == without_path(
            ws,
            path,
        ),
        !without_path(ws, path).contains(recorded_worktree(path, branch, new_branch)),
{
    let pred = |w: WorktreeView| w.path != path;
    ws.lemma_filter_push(recorded_worktree(path, branch, new_branch), pred);
    if without_path(ws, path).contains(recorded_worktree(path, branch, new_branch)) {
        let k = choose|k: int|
            0 <= k < without_path(ws, path).len() && without_path(ws, path)[k]
                == recorded_worktree(path, branch, new_branch);
        ws.lemma_filter_pred(pred, k);
    }
}

/// Forgetting a path removes every worktree at it and keeps all others.
pub proof fn law_forget_exact(ws: Seq<WorktreeView>, path: Seq<char>, w: WorktreeView)
    ensures
        without_path(ws, path).contains(w) <==> ws.contains(w) && w.path != path,
{
    let pred = |x: WorktreeView| x.path != path;
    if without_path(ws, path).contains(w) {
        let k = choose|k: int| 0 <= k < without_path(ws, path).len() && without_path(ws, path)[k] == w;
        ws.lemma_filter_pred(pred, k);
        ws.lemma_filter_contains_rev(pred, w);
    }
    if ws.contains(w) && w.path != path {
        let k = choose|k: int| 0 <= k < ws.len() && ws[k] == w;
        ws.lemma_filter_contains(pred, k);
    }
}

} // verus!
