//! The data that gitgobig tracks: repositories, their worktrees, commits.
//! A filesystem path is held as its text.

use vstd::prelude::*;
use vstd::string::StringSliceAdditionalSpecFns;
use vstd::utf8::{encode_utf8, is_char_boundary};

verus! {

/// A git worktree checked out from a bare repository.
#[derive(Debug, Clone, PartialEq, Eq)]
pub struct Worktree {
    /// Filesystem path of the worktree.
    pub path: String,
    /// Branch name, if the worktree is on a branch.
    pub branch: Option<String>,
    /// HEAD commit hash.
    pub commit: Option<String>,
}

/// The value of a `Worktree`.
pub struct WorktreeView {
    pub path: Seq<char>,
    pub branch: Option<Seq<char>>,
    pub commit: Option<Seq<char>>,
}

/// The text of an optional string.
pub open spec fn opt_text(o: Option<String>) -> Option<Seq<char>> {
    match o {
        Some(s) => Some(s@),
        None => None,
    }
}

impl View for Worktree {
    type V = WorktreeView;

    open spec fn view(&self) -> WorktreeView {
        WorktreeView { path: self.path@, branch: opt_text(self.branch), commit: opt_text(self.commit) }
    }
}

/// The values of a list of worktrees.
pub open spec fn worktree_views(ws: Seq<Worktree>) -> Seq<WorktreeView> {
    ws.map_values(|w: Worktree| w@)
}

/// A bare-cloned git repository managed by gitgobig.
#[derive(Debug, Clone, PartialEq, Eq)]
pub struct Repository {
    /// Display name (typically derived from the URL).
    pub name: String,
    /// Local path to the bare repository.
    pub path: String,
    /// Remote URL the repo was cloned from.
    pub url: String,
    /// Worktrees created from this bare repo.
    pub worktrees: Vec<Worktree>,
}

/// A single commit from `git log` output.
#[derive(Debug, Clone, PartialEq, Eq)]
pub struct CommitEntry {
    /// Full SHA hash.
    pub hash: String,
    /// Abbreviated SHA hash.
    pub short_hash: String,
    /// First line of commit message.
    pub subject: String,
    /// ISO 8601 author date.
    pub date: String,
    /// Author name.
    pub author: String,
    /// Decorated ref names (branches, tags).
    pub refs: String,
    /// Parent commit hashes (full SHA).
    pub parents: Vec<String>,
}

/// Top-level application state persisted to disk.
#[derive(Debug, Clone, PartialEq, Eq)]
pub struct AppState {
    pub repositories: Vec<Repository>,
    /// Default base directory for cloned repositories.
    pub default_repo_dir: Option<String>,
}

/// Clone of an optional string that keeps its text.
pub fn clone_opt(o: &Option<String>) -> (r: Option<String>)
    ensures
        opt_text(r) == opt_text(*o),
{
    match o {
        Some(s) => Some(s.clone()),
        None => None,
    }
}

impl Worktree {
    /// A copy with the same value.
    pub fn duplicate(&self) -> (r: Worktree)
        ensures
            r@ == self@,
    {
        Worktree { path: self.path.clone(), branch: clone_opt(&self.branch), commit: clone_opt(&self.commit) }
    }
}

/// The first `min(12, len)` bytes of a commit hash, as shown in lists.
pub open spec fn short_len(bytes: Seq<u8>) -> int {
    if bytes.len() < 12 {
        bytes.len() as int
    } else {
        12
    }
}

/// The abbreviation of a commit hash: its first twelve bytes (all of it
/// when shorter). The cut must fall on a character boundary.
pub fn short_commit(c: &str) -> (r: &str)
    requires
        is_char_boundary(c.spec_bytes(), short_len(c.spec_bytes())),
    ensures
        r.spec_bytes() == c.spec_bytes().take(short_len(c.spec_bytes())),
{
    let bytes = c.as_bytes();
    let n = if bytes.len() < 12 {
        bytes.len()
    } else {
        12
    };
    let (head, _) = c.split_at(n);
    head
}

/// The text shown for a worktree's branch.
pub open spec fn branch_text(w: WorktreeView) -> Seq<char> {
    match w.branch {
        Some(b) => b,
        None => "(detached)"@,
    }
}

impl Worktree {
    /// The branch name, or `(detached)`.
    pub fn branch_label(&self) -> (r: String)
        ensures
            r@ == branch_text(self@),
    {
        match &self.branch {
            Some(b) => b.clone(),
            None => "(detached)".to_owned(),
        }
    }

    /// Can the commit be abbreviated without cutting a character?
    pub open spec fn commit_label_ok(&self) -> bool {
        self.commit matches Some(c) ==> is_char_boundary(
            encode_utf8(c@),
            short_len(encode_utf8(c@)),
        )
    }

    /// The abbreviated commit, or `?`.
    pub fn commit_label(&self) -> (r: String)
        requires
            self.commit_label_ok(),
        ensures
            self.commit is None ==> r@ == "?"@,
            self.commit matches Some(c) ==> encode_utf8(r@) == encode_utf8(c@).take(
                short_len(encode_utf8(c@)),
            ),
    {
        match &self.commit {
            Some(c) => short_commit(c.as_str()).to_owned(),
            None => "?".to_owned(),
        }
    }
}

} // verus!
