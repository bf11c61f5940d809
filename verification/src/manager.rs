//! The decisions of the repository manager window: screens and forms,
//! confirmations, the progress of running git operations, and the changes
//! to the tracked repositories. What it asks its surroundings to do comes
//! back as a `ManagerEffect`; drawing and running things are not here.

use vstd::prelude::*;
use crate::git::GitError;
use crate::state::{name_from_url, repo_name_from_url, AppStateView, RepositoryView};
use crate::text::{chars_of, has_prefix, has_suffix, prefix_at, suffix_at, trim};
use crate::git::trimmed;
use crate::types::{opt_text, AppState, Repository, Worktree};

verus! {

// ---------------------------------------------------------------------------
// State
// ---------------------------------------------------------------------------

/// The form for adding a repository.
pub struct SetupScreen {
    pub url_input: String,
    pub dest_input: String,
    /// The destination was filled in from the default directory.
    pub dest_auto_filled: bool,
    pub tracked_repo_filter: String,
}

/// One tracked repository's page.
pub struct DashboardState {
    pub repo_index: usize,
    pub wt_path_input: String,
    pub wt_branch: Option<String>,
    pub wt_branch_filter: String,
    pub wt_new_branch_toggle: bool,
    pub wt_new_branch_name: String,
    pub branches: Vec<String>,
    pub worktrees: Vec<Worktree>,
    pub loading_worktrees: bool,
    pub wt_list_filter: String,
}

pub enum Screen {
    Setup(SetupScreen),
    Dashboard(DashboardState),
}

/// An error shown below the page.
pub struct ErrorInfo {
    pub message: String,
    pub detail: Option<String>,
    pub show_detail: bool,
}

/// An action waiting for the user's confirmation.
pub enum PendingConfirmation {
    RemoveWorktree { description: String, repo_path: String, wt_path: String },
    RemoveRepository { description: String, index: usize },
}

/// How a finished git operation ended.
#[derive(Debug, Clone, PartialEq, Eq)]
pub enum GitResult {
    CloneDone,
    SyncDone(String),
    WorktreeAddDone,
    WorktreeRemoveDone,
}

/// Events emitted by a running git operation.
#[derive(Debug, Clone, PartialEq, Eq)]
pub enum GitEvent {
    /// A line of output (stdout or stderr) from the git process.
    Output(String),
    /// The operation completed successfully.
    Done(GitResult),
    /// The operation failed.
    Failed(String),
}

pub enum FinishedOp {
    Success(GitResult),
    Failed,
}

/// A git operation in progress, or just finished.
pub struct RunningOperation {
    pub label: String,
    pub output_lines: Vec<String>,
    pub finished: Option<FinishedOp>,
}

/// The manager window's state.
pub struct ManagerState {
    pub screen: Screen,
    pub state: AppState,
    pub error: Option<ErrorInfo>,
    pub pending_confirmation: Option<PendingConfirmation>,
    pub running_operation: Option<RunningOperation>,
    /// The platform's path separator, used to suggest clone destinations.
    pub separator: String,
}

/// What a folder picker is for.
#[derive(Debug, Clone, Copy, PartialEq, Eq)]
pub enum FolderPurpose {
    CloneDestination,
    LocalRepository,
    WorktreeDirectory,
    DefaultRepositoryDirectory,
}

/// What the manager asks its surroundings to do.
#[derive(Debug, Clone, PartialEq, Eq)]
pub enum ManagerRequest {
    Nothing,
    ReadClipboard,
    WriteClipboard(String),
    /// List the worktrees and the branches of the repository at this path.
    LoadRepositoryData(String),
    /// List the worktrees of the repository at this path.
    LoadWorktrees(String),
    PickFolder(FolderPurpose),
    Clone { url: String, dest: String },
    Sync(String),
    AddWorktree { repo_path: String, wt_path: String, branch: String, new_branch: Option<String> },
    RemoveWorktree { repo_path: String, wt_path: String },
    OpenPath(String),
    LaunchExplorer(String),
}

/// The outcome of a step: whether the tracked state must be saved (before
/// the request is carried out), and the request.
#[derive(Debug, Clone, PartialEq, Eq)]
pub struct ManagerEffect {
    pub save: bool,
    pub request: ManagerRequest,
}

/// What the caller found out about a folder picked as a local repository.
#[derive(Debug, Clone, PartialEq, Eq)]
pub struct LocalRepoInfo {
    pub path: String,
    /// The folder's last path component, if it has one.
    pub file_name: Option<String>,
    pub is_git_repo: bool,
    pub is_bare: bool,
    /// The remote URL, empty when there is none or it could not be read.
    pub remote_url: String,
}

// ---------------------------------------------------------------------------
// Helpers
// ---------------------------------------------------------------------------

fn effect(save: bool, request: ManagerRequest) -> (e: ManagerEffect)
    ensures
        e.save == save,
        e.request == request,
{
    ManagerEffect { save, request }
}

fn nothing() -> (e: ManagerEffect)
    ensures
        !e.save,
        e.request == ManagerRequest::Nothing,
{
    ManagerEffect { save: false, request: ManagerRequest::Nothing }
}

/// `base` joined with the relative path `name`.
pub open spec fn join_path(base: Seq<char>, name: Seq<char>, sep: Seq<char>) -> Seq<char> {
    if base.len() == 0 {
        name
    } else if has_suffix(base, sep) {
        base + name
    } else {
        base + sep + name
    }
}

fn join(base: &str, name: &str, sep: &str) -> (r: String)
    ensures
        r@ == join_path(base@, name@, sep@),
{
    if base.is_empty() {
        return name.to_owned();
    }
    let bv = chars_of(base);
    let sv = chars_of(sep);
    let ends = suffix_at(&bv, 0, bv.len(), &sv);
    assert(bv@.subrange(0, bv@.len() as int) =~= bv@);
    let mut r = base.to_owned();
    if !ends {
        r.append(sep);
    }
    r.append(name);
    r
}

/// The clone destination suggested inside `base` for a repository named
/// `name`: `<base>/<name>/<name>_bare`.
pub open spec fn suggested_dest(base: Seq<char>, name: Seq<char>, sep: Seq<char>) -> Seq<char> {
    join_path(join_path(base, name, sep), name + "_bare"@, sep)
}

fn suggest(base: &str, name: &str, sep: &str) -> (r: String)
    ensures
        r@ == suggested_dest(base@, name@, sep@),
{
    let dir = join(base, name, sep);
    let mut leaf = name.to_owned();
    leaf.append("_bare");
    join(dir.as_str(), leaf.as_str(), sep)
}

fn empty_setup() -> (s: SetupScreen)
    ensures
        s.url_input@.len() == 0,
        s.dest_input@.len() == 0,
        !s.dest_auto_filled,
        s.tracked_repo_filter@.len() == 0,
{
    SetupScreen {
        url_input: String::new(),
        dest_input: String::new(),
        dest_auto_filled: false,
        tracked_repo_filter: String::new(),
    }
}

/// The page of the repository at `idx` as it opens: every input and list
/// empty, no branch chosen, the worktrees loading.
pub open spec fn is_fresh_dashboard(d: DashboardState, idx: int) -> bool {
    &&& d.repo_index == idx
    &&& d.wt_path_input@.len() == 0
    &&& d.wt_branch is None
    &&& d.wt_branch_filter@.len() == 0
    &&& !d.wt_new_branch_toggle
    &&& d.wt_new_branch_name@.len() == 0
    &&& d.branches@.len() == 0
    &&& d.worktrees@.len() == 0
    &&& d.loading_worktrees
    &&& d.wt_list_filter@.len() == 0
}

fn fresh_dashboard(idx: usize) -> (d: DashboardState)
    ensures
        is_fresh_dashboard(d, idx as int),
{
    DashboardState {
        repo_index: idx,
        wt_path_input: String::new(),
        wt_branch: None,
        wt_branch_filter: String::new(),
        wt_new_branch_toggle: false,
        wt_new_branch_name: String::new(),
        branches: Vec::new(),
        worktrees: Vec::new(),
        loading_worktrees: true,
        wt_list_filter: String::new(),
    }
}

fn running(label: &str) -> (r: RunningOperation)
    ensures
        r.label@ == label@,
        r.output_lines@.len() == 0,
        r.finished is None,
{
    RunningOperation { label: label.to_owned(), output_lines: Vec::new(), finished: None }
}

/// The text of a done operation's label.
pub open spec fn done_label(r: GitResult) -> Seq<char> {
    match r {
        GitResult::CloneDone => "Clone finished ✓"@,
        GitResult::SyncDone(s) => s@ + "\nSync finished ✓"@,
        GitResult::WorktreeAddDone => "Worktree added ✓"@,
        GitResult::WorktreeRemoveDone => "Worktree removed ✓"@,
    }
}

/// A clipboard text that looks like a repository URL: ends in `.git` and
/// starts with `https://`, `http://`, `git@` or `ssh://`.
pub open spec fn looks_like_repo_url(t: Seq<char>) -> bool {
    has_suffix(t, ".git"@) && (has_prefix(t, "https://"@) || has_prefix(t, "http://"@)
        || has_prefix(t, "git@"@) || has_prefix(t, "ssh://"@))
}

fn is_repo_url(t: &str) -> (b: bool)
    ensures
        b == looks_like_repo_url(t@),
{
    let v = chars_of(t);
    let n = v.len();
    assert(v@.subrange(0, n as int) =~= v@);
    suffix_at(&v, 0, n, &chars_of(".git")) && (prefix_at(&v, 0, n, &chars_of("https://"))
        || prefix_at(&v, 0, n, &chars_of("http://")) || prefix_at(&v, 0, n, &chars_of("git@"))
        || prefix_at(&v, 0, n, &chars_of("ssh://")))
}

impl ManagerState {
    /// The dashboard, if shown, points at a tracked repository.
    pub open spec fn dashboard_ok(&self) -> bool {
        self.screen matches Screen::Dashboard(d) ==> d.repo_index < self.state.repositories@.len()
    }

    /// Show an error with an optional detail, details folded.
    pub fn set_error(&mut self, message: &str, detail: Option<String>)
        ensures
            old(self).dashboard_ok() ==> final(self).dashboard_ok(),
            final(self).error matches Some(e) && e.message@ == message@ && e.detail == detail
                && !e.show_detail,
            final(self).state == old(self).state,
            final(self).screen == old(self).screen,
            final(self).pending_confirmation == old(self).pending_confirmation,
            final(self).running_operation == old(self).running_operation,
            final(self).separator == old(self).separator,
    {
        self.error = Some(ErrorInfo { message: message.to_owned(), detail, show_detail: false });
    }
}

impl ManagerState {
    /// The window as it opens: the setup screen; an error when git is
    /// missing (`git_check` holds the reason); the clipboard is read next.
    pub fn new(state: AppState, git_check: Result<(), String>, separator: String) -> (r: (
        ManagerState,
        ManagerEffect,
    ))
        ensures
            r.0.state == state,
            r.0.separator == separator,
            r.0.screen matches Screen::Setup(s) && s.url_input@.len() == 0 && s.dest_input@.len()
                == 0 && !s.dest_auto_filled && s.tracked_repo_filter@.len() == 0,
            git_check is Ok ==> r.0.error is None,
            git_check matches Err(d) ==> (r.0.error matches Some(e) && e.message@
                == "git is not installed or not found on PATH"@ && e.detail == Some(d)
                && !e.show_detail),
            r.0.pending_confirmation is None,
            r.0.running_operation is None,
            r.1 == (ManagerEffect { save: false, request: ManagerRequest::ReadClipboard }),
    {
        let error = match git_check {
            Ok(()) => None,
            Err(d) => Some(
                ErrorInfo {
                    message: "git is not installed or not found on PATH".to_owned(),
                    detail: Some(d),
                    show_detail: false,
                },
            ),
        };
        let m = ManagerState {
            screen: Screen::Setup(empty_setup()),
            state,
            error,
            pending_confirmation: None,
            running_operation: None,
            separator,
        };
        (m, effect(false, ManagerRequest::ReadClipboard))
    }

    /// Back to an empty setup screen; the clipboard is read again.
    pub fn go_to_setup(&mut self) -> (e: ManagerEffect)
        ensures
            old(self).dashboard_ok() ==> final(self).dashboard_ok(),
            final(self).screen matches Screen::Setup(s) && s.url_input@.len() == 0
                && s.dest_input@.len() == 0 && !s.dest_auto_filled
                && s.tracked_repo_filter@.len() == 0,
            final(self).state == old(self).state,
            final(self).error == old(self).error,
            final(self).pending_confirmation == old(self).pending_confirmation,
            final(self).running_operation == old(self).running_operation,
            final(self).separator == old(self).separator,
            e == (ManagerEffect { save: false, request: ManagerRequest::ReadClipboard }),
    {
        self.screen = Screen::Setup(empty_setup());
        effect(false, ManagerRequest::ReadClipboard)
    }

    /// Open the page of the tracked repository at `idx`, loading its
    /// worktrees and branches; an unknown position changes nothing.
    pub fn go_to_dashboard(&mut self, idx: usize) -> (e: ManagerEffect)
        ensures
            old(self).dashboard_ok() ==> final(self).dashboard_ok(),
            final(self).state == old(self).state,
            final(self).error == old(self).error,
            final(self).pending_confirmation == old(self).pending_confirmation,
            final(self).running_operation == old(self).running_operation,
            final(self).separator == old(self).separator,
            idx >= old(self).state.repositories@.len() ==> final(self).screen == old(self).screen
                && e == (ManagerEffect { save: false, request: ManagerRequest::Nothing }),
            idx < old(self).state.repositories@.len() ==> (final(self).screen matches Screen::Dashboard(
                d,
            ) && is_fresh_dashboard(d, idx as int))
                && !e.save && (e.request matches ManagerRequest::LoadRepositoryData(p) && p@
                == old(self).state.repositories@[idx as int].path@),
    {
        if idx >= self.state.repositories.len() {
            return nothing();
        }
        self.screen = Screen::Dashboard(fresh_dashboard(idx));
        let path = self.state.repositories[idx].path.clone();
        effect(false, ManagerRequest::LoadRepositoryData(path))
    }

    /// The URL field changed. With a default directory configured, an empty
    /// or auto-filled destination follows the URL.
    pub fn url_changed(&mut self, url: String) -> (e: ManagerEffect)
        ensures
            old(self).dashboard_ok() ==> final(self).dashboard_ok(),
            e == (ManagerEffect { save: false, request: ManagerRequest::Nothing }),
            final(self).state == old(self).state,
            final(self).error == old(self).error,
            final(self).pending_confirmation == old(self).pending_confirmation,
            final(self).running_operation == old(self).running_operation,
            final(self).separator == old(self).separator,
            old(self).screen is Dashboard ==> final(self).screen == old(self).screen,
            old(self).screen matches Screen::Setup(s0) ==> (final(self).screen matches Screen::Setup(
                s,
            ) && s.url_input == url && s.tracked_repo_filter == s0.tracked_repo_filter && (if (old(self).state.default_repo_dir is Some && (s0.dest_input@.len() == 0 || s0.dest_auto_filled)
                && name_from_url(url@).len() > 0) {
                s.dest_input@ == suggested_dest(
                    opt_text(old(self).state.default_repo_dir)->Some_0,
                    name_from_url(url@),
                    old(self).separator@,
                ) && s.dest_auto_filled
            } else {
                s.dest_input == s0.dest_input && s.dest_auto_filled == s0.dest_auto_filled
            })),
    {
        if let Screen::Setup(s) = &mut self.screen {
            let name = repo_name_from_url(url.as_str());
            s.url_input = url;
            if let Some(base) = &self.state.default_repo_dir {
                if s.dest_input.as_str().is_empty() || s.dest_auto_filled {
                    if !name.as_str().is_empty() {
                        s.dest_input = suggest(base.as_str(), name.as_str(), self.separator.as_str());
                        s.dest_auto_filled = true;
                    }
                }
            }
        }
        nothing()
    }

    /// The destination field was edited by hand.
    pub fn dest_changed(&mut self, dest: String)
        ensures
            old(self).dashboard_ok() ==> final(self).dashboard_ok(),
            final(self).state == old(self).state,
            final(self).error == old(self).error,
            final(self).pending_confirmation == old(self).pending_confirmation,
            final(self).running_operation == old(self).running_operation,
            final(self).separator == old(self).separator,
            old(self).screen is Dashboard ==> final(self).screen == old(self).screen,
            old(self).screen matches Screen::Setup(s0) ==> (final(self).screen matches Screen::Setup(
                s,
            ) && s.dest_input == dest && !s.dest_auto_filled && s.url_input == s0.url_input
                && s.tracked_repo_filter == s0.tracked_repo_filter),
    {
        if let Screen::Setup(s) = &mut self.screen {
            s.dest_input = dest;
            s.dest_auto_filled = false;
        }
    }

    /// A folder was picked as clone destination (or the picker was closed).
    pub fn dest_dir_picked(&mut self, path: Option<String>)
        ensures
            old(self).dashboard_ok() ==> final(self).dashboard_ok(),
            final(self).state == old(self).state,
            final(self).error == old(self).error,
            final(self).pending_confirmation == old(self).pending_confirmation,
            final(self).running_operation == old(self).running_operation,
            final(self).separator == old(self).separator,
            (old(self).screen is Dashboard || path is None) ==> final(self).screen == old(self).screen,
            old(self).screen matches Screen::Setup(s0) ==> (path matches Some(p) ==> (final(self).screen matches Screen::Setup(s) && s.dest_input == p && s.url_input == s0.url_input
                && s.dest_auto_filled == s0.dest_auto_filled && s.tracked_repo_filter
                == s0.tracked_repo_filter)),
    {
        if let Screen::Setup(s) = &mut self.screen {
            if let Some(p) = path {
                s.dest_input = p;
            }
        }
    }

    /// The filter of the tracked repository list changed.
    pub fn tracked_repo_filter_changed(&mut self, filter: String)
        ensures
            old(self).dashboard_ok() ==> final(self).dashboard_ok(),
            final(self).state == old(self).state,
            final(self).error == old(self).error,
            final(self).pending_confirmation == old(self).pending_confirmation,
            final(self).running_operation == old(self).running_operation,
            final(self).separator == old(self).separator,
            old(self).screen is Dashboard ==> final(self).screen == old(self).screen,
            old(self).screen matches Screen::Setup(s0) ==> (final(self).screen matches Screen::Setup(
                s,
            ) && s.tracked_repo_filter == filter && s.url_input == s0.url_input && s.dest_input
                == s0.dest_input && s.dest_auto_filled == s0.dest_auto_filled),
    {
        if let Screen::Setup(s) = &mut self.screen {
            s.tracked_repo_filter = filter;
        }
    }

    /// Ask to confirm untracking the repository at `idx` (ignored for an
    /// unknown position).
    pub fn remove_repository(&mut self, idx: usize)
        ensures
            old(self).dashboard_ok() ==> final(self).dashboard_ok(),
            final(self).state == old(self).state,
            final(self).screen == old(self).screen,
            final(self).error == old(self).error,
            final(self).running_operation == old(self).running_operation,
            final(self).separator == old(self).separator,
            idx >= old(self).state.repositories@.len() ==> final(self).pending_confirmation == old(self).pending_confirmation,
            idx < old(self).state.repositories@.len() ==> (final(self).pending_confirmation matches Some(
                PendingConfirmation::RemoveRepository { description, index },
            ) && index == idx && description@ == "Remove tracked repository \""@ + old(self).state.repositories@[idx as int].name@
                + "\"? (No files will be deleted on disk.)"@),
    {
        if idx < self.state.repositories.len() {
            let mut d = "Remove tracked repository \"".to_owned();
            d.append(self.state.repositories[idx].name.as_str());
            d.append("\"? (No files will be deleted on disk.)");
            self.pending_confirmation = Some(
                PendingConfirmation::RemoveRepository { description: d, index: idx },
            );
        }
    }

    /// Start a clone of the URL into the destination (both trimmed); both
    /// must be non-empty.
    pub fn clone(&mut self) -> (e: ManagerEffect)
        ensures
            old(self).dashboard_ok() ==> final(self).dashboard_ok(),
            final(self).state == old(self).state,
            final(self).screen == old(self).screen,
            final(self).pending_confirmation == old(self).pending_confirmation,
            final(self).separator == old(self).separator,
            !e.save,
            old(self).screen is Dashboard ==> e.request == ManagerRequest::Nothing && final(self).error == old(self).error && final(self).running_operation == old(self).running_operation,
            old(self).screen matches Screen::Setup(s) ==> (if trim(s.url_input@).len() == 0 || trim(
                s.dest_input@,
            ).len() == 0 {
                &&& e.request == ManagerRequest::Nothing
                &&& final(self).error matches Some(er) && er.message@
                    == "URL and destination must not be empty"@ && er.detail is None
                    && !er.show_detail
                &&& final(self).running_operation == old(self).running_operation
            } else {
                &&& e.request matches ManagerRequest::Clone { url, dest } && url@ == trim(
                    s.url_input@,
                ) && dest@ == trim(s.dest_input@)
                &&& final(self).running_operation matches Some(op) && op.label@ == "Cloning…"@
                    && op.output_lines@.len() == 0 && op.finished is None
                &&& final(self).error == old(self).error
            }),
    {
        let (url, dest) = match &self.screen {
            Screen::Setup(s) => (trimmed(s.url_input.as_str()), trimmed(s.dest_input.as_str())),
            Screen::Dashboard(_) => {
                return nothing();
            },
        };
        if url.as_str().is_empty() || dest.as_str().is_empty() {
            self.set_error("URL and destination must not be empty", None);
            return nothing();
        }
        self.running_operation = Some(running("Cloning…"));
        effect(false, ManagerRequest::Clone { url, dest })
    }
}

/// The name given to a local repository: after its remote URL when it has
/// one, otherwise its folder's name, otherwise `unnamed`.
pub open spec fn local_repo_name(info: LocalRepoInfo) -> Seq<char> {
    if info.remote_url@.len() > 0 {
        name_from_url(info.remote_url@)
    } else {
        match info.file_name {
            Some(n) => n@,
            None => "unnamed"@,
        }
    }
}

impl ManagerState {
    /// A folder was picked as an existing local repository: it must be a git
    /// repository not tracked yet; it is then tracked (and saved), a note is
    /// shown when it is not bare, and its page opens.
    pub fn local_repo_picked(&mut self, info: Option<LocalRepoInfo>) -> (e: ManagerEffect)
        ensures
            old(self).dashboard_ok() ==> final(self).dashboard_ok(),
            final(self).pending_confirmation == old(self).pending_confirmation,
            final(self).running_operation == old(self).running_operation,
            final(self).separator == old(self).separator,
            final(self).state.default_repo_dir == old(self).state.default_repo_dir,
            info is None ==> final(self).state == old(self).state && final(self).screen == old(self).screen && final(self).error == old(self).error && e == (ManagerEffect {
                save: false,
                request: ManagerRequest::Nothing,
            }),
            info matches Some(i) ==> (if !i.is_git_repo {
                &&& final(self).state == old(self).state
                &&& final(self).screen == old(self).screen
                &&& final(self).error matches Some(er) && er.message@ == "Not a git repository"@
                    && (er.detail matches Some(d) && d@ == i.path@ + " is not a git repository"@)
                &&& e == (ManagerEffect { save: false, request: ManagerRequest::Nothing })
            } else if crate::state::path_tracked(old(self).state@.repositories, i.path@) {
                &&& final(self).state == old(self).state
                &&& final(self).screen == old(self).screen
                &&& final(self).error matches Some(er) && er.message@
                    == "This repository is already tracked"@ && er.detail is None
                &&& e == (ManagerEffect { save: false, request: ManagerRequest::Nothing })
            } else {
                &&& final(self).state@.repositories == old(self).state@.repositories.push(
                    RepositoryView {
                        name: local_repo_name(i),
                        path: i.path@,
                        url: i.remote_url@,
                        worktrees: Seq::empty(),
                    },
                )
                &&& e.save
                &&& e.request matches ManagerRequest::LoadRepositoryData(p) && p@ == i.path@
                &&& final(self).screen matches Screen::Dashboard(d) && is_fresh_dashboard(
                    d,
                    old(self).state.repositories@.len() as int,
                )
                &&& !i.is_bare ==> (final(self).error matches Some(er) && er.message@
                    == "Note: this is not a bare repository"@)
                &&& i.is_bare ==> final(self).error == old(self).error
            }),
    {
        let info = match info {
            Some(i) => i,
            None => {
                return nothing();
            },
        };
        if !info.is_git_repo {
            let mut d = info.path.clone();
            d.append(" is not a git repository");
            self.set_error("Not a git repository", Some(d));
            return nothing();
        }
        if self.state.is_tracked(info.path.as_str()) {
            self.set_error("This repository is already tracked", None);
            return nothing();
        }
        let name = if !info.remote_url.as_str().is_empty() {
            repo_name_from_url(info.remote_url.as_str())
        } else {
            match &info.file_name {
                Some(n) => n.clone(),
                None => "unnamed".to_owned(),
            }
        };
        let repo = Repository {
            name,
            path: info.path.clone(),
            url: info.remote_url.clone(),
            worktrees: Vec::new(),
        };
        assert(crate::types::worktree_views(repo.worktrees@) =~= Seq::empty());
        assert(repo@ == RepositoryView {
            name: local_repo_name(info),
            path: info.path@,
            url: info.remote_url@,
            worktrees: Seq::empty(),
        });
        let ghost before = self.state.repositories@.len();
        let r = self.state.track(repo);
        assert(r is Ok);
        assert(self.state@.repositories.len() == self.state.repositories@.len());
        assert(self.state.repositories@.len() == before + 1);
        if !info.is_bare {
            self.set_error(
                "Note: this is not a bare repository",
                Some(
                    "Worktree management features may not work as expected with non-bare repositories.".to_owned(),
                ),
            );
        }
        let idx = self.state.repositories.len() - 1;
        assert(self.state@.repositories[idx as int] == self.state.repositories@[idx as int]@);
        assert(self.state.repositories@[idx as int].path@ == info.path@);
        let e = self.go_to_dashboard(idx);
        effect(true, e.request)
    }

    /// The page's repository path.
    fn current_repo_path(&self) -> (p: Option<String>)
        requires
            self.dashboard_ok(),
        ensures
            self.screen is Setup ==> p is None,
            self.screen matches Screen::Dashboard(d) ==> (p matches Some(x) && x@
                == self.state.repositories@[d.repo_index as int].path@),
    {
        match &self.screen {
            Screen::Dashboard(d) => Some(self.state.repositories[d.repo_index].path.clone()),
            Screen::Setup(_) => None,
        }
    }

    /// Fetch all remotes of the page's repository.
    pub fn sync(&mut self) -> (e: ManagerEffect)
        requires
            old(self).dashboard_ok(),
        ensures
            old(self).dashboard_ok() ==> final(self).dashboard_ok(),
            final(self).state == old(self).state,
            final(self).screen == old(self).screen,
            final(self).error == old(self).error,
            final(self).pending_confirmation == old(self).pending_confirmation,
            final(self).separator == old(self).separator,
            !e.save,
            old(self).screen is Setup ==> e.request == ManagerRequest::Nothing && final(self).running_operation == old(self).running_operation,
            old(self).screen matches Screen::Dashboard(d) ==> (e.request matches ManagerRequest::Sync(
                p,
            ) && p@ == old(self).state.repositories@[d.repo_index as int].path@ && (final(self).running_operation matches Some(op) && op.label@ == "Syncing…"@
                && op.output_lines@.len() == 0 && op.finished is None)),
    {
        match self.current_repo_path() {
            Some(p) => {
                self.running_operation = Some(running("Syncing…"));
                effect(false, ManagerRequest::Sync(p))
            },
            None => nothing(),
        }
    }

    /// Open the page's repository folder.
    pub fn open_repo_folder(&self) -> (e: ManagerEffect)
        requires
            self.dashboard_ok(),
        ensures
            !e.save,
            self.screen is Setup ==> e.request == ManagerRequest::Nothing,
            self.screen matches Screen::Dashboard(d) ==> (e.request matches ManagerRequest::OpenPath(
                p,
            ) && p@ == self.state.repositories@[d.repo_index as int].path@),
    {
        match self.current_repo_path() {
            Some(p) => effect(false, ManagerRequest::OpenPath(p)),
            None => nothing(),
        }
    }

    /// Reload the page's worktree list.
    pub fn refresh_worktrees(&mut self) -> (e: ManagerEffect)
        requires
            old(self).dashboard_ok(),
        ensures
            old(self).dashboard_ok() ==> final(self).dashboard_ok(),
            final(self).state == old(self).state,
            final(self).error == old(self).error,
            final(self).pending_confirmation == old(self).pending_confirmation,
            final(self).running_operation == old(self).running_operation,
            final(self).separator == old(self).separator,
            !e.save,
            old(self).screen is Setup ==> e.request == ManagerRequest::Nothing && final(self).screen == old(self).screen,
            old(self).screen matches Screen::Dashboard(d0) ==> (e.request matches ManagerRequest::LoadWorktrees(
                p,
            ) && p@ == old(self).state.repositories@[d0.repo_index as int].path@ && (final(self).screen matches Screen::Dashboard(d) && d.loading_worktrees && d.repo_index
                == d0.repo_index && d.worktrees == d0.worktrees && d.branches == d0.branches
                && d.wt_path_input == d0.wt_path_input && d.wt_new_branch_name
                == d0.wt_new_branch_name && d.wt_new_branch_toggle == d0.wt_new_branch_toggle
                && d.wt_branch_filter == d0.wt_branch_filter && d.wt_branch == d0.wt_branch
                && d.wt_list_filter == d0.wt_list_filter)),
    {
        let p = self.current_repo_path();
        if let Screen::Dashboard(d) = &mut self.screen {
            d.loading_worktrees = true;
        }
        match p {
            Some(p) => effect(false, ManagerRequest::LoadWorktrees(p)),
            None => nothing(),
        }
    }

    /// The worktree list arrived (or failed to).
    pub fn worktrees_loaded(&mut self, result: Result<Vec<Worktree>, String>)
        ensures
            old(self).dashboard_ok() ==> final(self).dashboard_ok(),
            final(self).state == old(self).state,
            final(self).pending_confirmation == old(self).pending_confirmation,
            final(self).running_operation == old(self).running_operation,
            final(self).separator == old(self).separator,
            old(self).screen is Setup ==> final(self).screen == old(self).screen && final(self).error == old(self).error,
            old(self).screen matches Screen::Dashboard(d0) ==> (final(self).screen matches Screen::Dashboard(
                d,
            ) && !d.loading_worktrees && d == (DashboardState { loading_worktrees: false, worktrees: d.worktrees, ..d0 }) && (match result {
                Ok(w) => d.worktrees == w && final(self).error == old(self).error,
                Err(m) => d.worktrees == d0.worktrees && (final(self).error matches Some(er)
                    && er.message@ == "Failed to list worktrees"@ && er.detail == Some(m)),
            })),
    {
        let mut failed: Option<String> = None;
        if let Screen::Dashboard(d) = &mut self.screen {
            d.loading_worktrees = false;
            match result {
                Ok(wts) => {
                    d.worktrees = wts;
                },
                Err(e) => {
                    failed = Some(e);
                },
            }
        }
        if let Some(e) = failed {
            self.set_error("Failed to list worktrees", Some(e));
        }
    }

    /// The branch list arrived (or failed to); the first branch becomes the
    /// choice when none was made.
    pub fn branches_loaded(&mut self, result: Result<Vec<String>, String>)
        ensures
            old(self).dashboard_ok() ==> final(self).dashboard_ok(),
            final(self).state == old(self).state,
            final(self).pending_confirmation == old(self).pending_confirmation,
            final(self).running_operation == old(self).running_operation,
            final(self).separator == old(self).separator,
            old(self).screen is Setup ==> final(self).screen == old(self).screen && final(self).error == old(self).error,
            old(self).screen matches Screen::Dashboard(d0) ==> (final(self).screen matches Screen::Dashboard(
                d,
            ) && d == (DashboardState { branches: d.branches, wt_branch: d.wt_branch, ..d0 }) && (match result {
                Ok(bs) => d.branches == bs && final(self).error == old(self).error && (if d0.wt_branch
                    is None {
                    if bs@.len() > 0 {
                        d.wt_branch matches Some(b) && b@ == bs@[0]@
                    } else {
                        d.wt_branch is None
                    }
                } else {
                    d.wt_branch == d0.wt_branch
                }),
                Err(m) => d.branches == d0.branches && d.wt_branch == d0.wt_branch && (final(self).error matches Some(er) && er.message@ == "Failed to list branches"@ && er.detail
                    == Some(m)),
            })),
    {
        let mut failed: Option<String> = None;
        if let Screen::Dashboard(d) = &mut self.screen {
            match result {
                Ok(branches) => {
                    if d.wt_branch.is_none() && branches.len() > 0 {
                        d.wt_branch = Some(branches[0].clone());
                    }
                    d.branches = branches;
                },
                Err(e) => {
                    failed = Some(e);
                },
            }
        }
        if let Some(e) = failed {
            self.set_error("Failed to list branches", Some(e));
        }
    }
}

impl ManagerState {
    /// Ask for a folder.
    pub fn pick_folder(&self, purpose: FolderPurpose) -> (e: ManagerEffect)
        ensures
            e == (ManagerEffect { save: false, request: ManagerRequest::PickFolder(purpose) }),
    {
        effect(false, ManagerRequest::PickFolder(purpose))
    }

    /// The worktree path field changed.
    pub fn wt_path_changed(&mut self, p: String)
        ensures
            old(self).dashboard_ok() ==> final(self).dashboard_ok(),
            final(self).state == old(self).state,
            final(self).error == old(self).error,
            final(self).pending_confirmation == old(self).pending_confirmation,
            final(self).running_operation == old(self).running_operation,
            old(self).screen is Setup ==> final(self).screen == old(self).screen,
            old(self).screen matches Screen::Dashboard(d0) ==> (final(self).screen matches Screen::Dashboard(
                d,
            ) && d == (DashboardState { wt_path_input: p, ..d0 })),
    {
        if let Screen::Dashboard(d) = &mut self.screen {
            d.wt_path_input = p;
        }
    }

    /// A folder was picked for the worktree (or the picker was closed).
    pub fn wt_dir_picked(&mut self, path: Option<String>)
        ensures
            old(self).dashboard_ok() ==> final(self).dashboard_ok(),
            final(self).state == old(self).state,
            final(self).error == old(self).error,
            final(self).pending_confirmation == old(self).pending_confirmation,
            final(self).running_operation == old(self).running_operation,
            (old(self).screen is Setup || path is None) ==> final(self).screen == old(self).screen,
            old(self).screen matches Screen::Dashboard(d0) ==> (path matches Some(p) ==> (final(self).screen matches Screen::Dashboard(d) && d == (DashboardState { wt_path_input: p, ..d0 }))),
    {
        if let Screen::Dashboard(d) = &mut self.screen {
            if let Some(p) = path {
                d.wt_path_input = p;
            }
        }
    }

    /// The branch filter of the worktree form changed.
    pub fn wt_branch_filter_changed(&mut self, f: String)
        ensures
            old(self).dashboard_ok() ==> final(self).dashboard_ok(),
            final(self).state == old(self).state,
            final(self).error == old(self).error,
            final(self).pending_confirmation == old(self).pending_confirmation,
            final(self).running_operation == old(self).running_operation,
            old(self).screen is Setup ==> final(self).screen == old(self).screen,
            old(self).screen matches Screen::Dashboard(d0) ==> (final(self).screen matches Screen::Dashboard(
                d,
            ) && d == (DashboardState { wt_branch_filter: f, ..d0 })),
    {
        if let Screen::Dashboard(d) = &mut self.screen {
            d.wt_branch_filter = f;
        }
    }

    /// A branch was chosen for the new worktree; the filter shows its name.
    pub fn wt_branch_selected(&mut self, b: String)
        ensures
            old(self).dashboard_ok() ==> final(self).dashboard_ok(),
            final(self).state == old(self).state,
            final(self).error == old(self).error,
            final(self).pending_confirmation == old(self).pending_confirmation,
            final(self).running_operation == old(self).running_operation,
            old(self).screen is Setup ==> final(self).screen == old(self).screen,
            old(self).screen matches Screen::Dashboard(d0) ==> (final(self).screen matches Screen::Dashboard(
                d,
            ) && d.wt_branch_filter@ == b@ && (d.wt_branch matches Some(x) && x@ == b@)
                && d == (DashboardState { wt_branch_filter: d.wt_branch_filter, wt_branch: d.wt_branch, ..d0 })),
    {
        if let Screen::Dashboard(d) = &mut self.screen {
            d.wt_branch_filter = b.clone();
            d.wt_branch = Some(b);
        }
    }

    /// The "create new branch" switch changed.
    pub fn wt_new_branch_toggled(&mut self, on: bool)
        ensures
            old(self).dashboard_ok() ==> final(self).dashboard_ok(),
            final(self).state == old(self).state,
            final(self).error == old(self).error,
            final(self).pending_confirmation == old(self).pending_confirmation,
            final(self).running_operation == old(self).running_operation,
            old(self).screen is Setup ==> final(self).screen == old(self).screen,
            old(self).screen matches Screen::Dashboard(d0) ==> (final(self).screen matches Screen::Dashboard(
                d,
            ) && d == (DashboardState { wt_new_branch_toggle: on, ..d0 })),
    {
        if let Screen::Dashboard(d) = &mut self.screen {
            d.wt_new_branch_toggle = on;
        }
    }

    /// The new branch name changed.
    pub fn wt_new_branch_name_changed(&mut self, name: String)
        ensures
            old(self).dashboard_ok() ==> final(self).dashboard_ok(),
            final(self).state == old(self).state,
            final(self).error == old(self).error,
            final(self).pending_confirmation == old(self).pending_confirmation,
            final(self).running_operation == old(self).running_operation,
            old(self).screen is Setup ==> final(self).screen == old(self).screen,
            old(self).screen matches Screen::Dashboard(d0) ==> (final(self).screen matches Screen::Dashboard(
                d,
            ) && d == (DashboardState { wt_new_branch_name: name, ..d0 })),
    {
        if let Screen::Dashboard(d) = &mut self.screen {
            d.wt_new_branch_name = name;
        }
    }

    /// The worktree list's filter changed.
    pub fn wt_list_filter_changed(&mut self, f: String)
        ensures
            old(self).dashboard_ok() ==> final(self).dashboard_ok(),
            final(self).state == old(self).state,
            final(self).error == old(self).error,
            final(self).pending_confirmation == old(self).pending_confirmation,
            final(self).running_operation == old(self).running_operation,
            old(self).screen is Setup ==> final(self).screen == old(self).screen,
            old(self).screen matches Screen::Dashboard(d0) ==> (final(self).screen matches Screen::Dashboard(
                d,
            ) && d == (DashboardState { wt_list_filter: f, ..d0 })),
    {
        if let Screen::Dashboard(d) = &mut self.screen {
            d.wt_list_filter = f;
        }
    }

    /// Create a worktree at the (trimmed) path from the chosen branch, on a
    /// new branch when asked for and named (trimmed, non-empty).
    pub fn add_worktree(&mut self) -> (e: ManagerEffect)
        requires
            old(self).dashboard_ok(),
        ensures
            old(self).dashboard_ok() ==> final(self).dashboard_ok(),
            final(self).state == old(self).state,
            final(self).screen == old(self).screen,
            final(self).pending_confirmation == old(self).pending_confirmation,
            !e.save,
            old(self).screen is Setup ==> e.request == ManagerRequest::Nothing && final(self).error == old(self).error && final(self).running_operation == old(self).running_operation,
            old(self).screen matches Screen::Dashboard(d) ==> (if d.wt_branch is None {
                &&& e.request == ManagerRequest::Nothing
                &&& final(self).error matches Some(er) && er.message@ == "Select a branch first"@
                    && er.detail is None
                &&& final(self).running_operation == old(self).running_operation
            } else {
                &&& e.request matches ManagerRequest::AddWorktree {
                    repo_path,
                    wt_path,
                    branch,
                    new_branch,
                } && repo_path@ == old(self).state.repositories@[d.repo_index as int].path@
                    && wt_path@ == trim(d.wt_path_input@) && branch@ == d.wt_branch->Some_0@ && (
                if d.wt_new_branch_toggle && trim(d.wt_new_branch_name@).len() > 0 {
                    new_branch matches Some(n) && n@ == trim(d.wt_new_branch_name@)
                } else {
                    new_branch is None
                })
                &&& final(self).running_operation matches Some(op) && op.label@
                    == "Creating worktree…"@ && op.output_lines@.len() == 0 && op.finished is None
                &&& final(self).error == old(self).error
            }),
    {
        let repo_path = match self.current_repo_path() {
            Some(p) => p,
            None => {
                return nothing();
            },
        };
        let (wt_path, branch, new_branch) = match &self.screen {
            Screen::Dashboard(d) => {
                let wt_path = trimmed(d.wt_path_input.as_str());
                let branch = match &d.wt_branch {
                    Some(b) => b.clone(),
                    None => {
                        self.set_error("Select a branch first", None);
                        return nothing();
                    },
                };
                let name = trimmed(d.wt_new_branch_name.as_str());
                let new_branch = if d.wt_new_branch_toggle && !name.as_str().is_empty() {
                    Some(name)
                } else {
                    None
                };
                (wt_path, branch, new_branch)
            },
            Screen::Setup(_) => {
                return nothing();
            },
        };
        self.running_operation = Some(running("Creating worktree…"));
        effect(false, ManagerRequest::AddWorktree { repo_path, wt_path, branch, new_branch })
    }

    /// Ask to confirm removing the worktree at `wt_path`.
    pub fn remove_worktree(&mut self, wt_path: String)
        requires
            old(self).dashboard_ok(),
        ensures
            old(self).dashboard_ok() ==> final(self).dashboard_ok(),
            final(self).state == old(self).state,
            final(self).screen == old(self).screen,
            final(self).error == old(self).error,
            final(self).running_operation == old(self).running_operation,
            old(self).screen is Setup ==> final(self).pending_confirmation == old(self).pending_confirmation,
            old(self).screen matches Screen::Dashboard(d) ==> (final(self).pending_confirmation matches Some(
                PendingConfirmation::RemoveWorktree { description, repo_path, wt_path: w },
            ) && description@ == "Remove worktree at "@ + wt_path@ + "?"@ && repo_path@ == old(self).state.repositories@[d.repo_index as int].path@ && w == wt_path),
    {
        if let Some(repo_path) = self.current_repo_path() {
            let mut description = "Remove worktree at ".to_owned();
            description.append(wt_path.as_str());
            description.append("?");
            self.pending_confirmation = Some(
                PendingConfirmation::RemoveWorktree { description, repo_path, wt_path },
            );
        }
    }

    /// Open a worktree's folder.
    pub fn open_worktree_folder(&self, path: String) -> (e: ManagerEffect)
        ensures
            e == (ManagerEffect { save: false, request: ManagerRequest::OpenPath(path) }),
    {
        effect(false, ManagerRequest::OpenPath(path))
    }

    /// Explore a worktree's history in the viewer.
    pub fn explore_worktree(&self, path: String) -> (e: ManagerEffect)
        ensures
            e == (ManagerEffect { save: false, request: ManagerRequest::LaunchExplorer(path) }),
    {
        effect(false, ManagerRequest::LaunchExplorer(path))
    }

    /// The viewer could not be started.
    pub fn explorer_failed(&mut self, binary: &str, reason: &str)
        ensures
            old(self).dashboard_ok() ==> final(self).dashboard_ok(),
            final(self).error matches Some(er) && er.message@ == "Failed to launch gitgows"@ && (
            er.detail matches Some(d) && d@ == "Could not start "@ + binary@ + ": "@ + reason@),
            final(self).state == old(self).state,
            final(self).screen == old(self).screen,
            final(self).pending_confirmation == old(self).pending_confirmation,
            final(self).running_operation == old(self).running_operation,
    {
        let mut d = "Could not start ".to_owned();
        d.append(binary);
        d.append(": ");
        d.append(reason);
        self.set_error("Failed to launch gitgows", Some(d));
    }

    /// An event of the running git operation: output is collected; the end
    /// relabels the operation and records how it ended.
    pub fn git_op(&mut self, event: GitEvent)
        ensures
            old(self).dashboard_ok() ==> final(self).dashboard_ok(),
            final(self).state == old(self).state,
            final(self).screen == old(self).screen,
            final(self).error == old(self).error,
            final(self).pending_confirmation == old(self).pending_confirmation,
            old(self).running_operation is None ==> final(self).running_operation is None,
            old(self).running_operation matches Some(op0) ==> (final(self).running_operation matches Some(
                op,
            ) && (match event {
                GitEvent::Output(line) => op.output_lines@ == op0.output_lines@.push(line)
                    && op.label == op0.label && op.finished == op0.finished,
                GitEvent::Done(r) => op.label@ == done_label(r) && op.output_lines
                    == op0.output_lines && op.finished == Some(FinishedOp::Success(r)),
                GitEvent::Failed(m) => op.label@ == "Operation failed ✗"@ && op.output_lines@.len()
                    == op0.output_lines@.len() + 1 && op.output_lines@.take(
                    op0.output_lines@.len() as int,
                ) == op0.output_lines@ && op.output_lines@.last()@ == "ERROR: "@ + m@
                    && op.finished == Some(FinishedOp::Failed),
            })),
    {
        if let Some(op) = &mut self.running_operation {
            match event {
                GitEvent::Output(line) => {
                    op.output_lines.push(line);
                },
                GitEvent::Done(result) => {
                    op.label = match &result {
                        GitResult::CloneDone => "Clone finished ✓".to_owned(),
                        GitResult::SyncDone(s) => {
                            let mut l = s.clone();
                            l.append("\nSync finished ✓");
                            l
                        },
                        GitResult::WorktreeAddDone => "Worktree added ✓".to_owned(),
                        GitResult::WorktreeRemoveDone => "Worktree removed ✓".to_owned(),
                    };
                    op.finished = Some(FinishedOp::Success(result));
                },
                GitEvent::Failed(e) => {
                    op.label = "Operation failed ✗".to_owned();
                    let mut l = "ERROR: ".to_owned();
                    l.append(e.as_str());
                    let ghost before = op.output_lines@;
                    op.output_lines.push(l);
                    assert(op.output_lines@.take(before.len() as int) =~= before);
                    op.finished = Some(FinishedOp::Failed);
                },
            }
        }
    }

    /// Cancel the pending confirmation.
    pub fn cancel_action(&mut self)
        ensures
            old(self).dashboard_ok() ==> final(self).dashboard_ok(),
            final(self).pending_confirmation is None,
            final(self).state == old(self).state,
            final(self).screen == old(self).screen,
            final(self).error == old(self).error,
            final(self).running_operation == old(self).running_operation,
    {
        self.pending_confirmation = None;
    }

    /// Carry out the pending confirmation: remove the worktree (a running
    /// operation), or untrack the repository (saved; no files are touched).
    pub fn confirm_action(&mut self) -> (e: ManagerEffect)
        ensures
            old(self).dashboard_ok() && !(old(self).screen is Dashboard && old(self).pending_confirmation matches Some(PendingConfirmation::RemoveRepository { .. })) ==> final(self).dashboard_ok(),
            final(self).pending_confirmation is None,
            final(self).screen == old(self).screen,
            final(self).error == old(self).error,
            final(self).state.default_repo_dir == old(self).state.default_repo_dir,
            old(self).pending_confirmation is None ==> final(self).state == old(self).state && e
                == (ManagerEffect { save: false, request: ManagerRequest::Nothing }) && final(self).running_operation == old(self).running_operation,
            old(self).pending_confirmation matches Some(PendingConfirmation::RemoveWorktree {
                repo_path,
                wt_path,
                ..
            }) ==> final(self).state == old(self).state && e == (ManagerEffect {
                save: false,
                request: ManagerRequest::RemoveWorktree { repo_path, wt_path },
            }) && (final(self).running_operation matches Some(op) && op.label@
                == "Removing worktree…"@ && op.output_lines@.len() == 0 && op.finished is None),
            old(self).pending_confirmation matches Some(PendingConfirmation::RemoveRepository {
                index,
                ..
            }) ==> final(self).running_operation == old(self).running_operation && e.request
                == ManagerRequest::Nothing && (if index < old(self).state.repositories@.len() {
                e.save && final(self).state@.repositories == old(self).state@.repositories.remove(
                    index as int,
                )
            } else {
                !e.save && final(self).state == old(self).state
            }),
    {
        match self.pending_confirmation.take() {
            Some(PendingConfirmation::RemoveWorktree { repo_path, wt_path, .. }) => {
                self.running_operation = Some(running("Removing worktree…"));
                effect(false, ManagerRequest::RemoveWorktree { repo_path, wt_path })
            },
            Some(PendingConfirmation::RemoveRepository { index, .. }) => {
                if index < self.state.repositories.len() {
                    self.state.untrack(index);
                    effect(true, ManagerRequest::Nothing)
                } else {
                    nothing()
                }
            },
            None => nothing(),
        }
    }

    /// Put a text on the clipboard.
    pub fn copy_to_clipboard(&self, content: String) -> (e: ManagerEffect)
        ensures
            e == (ManagerEffect { save: false, request: ManagerRequest::WriteClipboard(content) }),
    {
        effect(false, ManagerRequest::WriteClipboard(content))
    }

    /// The clipboard was read: on the setup screen with an empty URL, a
    /// clipboard text (trimmed) that looks like a repository URL becomes the
    /// URL, and with a default directory the destination is suggested.
    pub fn clipboard_read(&mut self, content: Option<String>)
        ensures
            old(self).dashboard_ok() ==> final(self).dashboard_ok(),
            final(self).state == old(self).state,
            final(self).error == old(self).error,
            final(self).pending_confirmation == old(self).pending_confirmation,
            final(self).running_operation == old(self).running_operation,
            old(self).screen is Dashboard ==> final(self).screen == old(self).screen,
            old(self).screen matches Screen::Setup(s0) ==> (final(self).screen matches Screen::Setup(
                s,
            ) && s.tracked_repo_filter == s0.tracked_repo_filter && (if s0.url_input@.len() == 0
                && content is Some && looks_like_repo_url(trim(content->Some_0@)) {
                let t = trim(content->Some_0@);
                &&& s.url_input@ == t
                &&& if old(self).state.default_repo_dir is Some && name_from_url(t).len() > 0 {
                    s.dest_input@ == suggested_dest(
                        opt_text(old(self).state.default_repo_dir)->Some_0,
                        name_from_url(t),
                        old(self).separator@,
                    ) && s.dest_auto_filled
                } else {
                    s.dest_input == s0.dest_input && s.dest_auto_filled == s0.dest_auto_filled
                }
            } else {
                s.url_input == s0.url_input && s.dest_input == s0.dest_input && s.dest_auto_filled
                    == s0.dest_auto_filled
            })),
    {
        if let Screen::Setup(s) = &mut self.screen {
            if s.url_input.as_str().is_empty() {
                if let Some(text) = content {
                    let t = trimmed(text.as_str());
                    if is_repo_url(t.as_str()) {
                        let name = repo_name_from_url(t.as_str());
                        s.url_input = t;
                        if let Some(base) = &self.state.default_repo_dir {
                            if !name.as_str().is_empty() {
                                s.dest_input = suggest(
                                    base.as_str(),
                                    name.as_str(),
                                    self.separator.as_str(),
                                );
                                s.dest_auto_filled = true;
                            }
                        }
                    }
                }
            }
        }
    }

    /// The default repository directory was typed: blank clears it. Saved.
    pub fn default_repo_dir_changed(&mut self, dir: String) -> (e: ManagerEffect)
        ensures
            old(self).dashboard_ok() ==> final(self).dashboard_ok(),
            trim(dir@).len() == 0 ==> final(self).state.default_repo_dir is None,
            trim(dir@).len() > 0 ==> final(self).state.default_repo_dir == Some(dir),
            final(self).state.repositories == old(self).state.repositories,
            final(self).screen == old(self).screen,
            final(self).error == old(self).error,
            final(self).pending_confirmation == old(self).pending_confirmation,
            final(self).running_operation == old(self).running_operation,
            e == (ManagerEffect { save: true, request: ManagerRequest::Nothing }),
    {
        let t = trimmed(dir.as_str());
        self.state.default_repo_dir = if t.as_str().is_empty() {
            None
        } else {
            Some(dir)
        };
        effect(true, ManagerRequest::Nothing)
    }

    /// A default repository directory was picked (saved), or the picker was
    /// closed.
    pub fn default_repo_dir_picked(&mut self, path: Option<String>) -> (e: ManagerEffect)
        ensures
            old(self).dashboard_ok() ==> final(self).dashboard_ok(),
            path is Some ==> final(self).state.default_repo_dir == path && e == (ManagerEffect {
                save: true,
                request: ManagerRequest::Nothing,
            }),
            path is None ==> final(self).state.default_repo_dir == old(self).state.default_repo_dir
                && e == (ManagerEffect { save: false, request: ManagerRequest::Nothing }),
            final(self).state.repositories == old(self).state.repositories,
            final(self).screen == old(self).screen,
            final(self).error == old(self).error,
            final(self).pending_confirmation == old(self).pending_confirmation,
            final(self).running_operation == old(self).running_operation,
    {
        if let Some(p) = path {
            self.state.default_repo_dir = Some(p);
            return effect(true, ManagerRequest::Nothing);
        }
        nothing()
    }

    /// Forget the default repository directory. Saved.
    pub fn clear_default_repo_dir(&mut self) -> (e: ManagerEffect)
        ensures
            old(self).dashboard_ok() ==> final(self).dashboard_ok(),
            final(self).state.default_repo_dir is None,
            final(self).state.repositories == old(self).state.repositories,
            final(self).screen == old(self).screen,
            final(self).error == old(self).error,
            final(self).pending_confirmation == old(self).pending_confirmation,
            final(self).running_operation == old(self).running_operation,
            e == (ManagerEffect { save: true, request: ManagerRequest::Nothing }),
    {
        self.state.default_repo_dir = None;
        effect(true, ManagerRequest::Nothing)
    }

    /// Show or hide the error's detail.
    pub fn toggle_error_detail(&mut self)
        ensures
            old(self).dashboard_ok() ==> final(self).dashboard_ok(),
            old(self).error is None ==> final(self).error is None,
            old(self).error matches Some(e0) ==> (final(self).error matches Some(e) && e.message
                == e0.message && e.detail == e0.detail && e.show_detail == !e0.show_detail),
            final(self).state == old(self).state,
            final(self).screen == old(self).screen,
            final(self).pending_confirmation == old(self).pending_confirmation,
            final(self).running_operation == old(self).running_operation,
    {
        if let Some(err) = &mut self.error {
            err.show_detail = !err.show_detail;
        }
    }

    /// Close the error.
    pub fn dismiss_error(&mut self)
        ensures
            old(self).dashboard_ok() ==> final(self).dashboard_ok(),
            final(self).error is None,
            final(self).state == old(self).state,
            final(self).screen == old(self).screen,
            final(self).pending_confirmation == old(self).pending_confirmation,
            final(self).running_operation == old(self).running_operation,
    {
        self.error = None;
    }
}

impl ManagerState {
    /// Close the progress dialog and act on how the operation ended: a
    /// finished clone is tracked (saved) and its page opens; a new worktree
    /// is saved, the form emptied and the list reloaded; after a removal the
    /// list is reloaded.
    pub fn dismiss_progress(&mut self) -> (e: ManagerEffect)
        requires
            old(self).dashboard_ok(),
        ensures
            old(self).dashboard_ok() ==> final(self).dashboard_ok(),
            final(self).running_operation is None,
            final(self).pending_confirmation == old(self).pending_confirmation,
            final(self).error == old(self).error,
            final(self).state.default_repo_dir == old(self).state.default_repo_dir,
            ({
                let fin = match old(self).running_operation {
                    Some(op) => op.finished,
                    None => None,
                };
                match fin {
                    Some(FinishedOp::Success(GitResult::CloneDone)) => match old(self).screen {
                        Screen::Setup(s) => {
                            &&& final(self).state@.repositories == old(self).state@.repositories.push(
                                RepositoryView {
                                    name: name_from_url(trim(s.url_input@)),
                                    path: trim(s.dest_input@),
                                    url: trim(s.url_input@),
                                    worktrees: Seq::empty(),
                                },
                            )
                            &&& e.save
                            &&& e.request matches ManagerRequest::LoadRepositoryData(p) && p@ == trim(
                                s.dest_input@,
                            )
                            &&& final(self).screen matches Screen::Dashboard(d)
                                && is_fresh_dashboard(d, old(self).state.repositories@.len() as int)
                        },
                        Screen::Dashboard(_) => {
                            &&& final(self).state == old(self).state
                            &&& final(self).screen == old(self).screen
                            &&& e == (ManagerEffect { save: false, request: ManagerRequest::Nothing })
                        },
                    },
                    Some(FinishedOp::Success(GitResult::WorktreeAddDone)) => match old(self).screen {
                        Screen::Dashboard(d0) => {
                            &&& final(self).state == old(self).state
                            &&& e.save
                            &&& e.request matches ManagerRequest::LoadWorktrees(p) && p@ == old(
                                self,
                            ).state.repositories@[d0.repo_index as int].path@
                            &&& final(self).screen matches Screen::Dashboard(d) && d.repo_index
                                == d0.repo_index && d.wt_path_input@.len() == 0
                                && d.wt_new_branch_name@.len() == 0 && !d.wt_new_branch_toggle
                                && d.wt_branch_filter@.len() == 0 && d.loading_worktrees
                                && d.wt_branch == d0.wt_branch && d.worktrees == d0.worktrees
                                && d.branches == d0.branches && d.wt_list_filter == d0.wt_list_filter
                        },
                        Screen::Setup(_) => {
                            &&& final(self).state == old(self).state
                            &&& final(self).screen == old(self).screen
                            &&& e == (ManagerEffect { save: false, request: ManagerRequest::Nothing })
                        },
                    },
                    Some(FinishedOp::Success(GitResult::WorktreeRemoveDone)) => {
                        &&& final(self).state == old(self).state
                        &&& !e.save
                        &&& match old(self).screen {
                            Screen::Dashboard(d0) => (e.request matches ManagerRequest::LoadWorktrees(
                                p,
                            ) && p@ == old(self).state.repositories@[d0.repo_index as int].path@)
                                && final(self).screen == Screen::Dashboard(
                                (DashboardState { loading_worktrees: true, ..d0 }),
                            ),
                            Screen::Setup(_) => e.request == ManagerRequest::Nothing
                                && final(self).screen == old(self).screen,
                        }
                    },
                    _ => {
                        &&& final(self).state == old(self).state
                        &&& final(self).screen == old(self).screen
                        &&& e == (ManagerEffect { save: false, request: ManagerRequest::Nothing })
                    },
                }
            }),
    {
        let op = match self.running_operation.take() {
            Some(op) => op,
            None => {
                return nothing();
            },
        };
        match op.finished {
            Some(FinishedOp::Success(GitResult::CloneDone)) => {
                let (url, dest) = match &self.screen {
                    Screen::Setup(s) => (trimmed(s.url_input.as_str()), trimmed(s.dest_input.as_str())),
                    Screen::Dashboard(_) => {
                        return nothing();
                    },
                };
                let repo = Repository::from_clone(url.as_str(), dest.as_str());
                let ghost rv = repo@;
                let ghost before = self.state.repositories@;
                self.state.repositories.push(repo);
                assert(crate::state::repository_views(self.state.repositories@) =~= crate::state::repository_views(before).push(rv));
                assert(rv.worktrees =~= Seq::empty());
                let idx = self.state.repositories.len() - 1;
                assert(self.state.repositories@[idx as int]@ == rv);
                let e = self.go_to_dashboard(idx);
                effect(true, e.request)
            },
            Some(FinishedOp::Success(GitResult::WorktreeAddDone)) => {
                if let Screen::Dashboard(d) = &mut self.screen {
                    d.wt_path_input = String::new();
                    d.wt_new_branch_name = String::new();
                    d.wt_new_branch_toggle = false;
                    d.wt_branch_filter = String::new();
                } else {
                    return nothing();
                }
                let e = self.refresh_worktrees();
                effect(true, e.request)
            },
            Some(FinishedOp::Success(GitResult::WorktreeRemoveDone)) => self.refresh_worktrees(),
            _ => nothing(),
        }
    }
}

impl PendingConfirmation {
    /// The question shown to the user.
    pub fn description(&self) -> (d: &String)
        ensures
            match self {
                PendingConfirmation::RemoveWorktree { description, .. } => *d == description,
                PendingConfirmation::RemoveRepository { description, .. } => *d == description,
            },
    {
        match self {
            PendingConfirmation::RemoveWorktree { description, .. } => description,
            PendingConfirmation::RemoveRepository { description, .. } => description,
        }
    }
}

} // verus!
