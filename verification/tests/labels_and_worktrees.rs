use gitgobig::git::{append_output_line, finished_event, CollectedOutput, GitError};
use gitgobig::manager::{
    GitEvent, GitResult, LocalRepoInfo, ManagerRequest, ManagerState, PendingConfirmation, Screen,
};
use gitgobig::text::parse_usize;
use gitgobig::types::{short_commit, AppState, Repository, Worktree};

fn wt(path: &str, branch: Option<&str>, commit: Option<&str>) -> Worktree {
    Worktree { path: path.into(), branch: branch.map(String::from), commit: commit.map(String::from) }
}

fn with_repo() -> ManagerState {
    let st = AppState {
        repositories: vec![Repository { name: "r".into(), path: "/r.git".into(), url: "u".into(), worktrees: vec![] }],
        default_repo_dir: None,
    };
    let (mut m, _) = ManagerState::new(st, Ok(()), "/".into());
    m.go_to_dashboard(0);
    m
}

#[test]
fn decimal_numbers_parse_like_str_parse() {
    assert_eq!(parse_usize("12"), Some(12));
    assert_eq!(parse_usize("+7"), Some(7));
    assert_eq!(parse_usize("007"), Some(7));
    assert_eq!(parse_usize(""), None);
    assert_eq!(parse_usize("+"), None);
    assert_eq!(parse_usize("1a"), None);
    assert_eq!(parse_usize("-1"), None);
    assert_eq!(parse_usize("99999999999999999999999999"), None);
}

#[test]
fn worktree_labels() {
    let w = wt("/w", None, Some("0123456789abcdef"));
    assert_eq!(w.branch_label(), "(detached)");
    assert_eq!(w.commit_label(), "0123456789ab");
    let w = wt("/w", Some("main"), None);
    assert_eq!(w.branch_label(), "main");
    assert_eq!(w.commit_label(), "?");
    assert_eq!(short_commit("abc"), "abc");
}

#[test]
fn output_lines_are_joined_by_newlines() {
    let mut buf = CollectedOutput::new();
    append_output_line(&mut buf, "one");
    append_output_line(&mut buf, "two");
    assert_eq!(buf.text, "one\ntwo");
    let mut buf = CollectedOutput::new();
    append_output_line(&mut buf, "");
    append_output_line(&mut buf, "a");
    append_output_line(&mut buf, "");
    assert_eq!(buf.text, "\na\n");
}

#[test]
fn finished_events_carry_the_outcome() {
    assert_eq!(finished_event(Ok(GitResult::CloneDone)), GitEvent::Done(GitResult::CloneDone));
    assert_eq!(
        finished_event(Err(GitError::CommandFailed { subcommand: "clone".into(), stderr: "fatal: x".into() })),
        GitEvent::Failed("git clone failed: fatal: x".into())
    );
}

#[test]
fn sync_result_shows_git_output_in_the_label() {
    let mut m = with_repo();
    let e = m.sync();
    assert_eq!(e.request, ManagerRequest::Sync("/r.git".into()));
    m.git_op(GitEvent::Done(GitResult::SyncDone("Fetching origin".into())));
    assert_eq!(m.running_operation.as_ref().unwrap().label, "Fetching origin\nSync finished ✓");
}

#[test]
fn adding_a_worktree_needs_a_branch() {
    let mut m = with_repo();
    let e = m.add_worktree();
    assert_eq!(e.request, ManagerRequest::Nothing);
    assert_eq!(m.error.as_ref().unwrap().message, "Select a branch first");
    m.branches_loaded(Ok(vec!["main".into(), "dev".into()]));
    m.wt_path_changed("  /w/new  ".into());
    m.wt_new_branch_toggled(true);
    m.wt_new_branch_name_changed(" feat ".into());
    let e = m.add_worktree();
    assert_eq!(
        e.request,
        ManagerRequest::AddWorktree {
            repo_path: "/r.git".into(),
            wt_path: "/w/new".into(),
            branch: "main".into(),
            new_branch: Some("feat".into()),
        }
    );
    m.git_op(GitEvent::Done(GitResult::WorktreeAddDone));
    let e = m.dismiss_progress();
    assert!(e.save);
    assert_eq!(e.request, ManagerRequest::LoadWorktrees("/r.git".into()));
    match &m.screen {
        Screen::Dashboard(d) => {
            assert_eq!(d.wt_path_input, "");
            assert_eq!(d.wt_new_branch_name, "");
            assert!(!d.wt_new_branch_toggle);
            assert_eq!(d.wt_branch, Some("main".to_string()));
            assert!(d.loading_worktrees);
        }
        Screen::Setup(_) => panic!("left the dashboard"),
    }
}

#[test]
fn removing_a_worktree_is_confirmed_first() {
    let mut m = with_repo();
    m.worktrees_loaded(Ok(vec![wt("/w/a", Some("a"), Some("1234"))]));
    m.remove_worktree("/w/a".into());
    match &m.pending_confirmation {
        Some(PendingConfirmation::RemoveWorktree { description, repo_path, wt_path }) => {
            assert_eq!(description, "Remove worktree at /w/a?");
            assert_eq!(repo_path, "/r.git");
            assert_eq!(wt_path, "/w/a");
        }
        _ => panic!("no confirmation pending"),
    }
    let e = m.confirm_action();
    assert_eq!(e.request, ManagerRequest::RemoveWorktree { repo_path: "/r.git".into(), wt_path: "/w/a".into() });
    assert_eq!(m.running_operation.as_ref().unwrap().label, "Removing worktree…");
}

#[test]
fn local_repositories_are_checked_before_tracking() {
    let (mut m, _) = ManagerState::new(AppState { repositories: vec![], default_repo_dir: None }, Ok(()), "/".into());
    let info = |git: bool, bare: bool, url: &str| LocalRepoInfo {
        path: "/x/proj".into(),
        file_name: Some("proj".into()),
        is_git_repo: git,
        is_bare: bare,
        remote_url: url.into(),
    };
    m.local_repo_picked(Some(info(false, false, "")));
    assert_eq!(m.error.as_ref().unwrap().message, "Not a git repository");
    assert_eq!(m.error.as_ref().unwrap().detail, Some("/x/proj is not a git repository".to_string()));
    assert!(m.state.repositories.is_empty());
    m.dismiss_error();
    let e = m.local_repo_picked(Some(info(true, false, "")));
    assert!(e.save);
    assert_eq!(e.request, ManagerRequest::LoadRepositoryData("/x/proj".into()));
    assert_eq!(m.state.repositories[0].name, "proj");
    assert_eq!(m.error.as_ref().unwrap().message, "Note: this is not a bare repository");
    m.dismiss_error();
    m.local_repo_picked(Some(info(true, true, "https://e.com/other.git")));
    assert_eq!(m.error.as_ref().unwrap().message, "This repository is already tracked");
    assert_eq!(m.state.repositories.len(), 1);
}

#[test]
fn viewer_launch_failure_is_reported() {
    let mut m = with_repo();
    m.explorer_failed("gitgows", "not found");
    let err = m.error.unwrap();
    assert_eq!(err.message, "Failed to launch gitgows");
    assert_eq!(err.detail, Some("Could not start gitgows: not found".to_string()));
}
