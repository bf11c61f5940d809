use gitgobig::manager::{
    FinishedOp, GitEvent, GitResult, ManagerEffect, ManagerRequest, ManagerState, PendingConfirmation, Screen,
};
use gitgobig::types::{AppState, Repository};

fn empty_state(default_dir: Option<&str>) -> AppState {
    AppState { repositories: vec![], default_repo_dir: default_dir.map(|d| d.to_string()) }
}

fn manager(default_dir: Option<&str>) -> ManagerState {
    ManagerState::new(empty_state(default_dir), Ok(()), "/".to_string()).0
}

fn setup_url(m: &ManagerState) -> (String, String) {
    match &m.screen {
        Screen::Setup(s) => (s.url_input.clone(), s.dest_input.clone()),
        Screen::Dashboard(_) => panic!("not on the setup screen"),
    }
}

#[test]
fn opening_reads_the_clipboard_and_reports_missing_git() {
    let (m, e) = ManagerState::new(empty_state(None), Err("no git".into()), "/".into());
    assert_eq!(e, ManagerEffect { save: false, request: ManagerRequest::ReadClipboard });
    let err = m.error.unwrap();
    assert_eq!(err.message, "git is not installed or not found on PATH");
    assert_eq!(err.detail, Some("no git".to_string()));
}

#[test]
fn url_suggests_a_destination_under_the_default_directory() {
    let mut m = manager(Some("/repos"));
    m.url_changed("https://github.com/u/proj.git".into());
    assert_eq!(setup_url(&m).1, "/repos/proj/proj_bare");
    m.dest_changed("/elsewhere".into());
    m.url_changed("https://github.com/u/other.git".into());
    assert_eq!(setup_url(&m).1, "/elsewhere");
}

#[test]
fn clipboard_url_fills_an_empty_form() {
    let mut m = manager(None);
    m.clipboard_read(Some("  git@github.com:u/r.git \n".into()));
    assert_eq!(setup_url(&m).0, "git@github.com:u/r.git");
    let mut m = manager(None);
    m.clipboard_read(Some("just some words".into()));
    assert_eq!(setup_url(&m).0, "");
}

#[test]
fn clone_needs_url_and_destination() {
    let mut m = manager(None);
    let e = m.clone();
    assert_eq!(e.request, ManagerRequest::Nothing);
    assert_eq!(m.error.as_ref().unwrap().message, "URL and destination must not be empty");
    m.dismiss_error();
    m.url_changed(" https://e.com/a/b.git ".into());
    m.dest_changed("/tmp/b.git".into());
    let e = m.clone();
    assert_eq!(
        e.request,
        ManagerRequest::Clone { url: "https://e.com/a/b.git".into(), dest: "/tmp/b.git".into() }
    );
    assert_eq!(m.running_operation.as_ref().unwrap().label, "Cloning…");
}

#[test]
fn finished_clone_is_tracked_when_the_dialog_closes() {
    let mut m = manager(None);
    m.url_changed("https://e.com/a/b.git".into());
    m.dest_changed("/tmp/b.git".into());
    m.clone();
    m.git_op(GitEvent::Output("Receiving objects".into()));
    m.git_op(GitEvent::Done(GitResult::CloneDone));
    let op = m.running_operation.as_ref().unwrap();
    assert_eq!(op.label, "Clone finished ✓");
    assert_eq!(op.output_lines, vec!["Receiving objects".to_string()]);
    assert!(matches!(op.finished, Some(FinishedOp::Success(GitResult::CloneDone))));
    let e = m.dismiss_progress();
    assert!(e.save);
    assert_eq!(e.request, ManagerRequest::LoadRepositoryData("/tmp/b.git".into()));
    assert!(m.running_operation.is_none());
    assert_eq!(m.state.repositories.len(), 1);
    assert_eq!(m.state.repositories[0].name, "b");
    assert!(matches!(m.screen, Screen::Dashboard(ref d) if d.repo_index == 0));
}

#[test]
fn failed_operation_logs_the_error() {
    let mut m = manager(None);
    m.url_changed("u".into());
    m.dest_changed("d".into());
    m.clone();
    m.git_op(GitEvent::Failed("fatal: nope".into()));
    let op = m.running_operation.as_ref().unwrap();
    assert_eq!(op.label, "Operation failed ✗");
    assert_eq!(op.output_lines.last().unwrap(), "ERROR: fatal: nope");
    let e = m.dismiss_progress();
    assert_eq!(e, ManagerEffect { save: false, request: ManagerRequest::Nothing });
    assert!(m.state.repositories.is_empty());
}

#[test]
fn removing_a_repository_waits_for_confirmation() {
    let mut st = empty_state(None);
    st.repositories.push(Repository { name: "r".into(), path: "/r.git".into(), url: "u".into(), worktrees: vec![] });
    let (mut m, _) = ManagerState::new(st, Ok(()), "/".into());
    m.remove_repository(0);
    match &m.pending_confirmation {
        Some(PendingConfirmation::RemoveRepository { description, index }) => {
            assert_eq!(*index, 0);
            assert_eq!(description, "Remove tracked repository \"r\"? (No files will be deleted on disk.)");
        }
        _ => panic!("no confirmation pending"),
    }
    m.cancel_action();
    assert!(m.pending_confirmation.is_none());
    assert_eq!(m.state.repositories.len(), 1);
    m.remove_repository(0);
    let e = m.confirm_action();
    assert!(e.save);
    assert!(m.state.repositories.is_empty());
    assert_eq!(m.confirm_action(), ManagerEffect { save: false, request: ManagerRequest::Nothing });
}

#[test]
fn dashboard_loads_the_repository_data() {
    let mut st = empty_state(None);
    st.repositories.push(Repository { name: "r".into(), path: "/r.git".into(), url: "u".into(), worktrees: vec![] });
    let (mut m, _) = ManagerState::new(st, Ok(()), "/".into());
    assert_eq!(m.go_to_dashboard(5), ManagerEffect { save: false, request: ManagerRequest::Nothing });
    let e = m.go_to_dashboard(0);
    assert_eq!(e.request, ManagerRequest::LoadRepositoryData("/r.git".into()));
    let e = m.sync();
    assert_eq!(e.request, ManagerRequest::Sync("/r.git".into()));
}

#[test]
fn default_directory_is_saved() {
    let mut m = manager(None);
    let e = m.default_repo_dir_changed("  ".into());
    assert!(e.save);
    assert_eq!(m.state.default_repo_dir, None);
    m.default_repo_dir_changed("/base".into());
    assert_eq!(m.state.default_repo_dir, Some("/base".to_string()));
    m.clear_default_repo_dir();
    assert_eq!(m.state.default_repo_dir, None);
}
