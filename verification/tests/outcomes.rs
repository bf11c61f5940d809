use gitgobig::git::{
    bare_answer, bare_command, branch_list, branch_list_outcome, clone_bare, command_result, git_dir_command,
    next_command, remote_url_answer, remote_url_command, worktree_remove, CommandOutput, GitError, PathProbe,
};
use gitgobig::history::{CommitsReply, HistoryRequest, HistoryState};
use gitgobig::log::{detail_command, log_command};
use gitgobig::order::sort_strings;
use gitgobig::text::decimal;
use gitgobig::types::CommitEntry;

fn out(success: bool, stdout: &str, stderr: &str) -> CommandOutput {
    CommandOutput { success, stdout: stdout.into(), stderr: stderr.into() }
}

fn args(c: &gitgobig::git::GitCommand) -> Vec<&str> {
    c.args.iter().map(|s| s.as_str()).collect()
}

#[test]
fn clone_bare_rejects_invalid_remote() {
    let dest = PathProbe { text: "/tmp/will-not-exist.git".into(), exists: false, utf8: true };
    let plan = clone_bare("/nonexistent/path/to/repo.git", &dest).unwrap();
    let failed = out(false, "", "fatal: repository '/nonexistent/path/to/repo.git' does not exist\n");
    let r = command_result(&plan, &failed);
    assert!(r.is_err());
    assert_eq!(
        r.unwrap_err().message(),
        "git clone failed: fatal: repository '/nonexistent/path/to/repo.git' does not exist"
    );
}

#[test]
fn branch_list_is_sorted() {
    let cmd = branch_list("/r.git");
    let r = branch_list_outcome(&cmd, &out(true, "  main\n* develop\n  remotes/origin/HEAD -> origin/main\n  remotes/origin/main\n  Zeta\n", ""));
    assert_eq!(r.unwrap(), vec!["Zeta", "develop", "main", "remotes/origin/main"]);
    let e = branch_list_outcome(&cmd, &out(false, "", "fatal: nope\n")).unwrap_err();
    assert_eq!(e, GitError::CommandFailed { subcommand: "branch".into(), stderr: "fatal: nope".into() });
    let sorted = sort_strings(vec!["b".into(), "a".into(), "ab".into(), "a".into()]);
    assert_eq!(sorted, vec!["a", "a", "ab", "b"]);
}

#[test]
fn sequences_stop_at_the_first_failure() {
    let cmds = worktree_remove("/r.git", &PathProbe { text: "/w".into(), exists: true, utf8: true }).unwrap();
    assert_eq!(next_command(&cmds, 0, &out(true, "", ""), true), Ok(Some(1)));
    assert_eq!(
        next_command(&cmds, 0, &out(false, "", "fatal: no\n"), false),
        Err(GitError::CommandFailed { subcommand: "worktree".into(), stderr: "fatal: no".into() })
    );
    assert_eq!(next_command(&cmds, 1, &out(true, "", ""), true), Ok(None));
    assert!(next_command(&cmds, 1, &out(false, "", "x"), true).is_err());
    assert_eq!(next_command(&cmds, 1, &out(false, "", "x"), false), Ok(None));
}

#[test]
fn repository_probes() {
    assert_eq!(args(&git_dir_command("/p")), vec!["rev-parse", "--git-dir"]);
    let cmd = bare_command("/p");
    assert_eq!(args(&cmd), vec!["rev-parse", "--is-bare-repository"]);
    assert_eq!(bare_answer(&cmd, &out(true, "true\n", "")), Ok(true));
    assert_eq!(bare_answer(&cmd, &out(true, "false\n", "")), Ok(false));
    assert!(bare_answer(&cmd, &out(false, "", "fatal")).is_err());
    assert_eq!(args(&remote_url_command("/p")), vec!["remote", "get-url", "origin"]);
    assert_eq!(remote_url_answer(&out(true, " https://e.com/x.git\n", "")), Some("https://e.com/x.git".to_string()));
    assert_eq!(remote_url_answer(&out(false, "", "error: No such remote")), None);
}

#[test]
fn history_commands() {
    assert_eq!(decimal(0), "0");
    assert_eq!(decimal(200), "200");
    assert_eq!(decimal(1234567), "1234567");
    let c = log_command("/r", 200, 400, None);
    assert_eq!(
        args(&c),
        vec![
            "log",
            "--topo-order",
            "--format=%H%x1f%h%x1f%s%x1f%aI%x1f%an%x1f%D%x1f%P",
            "--max-count=200",
            "--skip=400",
            "--all",
            "--"
        ]
    );
    assert_eq!(c.cwd, Some("/r".to_string()));
    let bs = vec!["main".to_string(), "dev".to_string()];
    let c = log_command("/r", 5, 0, Some(&bs));
    assert_eq!(&args(&c)[5..], &["main", "dev", "--"]);
    assert_eq!(args(&detail_command("/r", "abc")), vec!["show", "--stat", "--format=fuller", "abc"]);
}

#[test]
fn toggling_a_branch_twice_restores_the_selection() {
    let (mut st, _) = HistoryState::new("/repo");
    st.branches_loaded(Ok(vec!["main".into(), "dev".into()]));
    let before = st.selected_branches.clone();
    let e = st.toggle_branch("dev".into());
    assert!(st.commits.is_empty() && st.loading && !st.all_loaded && st.selected_index.is_none());
    assert!(matches!(e.request, HistoryRequest::LoadCommits { reply: CommitsReply::BranchReload, .. }));
    st.toggle_branch("dev".into());
    let mut a = st.selected_branches.clone();
    let mut b = before;
    a.sort();
    b.sort();
    assert_eq!(a, b);
}

#[test]
fn search_field_asks_for_deeper_history() {
    let (mut st, _) = HistoryState::new("/repo");
    let e = st.set_search_depth("10".into());
    assert_eq!(
        e.request,
        HistoryRequest::LoadCommits { skip: 0, count: 10, branches: None, reply: CommitsReply::Search }
    );
    assert!(st.search_loading);
    // A search load is pending: another field asks for nothing more.
    let e = st.set_search_hash("ab".into());
    assert_eq!(e.request, HistoryRequest::Nothing);
    st.search_commits_loaded(Ok(vec![]));
    assert!(!st.search_loading);
    // The history is exhausted now: nothing more to load.
    let e = st.set_search_message("x".into());
    assert_eq!(e.request, HistoryRequest::Nothing);
    let e = st.set_search_depth("1x".into());
    assert_eq!(e.request, HistoryRequest::Nothing);
    assert_eq!(st.search_depth, "10");
}

#[test]
fn porcelain_blocks_concatenate() {
    let a = "worktree /repo.git\nbare\nHEAD 111\n";
    let b = "worktree /w/one\nHEAD 222\nbranch refs/heads/one\n";
    let both = format!("{a}{b}");
    let mut expected = gitgobig::git::parse_worktree_porcelain(a);
    expected.extend(gitgobig::git::parse_worktree_porcelain(b));
    assert_eq!(gitgobig::git::parse_worktree_porcelain(&both), expected);
    assert_eq!(expected.len(), 2);
    assert_eq!(expected[0].branch, None);
    assert_eq!(expected[1].branch, Some("one".to_string()));
}

#[test]
fn loading_pages_keeps_the_rest_of_the_viewer() {

    let (mut st, _) = HistoryState::new("/repo");
    st.branches_loaded(Ok(vec!["main".into()]));
    st.select_commit(0);
    st.set_branch_filter_text("ma".into());
    let c = CommitEntry {
        hash: "a".into(),
        short_hash: "a".into(),
        subject: "s".into(),
        date: "d".into(),
        author: "x".into(),
        refs: String::new(),
        parents: vec![],
    };
    st.commits_loaded(Ok(vec![c]));
    assert_eq!(st.selected_index, Some(0));
    assert_eq!(st.all_branches, vec!["main".to_string()]);
    assert_eq!(st.branch_filter_text, "ma");
    assert_eq!(st.repo_path, "/repo");
}
