use gitgobig::log::parse_log;
use gitgobig::cli::{Cli, CliCommand, CliError, HelpTopic, ViewerCli};
use gitgobig::state::{find_repo, find_repo_index, repo_name_from_url, StateError};
use gitgobig::types::{AppState, Repository, Worktree};

fn argv(items: &[&str]) -> Vec<String> {
    items.iter().map(|s| s.to_string()).collect()
}

fn repo(name: &str, path: &str, url: &str) -> Repository {
    Repository { name: name.into(), path: path.into(), url: url.into(), worktrees: vec![] }
}

#[test]
fn find_repo_returns_matching() {
    let repos = vec![repo("foo", "/tmp/foo.git", "https://example.com/foo.git")];
    assert!(find_repo(&repos, "foo").is_ok());
}

#[test]
fn find_repo_errors_on_missing() {
    let repos: Vec<Repository> = vec![];
    assert!(find_repo(&repos, "nope").is_err());
}

#[test]
fn find_repo_picks_first_of_equal_names() {
    let repos = vec![
        repo("a", "/x/a.git", "u1"),
        repo("b", "/x/b.git", "u2"),
        repo("b", "/y/b.git", "u3"),
    ];
    assert_eq!(find_repo_index(&repos, "b"), Ok(1));
    assert_eq!(find_repo(&repos, "b").unwrap().path, "/x/b.git");
    let e = find_repo(&repos, "zzz").unwrap_err();
    assert_eq!(e, StateError::NoSuchRepository("zzz".to_string()));
    assert_eq!(e.message(), "no tracked repository named \"zzz\"");
}

#[test]
fn cli_parses_clone() {
    let cli = Cli::try_parse_from(&argv(&["gitgobig", "clone", "https://x.com/r.git", "/tmp/r"]));
    assert!(cli.is_ok());
}

#[test]
fn cli_parses_sync() {
    let cli = Cli::try_parse_from(&argv(&["gitgobig", "sync", "myrepo"]));
    assert!(cli.is_ok());
}

#[test]
fn cli_parses_worktree_add() {
    let cli = Cli::try_parse_from(&argv(&["gitgobig", "worktree", "add", "myrepo", "/tmp/wt", "main"]));
    assert!(cli.is_ok());
}

#[test]
fn cli_parses_worktree_add_with_new_branch() {
    let cli = Cli::try_parse_from(&argv(&[
        "gitgobig", "worktree", "add", "myrepo", "/tmp/wt", "main", "-b", "feat",
    ]));
    assert!(cli.is_ok());
}

#[test]
fn cli_parses_worktree_list() {
    let cli = Cli::try_parse_from(&argv(&["gitgobig", "worktree", "list", "myrepo"]));
    assert!(cli.is_ok());
}

#[test]
fn cli_parses_worktree_remove() {
    let cli = Cli::try_parse_from(&argv(&["gitgobig", "worktree", "remove", "myrepo", "/tmp/wt"]));
    assert!(cli.is_ok());
}

#[test]
fn cli_fills_the_command_fields() {
    let c = Cli::try_parse_from(&argv(&["gitgobig", "clone", "https://x.com/r.git", "/tmp/r"])).unwrap();
    assert_eq!(
        c.command,
        CliCommand::Clone { url: "https://x.com/r.git".into(), dest: "/tmp/r".into() }
    );
    let c = Cli::try_parse_from(&argv(&[
        "gitgobig", "worktree", "add", "--new-branch=feat", "myrepo", "/tmp/wt", "main",
    ]))
    .unwrap();
    assert_eq!(
        c.command,
        CliCommand::WorktreeAdd {
            repo: "myrepo".into(),
            path: "/tmp/wt".into(),
            branch: "main".into(),
            new_branch: Some("feat".into()),
        }
    );
    let c = Cli::try_parse_from(&argv(&["gitgobig", "worktree", "add", "r", "p", "b", "-bx"])).unwrap();
    assert_eq!(
        c.command,
        CliCommand::WorktreeAdd {
            repo: "r".into(),
            path: "p".into(),
            branch: "b".into(),
            new_branch: Some("x".into()),
        }
    );
    let c = Cli::try_parse_from(&argv(&["gitgobig", "sync", "--", "-odd"])).unwrap();
    assert_eq!(c.command, CliCommand::Sync { name: "-odd".into() });
}

#[test]
fn cli_refusals() {
    assert_eq!(
        Cli::try_parse_from(&argv(&["gitgobig"])),
        Err(CliError::MissingSubcommand(HelpTopic::Main))
    );
    assert_eq!(
        Cli::try_parse_from(&argv(&["gitgobig", "--help"])),
        Err(CliError::Help(HelpTopic::Main))
    );
    assert_eq!(
        Cli::try_parse_from(&argv(&["gitgobig", "help", "worktree", "add"])),
        Err(CliError::Help(HelpTopic::WorktreeAdd))
    );
    assert_eq!(
        Cli::try_parse_from(&argv(&["gitgobig", "fetch"])),
        Err(CliError::UnknownSubcommand("fetch".into()))
    );
    assert_eq!(
        Cli::try_parse_from(&argv(&["gitgobig", "clone", "u"])),
        Err(CliError::MissingArguments(HelpTopic::Clone))
    );
    assert_eq!(
        Cli::try_parse_from(&argv(&["gitgobig", "sync", "a", "b"])),
        Err(CliError::UnexpectedArgument("b".into()))
    );
    assert_eq!(
        Cli::try_parse_from(&argv(&["gitgobig", "sync", "-b", "x"])),
        Err(CliError::UnexpectedArgument("-b".into()))
    );
    assert_eq!(
        Cli::try_parse_from(&argv(&["gitgobig", "worktree"])),
        Err(CliError::MissingSubcommand(HelpTopic::Worktree))
    );
    assert_eq!(
        Cli::try_parse_from(&argv(&["gitgobig", "worktree", "add", "r", "p", "b", "-b"])),
        Err(CliError::MissingValue)
    );
    assert_eq!(
        Cli::try_parse_from(&argv(&["gitgobig", "worktree", "add", "r", "p", "b", "-b", "x", "-b", "y"])),
        Err(CliError::RepeatedOption)
    );
    assert_eq!(
        Cli::try_parse_from(&argv(&["gitgobig", "worktree", "list", "r", "-h"])),
        Err(CliError::Help(HelpTopic::WorktreeList))
    );
}

#[test]
fn viewer_cli_takes_one_path() {
    assert_eq!(
        ViewerCli::try_parse_from(&argv(&["gitgows", "/repo"])),
        Ok(ViewerCli { path: "/repo".into() })
    );
    assert_eq!(
        ViewerCli::try_parse_from(&argv(&["gitgows"])),
        Err(CliError::MissingArguments(HelpTopic::Main))
    );
    assert_eq!(
        ViewerCli::try_parse_from(&argv(&["gitgows", "a", "b"])),
        Err(CliError::UnexpectedArgument("b".into()))
    );
}

#[test]
fn repo_name_strips_path_and_git_suffixes() {
    assert_eq!(repo_name_from_url("https://github.com/user/repo.git"), "repo");
    assert_eq!(repo_name_from_url("https://x/a.git.git"), "a");
    assert_eq!(repo_name_from_url("plain"), "plain");
    assert_eq!(repo_name_from_url("https://x/dir/"), "");
}

#[test]
fn track_refuses_a_tracked_path() {
    let mut st = AppState { repositories: vec![], default_repo_dir: Some("/d".into()) };
    assert!(st.track(Repository::from_clone("https://e.com/foo.git", "/tmp/foo.git")).is_ok());
    assert_eq!(st.repositories[0].name, "foo");
    assert!(st.is_tracked("/tmp/foo.git"));
    let e = st.track(Repository::from_clone("https://e.com/bar.git", "/tmp/foo.git")).unwrap_err();
    assert_eq!(e, StateError::AlreadyTracked("/tmp/foo.git".into()));
    assert_eq!(e.message(), "a repository at /tmp/foo.git is already tracked");
    assert_eq!(st.repositories.len(), 1);
    st.untrack(0);
    assert!(st.repositories.is_empty());
    assert_eq!(st.default_repo_dir, Some("/d".to_string()));
}

#[test]
fn record_then_forget_worktree() {
    let mut r = repo("foo", "/tmp/foo.git", "u");
    r.worktrees.push(Worktree { path: "/w/keep".into(), branch: None, commit: None });
    r.record_worktree("/w/new", "main", Some("feat"));
    assert_eq!(r.worktrees[1].branch, Some("feat".to_string()));
    assert_eq!(r.worktrees[1].commit, None);
    r.record_worktree("/w/new2", "main", None);
    assert_eq!(r.worktrees[2].branch, Some("main".to_string()));
    r.forget_worktree("/w/new");
    r.forget_worktree("/w/new2");
    assert_eq!(r.worktrees, vec![Worktree { path: "/w/keep".into(), branch: None, commit: None }]);
}

#[test]
fn log_lines_become_commits() {
    let out = "abc123\u{1f}abc\u{1f}Fix it\u{1f}2024-01-02T03:04:05+00:00\u{1f}Ann\u{1f}HEAD -> main\u{1f}p1 p2\n\
               not a commit line\n\
               def456\u{1f}def\u{1f}Root\u{1f}2024-01-01T00:00:00+00:00\u{1f}Bob\u{1f}\u{1f}\n";
    let cs = parse_log(out);
    assert_eq!(cs.len(), 2);
    assert_eq!(cs[0].hash, "abc123");
    assert_eq!(cs[0].short_hash, "abc");
    assert_eq!(cs[0].subject, "Fix it");
    assert_eq!(cs[0].author, "Ann");
    assert_eq!(cs[0].refs, "HEAD -> main");
    assert_eq!(cs[0].parents, vec!["p1".to_string(), "p2".to_string()]);
    assert_eq!(cs[1].refs, "");
    assert!(cs[1].parents.is_empty());
    assert!(parse_log("").is_empty());
}

#[test]
fn readme_cli_examples_parse() {
    let examples: [&[&str]; 6] = [
        &["gitgobig-cli", "clone", "https://github.com/mwallner/repo.git", "./repo.git"],
        &["gitgobig-cli", "sync", "repo"],
        &["gitgobig-cli", "worktree", "add", "repo", "./worktrees/feature-x", "feature-x"],
        &["gitgobig-cli", "worktree", "add", "repo", "./worktrees/my-fix", "main", "-b", "my-fix"],
        &["gitgobig-cli", "worktree", "list", "repo"],
        &["gitgobig-cli", "worktree", "remove", "repo", "./worktrees/feature-x"],
    ];
    for e in examples {
        assert!(Cli::try_parse_from(&argv(e)).is_ok(), "{:?}", e);
    }
    let c = Cli::try_parse_from(&argv(examples[3])).unwrap();
    assert_eq!(
        c.command,
        CliCommand::WorktreeAdd {
            repo: "repo".into(),
            path: "./worktrees/my-fix".into(),
            branch: "main".into(),
            new_branch: Some("my-fix".into()),
        }
    );
}
