use gitgobig::git::{
    branch_list, clone_bare, clone_bare_stream, command_result, installed_version,
    parse_branch_list, parse_worktree_porcelain, sync, validate_url, version_command,
    worktree_add, worktree_list, worktree_remove, CommandOutput, GitCommand, GitError, PathProbe,
};

fn probe(text: &str, exists: bool, utf8: bool) -> PathProbe {
    PathProbe { text: text.to_string(), exists, utf8 }
}

fn args(c: &GitCommand) -> Vec<&str> {
    c.args.iter().map(|s| s.as_str()).collect()
}

#[test]
fn validate_url_rejects_empty() {
    assert!(validate_url("").is_err());
    assert!(validate_url("   ").is_err());
}

#[test]
fn validate_url_rejects_shell_metacharacters() {
    assert!(validate_url("https://x.com/repo;rm -rf /").is_err());
    assert!(validate_url("https://x.com/repo|cat /etc/passwd").is_err());
    assert!(validate_url("$(malicious)").is_err());
    assert!(validate_url("`id`").is_err());
}

#[test]
fn validate_url_accepts_valid_urls() {
    assert!(validate_url("https://github.com/user/repo.git").is_ok());
    assert!(validate_url("git@github.com:user/repo.git").is_ok());
    assert!(validate_url("/local/path/to/repo").is_ok());
}

#[test]
fn validate_url_error_kinds_and_messages() {
    assert_eq!(validate_url(" \t\n"), Err(GitError::EmptyUrl));
    assert_eq!(validate_url("a;b"), Err(GitError::DisallowedUrlCharacters));
    assert_eq!(GitError::EmptyUrl.message(), "repository URL must not be empty");
    assert_eq!(
        GitError::DisallowedUrlCharacters.message(),
        "repository URL contains disallowed characters"
    );
    // Surrounding whitespace is ignored by the check.
    assert!(validate_url("  https://x.com/r.git  ").is_ok());
}

#[test]
fn parse_worktree_porcelain_parses_multiple_entries() {
    let input = "\
worktree /repos/project.git
HEAD abc123def456
branch refs/heads/main
bare

worktree /work/feature-a
HEAD 789def012345
branch refs/heads/feature-a

worktree /work/detached
HEAD deadbeef1234
detached
";
    let wts = parse_worktree_porcelain(input);

    assert_eq!(wts.len(), 3);

    assert_eq!(wts[0].path, "/repos/project.git");
    assert_eq!(wts[0].commit.as_deref(), Some("abc123def456"));
    assert_eq!(wts[0].branch.as_deref(), Some("main"));

    assert_eq!(wts[1].path, "/work/feature-a");
    assert_eq!(wts[1].branch.as_deref(), Some("feature-a"));

    assert_eq!(wts[2].path, "/work/detached");
    assert_eq!(wts[2].commit.as_deref(), Some("deadbeef1234"));
    assert_eq!(wts[2].branch, None);
}

#[test]
fn parse_worktree_porcelain_handles_empty() {
    assert!(parse_worktree_porcelain("").is_empty());
}

#[test]
fn parse_worktree_porcelain_edge_cases() {
    // CRLF line endings, a branch outside refs/heads, fields before any entry.
    let input = "HEAD orphan\r\nworktree /a\r\nbranch refs/remotes/x\r\nHEAD 1\r\n";
    let wts = parse_worktree_porcelain(input);
    assert_eq!(wts.len(), 1);
    assert_eq!(wts[0].path, "/a");
    assert_eq!(wts[0].branch.as_deref(), Some("refs/remotes/x"));
    assert_eq!(wts[0].commit.as_deref(), Some("1"));
    // A path with spaces keeps them; the last entry needs no newline.
    let wts = parse_worktree_porcelain("worktree /my work/dir");
    assert_eq!(wts[0].path, "/my work/dir");
    assert_eq!(wts[0].commit, None);
}

#[test]
fn parse_branch_list_strips_markers_and_symbolic_refs() {
    let input = "\
* main
  develop
  remotes/origin/HEAD -> origin/main
  remotes/origin/main
  remotes/origin/develop
";
    let branches = parse_branch_list(input);

    assert_eq!(
        branches,
        vec!["main", "develop", "remotes/origin/main", "remotes/origin/develop"]
    );
}

#[test]
fn parse_branch_list_handles_empty() {
    assert!(parse_branch_list("").is_empty());
}

#[test]
fn parse_branch_list_repeated_markers_and_blank_lines() {
    let branches = parse_branch_list("* * x\n\n   \n+ wt\n");
    assert_eq!(branches, vec!["x", "+ wt"]);
}

#[test]
fn clone_bare_plans_partial_clone() {
    let c = clone_bare("https://example.com/repo.git", &probe("/tmp/r.git", false, true)).unwrap();
    assert_eq!(
        args(&c),
        vec!["clone", "--bare", "--filter=blob:none", "https://example.com/repo.git", "/tmp/r.git"]
    );
    assert_eq!(c.cwd, None);
}

#[test]
fn clone_bare_rejects_existing_dest() {
    let r = clone_bare("https://example.com/repo.git", &probe("/tmp/existing", true, true));
    assert_eq!(r, Err(GitError::DestinationExists("/tmp/existing".to_string())));
    assert_eq!(
        r.unwrap_err().message(),
        "destination already exists: /tmp/existing"
    );
}

#[test]
fn clone_bare_checks_in_order() {
    // An invalid URL is reported before an existing destination.
    assert_eq!(clone_bare("", &probe("/x", true, false)), Err(GitError::EmptyUrl));
    assert_eq!(
        clone_bare("https://x/y.git", &probe("/x", false, false)),
        Err(GitError::DestinationNotUtf8)
    );
}

#[test]
fn clone_bare_stream_skips_url_check() {
    let c = clone_bare_stream("$odd", &probe("/d", false, true)).unwrap();
    assert_eq!(args(&c), vec!["clone", "--bare", "--filter=blob:none", "--progress", "$odd", "/d"]);
}

#[test]
fn plans_of_repository_commands() {
    let s = sync("/r.git");
    assert_eq!(args(&s), vec!["fetch", "--all", "--prune"]);
    assert_eq!(s.cwd.as_deref(), Some("/r.git"));
    assert_eq!(args(&worktree_list("/r.git")), vec!["worktree", "list", "--porcelain"]);
    assert_eq!(args(&branch_list("/r.git")), vec!["branch", "-a"]);
    assert_eq!(args(&version_command()), vec!["--version"]);
}

#[test]
fn worktree_add_plans() {
    let c = worktree_add("/r.git", &probe("/wt", false, true), "main", None).unwrap();
    assert_eq!(args(&c), vec!["worktree", "add", "/wt", "main"]);
    let c = worktree_add("/r.git", &probe("/wt", false, true), "main", Some("feat")).unwrap();
    assert_eq!(args(&c), vec!["worktree", "add", "-b", "feat", "/wt", "main"]);
    assert_eq!(c.cwd.as_deref(), Some("/r.git"));
}

#[test]
fn worktree_add_rejects_existing_path() {
    let err = worktree_add("/r.git", &probe("/wt", true, true), "main", None).unwrap_err();
    assert!(err.message().contains("already exists"));
    assert_eq!(
        worktree_add("/r.git", &probe("/wt", false, false), "main", None),
        Err(GitError::WorktreePathNotUtf8)
    );
}

#[test]
fn worktree_remove_plans_remove_then_prune() {
    let cs = worktree_remove("/r.git", &probe("/wt", true, true)).unwrap();
    assert_eq!(cs.len(), 2);
    assert_eq!(args(&cs[0]), vec!["worktree", "remove", "/wt"]);
    assert_eq!(args(&cs[1]), vec!["worktree", "prune"]);
    assert_eq!(
        worktree_remove("/r.git", &probe("/wt", true, false)),
        Err(GitError::WorktreePathNotUtf8)
    );
}

#[test]
fn command_result_reports_failures() {
    let c = sync("/r.git");
    let ok = CommandOutput { success: true, stdout: " out\n".into(), stderr: "e".into() };
    assert_eq!(command_result(&c, &ok), Ok(" out\n".to_string()));
    let bad = CommandOutput { success: false, stdout: String::new(), stderr: "  fatal: no\n".into() };
    let err = command_result(&c, &bad).unwrap_err();
    assert_eq!(err.message(), "git fetch failed: fatal: no");
    let ver = CommandOutput { success: true, stdout: "git version 2.43.0\n".into(), stderr: String::new() };
    assert_eq!(installed_version(&ver), Ok("git version 2.43.0".to_string()));
    let ver_bad = CommandOutput { success: false, stdout: String::new(), stderr: String::new() };
    assert_eq!(
        installed_version(&ver_bad).unwrap_err().message(),
        "git --version returned a non-zero exit code"
    );
}
