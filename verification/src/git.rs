//! What gitgobig asks of git: the commands behind each operation, the checks
//! made before running them, and the parsing of what git prints.

use vstd::prelude::*;
use crate::text::{
    char_at_any, chars_of, has_char, has_prefix, has_substring, line_spans, lines, prefix_at,
    slice_string, span_texts, spans_in_bounds, strip_all_prefix, substring_at, trim, trim_span,
};
use crate::types::{opt_text, worktree_views, Worktree, WorktreeView};

verus! {

// ---------------------------------------------------------------------------
// `git worktree list --porcelain`
// ---------------------------------------------------------------------------

/// The parser's state between lines: finished entries and the fields of the
/// entry being read.
pub struct PorcelainState {
    pub done: Seq<WorktreeView>,
    pub path: Option<Seq<char>>,
    pub commit: Option<Seq<char>>,
    pub branch: Option<Seq<char>>,
}

/// A branch line names `refs/heads/<name>`; the prefix is dropped when present.
pub open spec fn short_branch(b: Seq<char>) -> Seq<char> {
    if has_prefix(b, "refs/heads/"@) {
        b.skip("refs/heads/"@.len() as int)
    } else {
        b
    }
}

/// The entries finished so far plus the one under construction, if any.
pub open spec fn flush(st: PorcelainState) -> Seq<WorktreeView> {
    match st.path {
        Some(p) => st.done.push(WorktreeView { path: p, branch: st.branch, commit: st.commit }),
        None => st.done,
    }
}

/// One line of porcelain output: `worktree <path>` starts an entry,
/// `HEAD <hash>` and `branch <ref>` fill it, other lines are ignored.
pub open spec fn porcelain_step(st: PorcelainState, line: Seq<char>) -> PorcelainState {
    if has_prefix(line, "worktree "@) {
        PorcelainState {
            done: flush(st),
            path: Some(line.skip("worktree "@.len() as int)),
            commit: None,
            branch: None,
        }
    } else if has_prefix(line, "HEAD "@) {
        PorcelainState { commit: Some(line.skip("HEAD "@.len() as int)), ..st }
    } else if has_prefix(line, "branch "@) {
        PorcelainState { branch: Some(short_branch(line.skip("branch "@.len() as int))), ..st }
    } else {
        st
    }
}

pub open spec fn porcelain_start() -> PorcelainState {
    PorcelainState { done: Seq::empty(), path: None, commit: None, branch: None }
}

/// The state after the given lines.
pub open spec fn porcelain_fold(ls: Seq<Seq<char>>) -> PorcelainState
    decreases ls.len(),
{
    if ls.len() == 0 {
        porcelain_start()
    } else {
        porcelain_step(porcelain_fold(ls.drop_last()), ls.last())
    }
}

/// The worktrees described by the porcelain output `s`.
pub open spec fn porcelain_worktrees(s: Seq<char>) -> Seq<WorktreeView> {
    flush(porcelain_fold(lines(s)))
}

/// Parse the porcelain output of `git worktree list --porcelain` into
/// worktrees, one per `worktree` line, in order.
pub fn parse_worktree_porcelain(output: &str) -> (wts: Vec<Worktree>)
    ensures
        worktree_views(wts@) == porcelain_worktrees(output@),
{
    let v = chars_of(output);
    let spans = line_spans(&v);
    let tag_wt = chars_of("worktree ");
    let tag_head = chars_of("HEAD ");
    let tag_branch = chars_of("branch ");
    let tag_heads = chars_of("refs/heads/");
    let ghost ls = lines(v@);
    let mut worktrees: Vec<Worktree> = Vec::new();
    let mut path: Option<String> = None;
    let mut commit: Option<String> = None;
    let mut branch: Option<String> = None;
    let mut k: usize = 0;
    while k < spans.len()
        invariant
            v@ == output@,
            spans_in_bounds(v@, spans@),
            span_texts(v@, spans@) == ls,
            ls == lines(v@),
            tag_wt@ == "worktree "@,
            tag_head@ == "HEAD "@,
            tag_branch@ == "branch "@,
            tag_heads@ == "refs/heads/"@,
            k <= spans@.len(),
            ({
                let st = porcelain_fold(ls.take(k as int));
                &&& worktree_views(worktrees@) == st.done
                &&& opt_text(path) == st.path
                &&& opt_text(commit) == st.commit
                &&& opt_text(branch) == st.branch
            }),
        decreases spans@.len() - k,
    {
        let (lo, hi) = spans[k];
        let ghost line = v@.subrange(lo as int, hi as int);
        let ghost before = porcelain_fold(ls.take(k as int));
        proof {
            assert(ls[k as int] == line);
            assert(ls.take(k + 1).drop_last() =~= ls.take(k as int));
            assert(ls.take(k + 1).last() == line);
        }
        if prefix_at(&v, lo, hi, &tag_wt) {
            if let Some(prev) = path.take() {
                let w = Worktree { path: prev, branch: branch.take(), commit: commit.take() };
                worktrees.push(w);
                proof {
                    assert(worktree_views(worktrees@) =~= flush(before));
                }
            } else {
                assert(worktree_views(worktrees@) =~= flush(before));
            }
            path = Some(slice_string(output, lo + tag_wt.len(), hi));
            assert(v@.subrange(lo + tag_wt@.len(), hi as int) =~= line.skip("worktree "@.len() as int));
            commit = None;
            branch = None;
        } else if prefix_at(&v, lo, hi, &tag_head) {
            commit = Some(slice_string(output, lo + tag_head.len(), hi));
            assert(v@.subrange(lo + tag_head@.len(), hi as int) =~= line.skip("HEAD "@.len() as int));
        } else if prefix_at(&v, lo, hi, &tag_branch) {
            let b = lo + tag_branch.len();
            assert(v@.subrange(b as int, hi as int) =~= line.skip("branch "@.len() as int));
            if prefix_at(&v, b, hi, &tag_heads) {
                assert(v@.subrange(b + tag_heads@.len(), hi as int) =~= v@.subrange(b as int, hi as int).skip("refs/heads/"@.len() as int));
                branch = Some(slice_string(output, b + tag_heads.len(), hi));
            } else {
                branch = Some(slice_string(output, b, hi));
            }
        }
        k = k + 1;
    }
    if let Some(p) = path {
        let w = Worktree { path: p, branch: branch, commit: commit };
        worktrees.push(w);
        proof {
            assert(ls.take(spans@.len() as int) =~= ls);
            assert(worktree_views(worktrees@) =~= porcelain_worktrees(output@));
        }
    } else {
        assert(ls.take(spans@.len() as int) =~= ls);
    }
    worktrees
}


// ---------------------------------------------------------------------------
// `git branch -a`
// ---------------------------------------------------------------------------

/// A line of `git branch -a` output with surrounding whitespace and the
/// current-branch marker `* ` (every leading copy of it) removed.
pub open spec fn branch_entry(line: Seq<char>) -> Seq<char> {
    strip_all_prefix(trim(line), "* "@)
}

/// Entries kept: non-empty, and not a symbolic ref such as
/// `remotes/origin/HEAD -> origin/main`.
pub open spec fn branch_kept(e: Seq<char>) -> bool {
    e.len() > 0 && !has_substring(e, " -> "@)
}

/// The branch names listed by the given lines, in order.
pub open spec fn branch_names(ls: Seq<Seq<char>>) -> Seq<Seq<char>>
    decreases ls.len(),
{
    if ls.len() == 0 {
        Seq::empty()
    } else {
        let r = branch_names(ls.drop_last());
        let e = branch_entry(ls.last());
        if branch_kept(e) {
            r.push(e)
        } else {
            r
        }
    }
}

/// The texts of a list of strings.
pub open spec fn texts(v: Seq<String>) -> Seq<Seq<char>> {
    v.map_values(|s: String| s@)
}

pub proof fn lemma_strip_all_prefix_step(s: Seq<char>, p: Seq<char>)
    requires
        p.len() > 0,
        has_prefix(s, p),
    ensures
        strip_all_prefix(s, p) == strip_all_prefix(s.skip(p.len() as int), p),
{
}

/// Parse `git branch -a` output into branch names, in the order listed.
pub fn parse_branch_list(output: &str) -> (names: Vec<String>)
    ensures
        texts(names@) == branch_names(lines(output@)),
{
    let v = chars_of(output);
    let spans = line_spans(&v);
    let star = chars_of("* ");
    let arrow = chars_of(" -> ");
    let ghost ls = lines(v@);
    let mut names: Vec<String> = Vec::new();
    let mut k: usize = 0;
    while k < spans.len()
        invariant
            v@ == output@,
            spans_in_bounds(v@, spans@),
            span_texts(v@, spans@) == ls,
            ls == lines(v@),
            star@ == "* "@,
            arrow@ == " -> "@,
            k <= spans@.len(),
            texts(names@) == branch_names(ls.take(k as int)),
        decreases spans@.len() - k,
    {
        let (lo, hi) = spans[k];
        let ghost line = v@.subrange(lo as int, hi as int);
        proof {
            assert(ls[k as int] == line);
            assert(ls.take(k + 1).drop_last() =~= ls.take(k as int));
            assert(ls.take(k + 1).last() == line);
        }
        let (a0, b) = trim_span(&v, lo, hi);
        let mut a = a0;
        while prefix_at(&v, a, b, &star)
            invariant
                v@ == output@,
                a0 <= a <= b <= v@.len(),
                star@ == "* "@,
                strip_all_prefix(v@.subrange(a0 as int, b as int), "* "@) == strip_all_prefix(
                    v@.subrange(a as int, b as int),
                    "* "@,
                ),
            decreases b - a,
        {
            proof {
                reveal_strlit("* ");
                let t = v@.subrange(a as int, b as int);
                lemma_strip_all_prefix_step(t, "* "@);
                assert(t.skip(2) =~= v@.subrange(a + 2, b as int));
            }
            a = a + star.len();
        }
        proof {
            let t = v@.subrange(a as int, b as int);
            assert(!has_prefix(t, "* "@));
            assert(strip_all_prefix(t, "* "@) == t);
        }
        let has_arrow = substring_at(&v, a, b, &arrow);
        if a < b && !has_arrow {
            let name = slice_string(output, a, b);
            names.push(name);
            assert(texts(names@) =~= branch_names(ls.take(k + 1)));
        } else {
            assert(texts(names@) =~= branch_names(ls.take(k + 1)));
        }
        k = k + 1;
    }
    assert(ls.take(spans@.len() as int) =~= ls);
    names
}

// ---------------------------------------------------------------------------
// Errors
// ---------------------------------------------------------------------------

/// What can go wrong in a git operation.
#[derive(Debug, Clone, PartialEq, Eq)]
pub enum GitError {
    /// The repository URL is empty or only whitespace.
    EmptyUrl,
    /// The repository URL holds `;`, `|`, `$` or a backtick.
    DisallowedUrlCharacters,
    /// The clone destination exists already (its path is given).
    DestinationExists(String),
    /// The clone destination path is not valid UTF-8.
    DestinationNotUtf8,
    /// The worktree target exists already (its path is given).
    WorktreeExists(String),
    /// The worktree path is not valid UTF-8.
    WorktreePathNotUtf8,
    /// git exited with a non-zero status: the first argument of the command
    /// and git's standard error, trimmed.
    CommandFailed { subcommand: String, stderr: String },
    /// `git --version` exited with a non-zero status.
    VersionCheckFailed,
}

/// The text of an error, as the program reports it.
pub open spec fn error_text(e: GitError) -> Seq<char> {
    match e {
        GitError::EmptyUrl => "repository URL must not be empty"@,
        GitError::DisallowedUrlCharacters => "repository URL contains disallowed characters"@,
        GitError::DestinationExists(p) => "destination already exists: "@ + p@,
        GitError::DestinationNotUtf8 => "destination path is not valid UTF-8"@,
        GitError::WorktreeExists(p) => "worktree target directory already exists: "@ + p@,
        GitError::WorktreePathNotUtf8 => "worktree path is not valid UTF-8"@,
        GitError::CommandFailed { subcommand, stderr } => "git "@ + subcommand@ + " failed: "@
            + stderr@,
        GitError::VersionCheckFailed => "git --version returned a non-zero exit code"@,
    }
}

impl GitError {
    /// The error's text.
    pub fn message(&self) -> (m: String)
        ensures
            m@ == error_text(*self),
    {
        match self {
            GitError::EmptyUrl => "repository URL must not be empty".to_owned(),
            GitError::DisallowedUrlCharacters => "repository URL contains disallowed characters".to_owned(),
            GitError::DestinationExists(p) => {
                let mut m = "destination already exists: ".to_owned();
                m.append(p.as_str());
                m
            },
            GitError::DestinationNotUtf8 => "destination path is not valid UTF-8".to_owned(),
            GitError::WorktreeExists(p) => {
                let mut m = "worktree target directory already exists: ".to_owned();
                m.append(p.as_str());
                m
            },
            GitError::WorktreePathNotUtf8 => "worktree path is not valid UTF-8".to_owned(),
            GitError::CommandFailed { subcommand, stderr } => {
                let mut m = "git ".to_owned();
                m.append(subcommand.as_str());
                m.append(" failed: ");
                m.append(stderr.as_str());
                m
            },
            GitError::VersionCheckFailed => "git --version returned a non-zero exit code".to_owned(),
        }
    }
}

// ---------------------------------------------------------------------------
// URL validation
// ---------------------------------------------------------------------------

/// Characters refused in a repository URL.
pub open spec fn has_shell_meta(u: Seq<char>) -> bool {
    has_char(u, ';') || has_char(u, '|') || has_char(u, '$') || has_char(u, '`')
}

/// The error a URL is refused with, if any: after trimming it must be
/// non-empty and free of shell meta-characters.
pub open spec fn url_problem(url: Seq<char>) -> Option<GitError> {
    if trim(url).len() == 0 {
        Some(GitError::EmptyUrl)
    } else if has_shell_meta(trim(url)) {
        Some(GitError::DisallowedUrlCharacters)
    } else {
        None
    }
}

/// Basic URL validation: non-empty after trimming and without `;`, `|`, `$`
/// or backtick. Anything else is left for git to judge.
pub fn validate_url(url: &str) -> (r: Result<(), GitError>)
    ensures
        r is Ok <==> url_problem(url@) is None,
        url_problem(url@) matches Some(e) ==> r == Err::<(), GitError>(e),
{
    let v = chars_of(url);
    let (a, b) = trim_span(&v, 0, v.len());
    assert(v@.subrange(0, v@.len() as int) =~= v@);
    if a == b {
        return Err(GitError::EmptyUrl);
    }
    if char_at_any(&v, a, b, ';') || char_at_any(&v, a, b, '|') || char_at_any(&v, a, b, '$')
        || char_at_any(&v, a, b, '`') {
        return Err(GitError::DisallowedUrlCharacters);
    }
    Ok(())
}

// ---------------------------------------------------------------------------
// Commands
// ---------------------------------------------------------------------------

/// What the caller found out about a filesystem path before an operation.
#[derive(Debug, Clone, PartialEq, Eq)]
pub struct PathProbe {
    /// The path's text (lossy where it is not valid UTF-8).
    pub text: String,
    /// Something exists at the path.
    pub exists: bool,
    /// The path is valid UTF-8, so `text` is exactly the path.
    pub utf8: bool,
}

/// A git invocation: its arguments and the directory it runs in
/// (`None`: the current directory).
#[derive(Debug, Clone, PartialEq, Eq)]
pub struct GitCommand {
    pub args: Vec<String>,
    pub cwd: Option<String>,
}

/// The value of a `GitCommand`.
pub struct GitCommandView {
    pub args: Seq<Seq<char>>,
    pub cwd: Option<Seq<char>>,
}

impl View for GitCommand {
    type V = GitCommandView;

    open spec fn view(&self) -> GitCommandView {
        GitCommandView { args: texts(self.args@), cwd: opt_text(self.cwd) }
    }
}

/// An owned list of the given texts.
fn owned_args(parts: &[&str]) -> (v: Vec<String>)
    ensures
        texts(v@) == parts@.map_values(|p: &str| p@),
{
    let mut v: Vec<String> = Vec::new();
    let mut i: usize = 0;
    while i < parts.len()
        invariant
            i <= parts@.len(),
            v@.len() == i,
            forall|j: int| 0 <= j < i ==> v@[j]@ == parts@[j]@,
        decreases parts@.len() - i,
    {
        v.push(parts[i].to_owned());
        i = i + 1;
    }
    assert(texts(v@) =~= parts@.map_values(|p: &str| p@));
    v
}

/// `git clone --bare --filter=blob:none <url> <dest>`.
pub open spec fn clone_args(url: Seq<char>, dest: Seq<char>) -> Seq<Seq<char>> {
    seq!["clone"@, "--bare"@, "--filter=blob:none"@, url, dest]
}

/// Plan a bare, blob-less clone of `url` into `dest`. The URL is validated
/// first, then the destination must not exist and must be valid UTF-8.
pub fn clone_bare(url: &str, dest: &PathProbe) -> (r: Result<GitCommand, GitError>)
    ensures
        url_problem(url@) matches Some(e) ==> r == Err::<GitCommand, GitError>(e),
        url_problem(url@) is None && dest.exists ==> (r matches Err(GitError::DestinationExists(
            p,
        )) && p@ == dest.text@),
        url_problem(url@) is None && !dest.exists && !dest.utf8 ==> r == Err::<
            GitCommand,
            GitError,
        >(GitError::DestinationNotUtf8),
        r is Ok <==> url_problem(url@) is None && !dest.exists && dest.utf8,
        r matches Ok(c) ==> c@.args == clone_args(url@, dest.text@) && c@.cwd is None,
{
    validate_url(url)?;
    if dest.exists {
        return Err(GitError::DestinationExists(dest.text.clone()));
    }
    if !dest.utf8 {
        return Err(GitError::DestinationNotUtf8);
    }
    let args = owned_args(&["clone", "--bare", "--filter=blob:none", url, dest.text.as_str()]);
    Ok(GitCommand { args, cwd: None })
}

/// Plan `git fetch --all --prune` inside the repository.
pub fn sync(repo_path: &str) -> (c: GitCommand)
    ensures
        c@.args == seq!["fetch"@, "--all"@, "--prune"@],
        c@.cwd == Some(repo_path@),
{
    GitCommand { args: owned_args(&["fetch", "--all", "--prune"]), cwd: Some(repo_path.to_owned()) }
}

/// `git worktree add [-b <new>] <path> <branch_or_commit>`.
pub open spec fn worktree_add_args(
    path: Seq<char>,
    branch_or_commit: Seq<char>,
    new_branch: Option<Seq<char>>,
) -> Seq<Seq<char>> {
    match new_branch {
        Some(n) => seq!["worktree"@, "add"@, "-b"@, n, path, branch_or_commit],
        None => seq!["worktree"@, "add"@, path, branch_or_commit],
    }
}

/// The text of an optional string slice.
pub open spec fn opt_str_text(o: Option<&str>) -> Option<Seq<char>> {
    match o {
        Some(s) => Some(s@),
        None => None,
    }
}

/// Plan the creation of a worktree at `worktree` inside the repository: with
/// `new_branch` a new branch of that name starts at `branch_or_commit`,
/// otherwise `branch_or_commit` is checked out. The target must not exist and
/// must be valid UTF-8.
pub fn worktree_add(
    repo_path: &str,
    worktree: &PathProbe,
    branch_or_commit: &str,
    new_branch: Option<&str>,
) -> (r: Result<GitCommand, GitError>)
    ensures
        worktree.exists ==> (r matches Err(GitError::WorktreeExists(p)) && p@ == worktree.text@),
        !worktree.exists && !worktree.utf8 ==> r == Err::<GitCommand, GitError>(
            GitError::WorktreePathNotUtf8,
        ),
        r is Ok <==> !worktree.exists && worktree.utf8,
        r matches Ok(c) ==> c@.args == worktree_add_args(
            worktree.text@,
            branch_or_commit@,
            opt_str_text(new_branch),
        ) && c@.cwd == Some(repo_path@),
{
    if worktree.exists {
        return Err(GitError::WorktreeExists(worktree.text.clone()));
    }
    if !worktree.utf8 {
        return Err(GitError::WorktreePathNotUtf8);
    }
    let wt = worktree.text.as_str();
    let args = match new_branch {
        Some(name) => owned_args(&["worktree", "add", "-b", name, wt, branch_or_commit]),
        None => owned_args(&["worktree", "add", wt, branch_or_commit]),
    };
    Ok(GitCommand { args, cwd: Some(repo_path.to_owned()) })
}

/// Plan `git worktree list --porcelain` inside the repository; its output is
/// read by `parse_worktree_porcelain`.
pub fn worktree_list(repo_path: &str) -> (c: GitCommand)
    ensures
        c@.args == seq!["worktree"@, "list"@, "--porcelain"@],
        c@.cwd == Some(repo_path@),
{
    GitCommand {
        args: owned_args(&["worktree", "list", "--porcelain"]),
        cwd: Some(repo_path.to_owned()),
    }
}

/// Plan the removal of a worktree: `git worktree remove <path>` and then
/// `git worktree prune`, both inside the repository, each run only when the
/// one before it succeeded. The path must be valid UTF-8.
pub fn worktree_remove(repo_path: &str, worktree: &PathProbe) -> (r: Result<Vec<GitCommand>, GitError>)
    ensures
        r is Ok <==> worktree.utf8,
        !worktree.utf8 ==> r == Err::<Vec<GitCommand>, GitError>(GitError::WorktreePathNotUtf8),
        r matches Ok(cs) ==> cs@.len() == 2 && cs@[0]@.args == seq![
            "worktree"@,
            "remove"@,
            worktree.text@,
        ] && cs@[0]@.cwd == Some(repo_path@) && cs@[1]@.args == seq!["worktree"@, "prune"@]
            && cs@[1]@.cwd == Some(repo_path@),
{
    if !worktree.utf8 {
        return Err(GitError::WorktreePathNotUtf8);
    }
    let remove = GitCommand {
        args: owned_args(&["worktree", "remove", worktree.text.as_str()]),
        cwd: Some(repo_path.to_owned()),
    };
    let prune = GitCommand {
        args: owned_args(&["worktree", "prune"]),
        cwd: Some(repo_path.to_owned()),
    };
    let mut cs: Vec<GitCommand> = Vec::new();
    cs.push(remove);
    cs.push(prune);
    Ok(cs)
}

/// Plan `git branch -a` inside the repository; its outcome is read by
/// `branch_list_outcome`, which sorts the names.
pub fn branch_list(repo_path: &str) -> (c: GitCommand)
    ensures
        c@.args == seq!["branch"@, "-a"@],
        c@.cwd == Some(repo_path@),
{
    GitCommand { args: owned_args(&["branch", "-a"]), cwd: Some(repo_path.to_owned()) }
}

/// Plan `git --version`.
pub fn version_command() -> (c: GitCommand)
    ensures
        c@.args == seq!["--version"@],
        c@.cwd is None,
{
    GitCommand { args: owned_args(&["--version"]), cwd: None }
}

// ---------------------------------------------------------------------------
// Outcomes
// ---------------------------------------------------------------------------

/// What a finished git process left: its exit status and its output, decoded.
#[derive(Debug, Clone, PartialEq, Eq)]
pub struct CommandOutput {
    pub success: bool,
    pub stdout: String,
    pub stderr: String,
}

/// The first argument of a command, or the empty text.
pub open spec fn first_arg(args: Seq<Seq<char>>) -> Seq<char> {
    if args.len() > 0 {
        args[0]
    } else {
        Seq::empty()
    }
}

/// The trimmed text of a string.
pub fn trimmed(s: &str) -> (r: String)
    ensures
        r@ == trim(s@),
{
    let v = chars_of(s);
    let (a, b) = trim_span(&v, 0, v.len());
    assert(v@.subrange(0, v@.len() as int) =~= v@);
    slice_string(s, a, b)
}

/// The result of a finished command: its standard output when it succeeded,
/// otherwise a failure naming the command's first argument and its trimmed
/// standard error.
pub fn command_result(cmd: &GitCommand, out: &CommandOutput) -> (r: Result<String, GitError>)
    ensures
        out.success ==> (r matches Ok(s) && s@ == out.stdout@),
        !out.success ==> (r matches Err(GitError::CommandFailed { subcommand, stderr })
            && subcommand@ == first_arg(cmd@.args) && stderr@ == trim(out.stderr@)),
{
    if out.success {
        return Ok(out.stdout.clone());
    }
    let sub = if cmd.args.len() > 0 {
        cmd.args[0].clone()
    } else {
        String::new()
    };
    Err(GitError::CommandFailed { subcommand: sub, stderr: trimmed(out.stderr.as_str()) })
}

/// Plan `git rev-parse --git-dir` in a folder: it succeeds exactly inside a
/// repository (bare or not).
pub fn git_dir_command(path: &str) -> (c: GitCommand)
    ensures
        c@.args == seq!["rev-parse"@, "--git-dir"@],
        c@.cwd == Some(path@),
{
    GitCommand { args: owned_args(&["rev-parse", "--git-dir"]), cwd: Some(path.to_owned()) }
}

/// Plan `git rev-parse --is-bare-repository` in a repository.
pub fn bare_command(path: &str) -> (c: GitCommand)
    ensures
        c@.args == seq!["rev-parse"@, "--is-bare-repository"@],
        c@.cwd == Some(path@),
{
    GitCommand {
        args: owned_args(&["rev-parse", "--is-bare-repository"]),
        cwd: Some(path.to_owned()),
    }
}

/// Whether the repository is bare: git answered `true` (around whitespace);
/// otherwise the failure.
pub fn bare_answer(cmd: &GitCommand, out: &CommandOutput) -> (r: Result<bool, GitError>)
    ensures
        out.success ==> r == Ok::<bool, GitError>(trim(out.stdout@) == "true"@),
        !out.success ==> (r matches Err(GitError::CommandFailed { subcommand, stderr })
            && subcommand@ == first_arg(cmd@.args) && stderr@ == trim(out.stderr@)),
{
    match command_result(cmd, out) {
        Ok(stdout) => {
            let t = chars_of(trimmed(stdout.as_str()).as_str());
            proof {
                reveal_strlit("true");
            }
            let yes = t.len() == 4 && t[0] == 't' && t[1] == 'r' && t[2] == 'u' && t[3] == 'e';
            proof {
                if yes {
                    assert(t@ =~= "true"@);
                } else if t@.len() == 4 {
                    assert(t@ != "true"@) by {
                        if t@ == "true"@ {
                            assert(t@[0] == 't' && t@[1] == 'r' && t@[2] == 'u' && t@[3] == 'e');
                        }
                    }
                }
            }
            Ok(yes)
        },
        Err(e) => Err(e),
    }
}

/// Plan `git remote get-url origin` in a repository.
pub fn remote_url_command(path: &str) -> (c: GitCommand)
    ensures
        c@.args == seq!["remote"@, "get-url"@, "origin"@],
        c@.cwd == Some(path@),
{
    GitCommand { args: owned_args(&["remote", "get-url", "origin"]), cwd: Some(path.to_owned()) }
}

/// The `origin` URL, trimmed, when git gave one; `None` when it failed (no
/// such remote).
pub fn remote_url_answer(out: &CommandOutput) -> (r: Option<String>)
    ensures
        out.success ==> (r matches Some(u) && u@ == trim(out.stdout@)),
        !out.success ==> r is None,
{
    if out.success {
        Some(trimmed(out.stdout.as_str()))
    } else {
        None
    }
}

/// The branches from a finished `git branch -a`: on success the listed
/// names, sorted; otherwise the failure.
pub fn branch_list_outcome(cmd: &GitCommand, out: &CommandOutput) -> (r: Result<Vec<String>, GitError>)
    ensures
        out.success ==> (r matches Ok(v) && crate::order::texts_sorted(texts(v@)) && texts(
            v@,
        ).to_multiset() == branch_names(lines(out.stdout@)).to_multiset()),
        !out.success ==> (r matches Err(GitError::CommandFailed { subcommand, stderr })
            && subcommand@ == first_arg(cmd@.args) && stderr@ == trim(out.stderr@)),
{
    match command_result(cmd, out) {
        Ok(stdout) => Ok(crate::order::sort_strings(parse_branch_list(stdout.as_str()))),
        Err(e) => Err(e),
    }
}

/// After the command at `done` of a planned sequence finished with `out`:
/// the position of the next command to run, `None` when the sequence is
/// over, or the failure that ends it. Each command runs only when the one
/// before it succeeded; a failure of the last command ends the run with its
/// error only when `check_last`, otherwise it is passed over.
pub fn next_command(cmds: &Vec<GitCommand>, done: usize, out: &CommandOutput, check_last: bool) -> (r: Result<
    Option<usize>,
    GitError,
>)
    requires
        done < cmds@.len(),
    ensures
        !out.success && (done + 1 < cmds@.len() || check_last) ==> (r matches Err(
            GitError::CommandFailed { subcommand, stderr },
        ) && subcommand@ == first_arg(cmds@[done as int]@.args) && stderr@ == trim(out.stderr@)),
        out.success || (done + 1 == cmds@.len() && !check_last) ==> r == (if done + 1 < cmds@.len() {
            Ok::<Option<usize>, GitError>(Some((done + 1) as usize))
        } else {
            Ok::<Option<usize>, GitError>(None)
        }),
{
    let last = done == cmds.len() - 1;
    if !(last && !check_last) {
        if let Err(e) = command_result(&cmds[done], out) {
            return Err(e);
        }
    }
    if last {
        Ok(None)
    } else {
        Ok(Some(done + 1))
    }
}

/// The version that `git --version` reported, trimmed, or the failure.
pub fn installed_version(out: &CommandOutput) -> (r: Result<String, GitError>)
    ensures
        out.success ==> (r matches Ok(s) && s@ == trim(out.stdout@)),
        !out.success ==> r == Err::<String, GitError>(GitError::VersionCheckFailed),
{
    if out.success {
        Ok(trimmed(out.stdout.as_str()))
    } else {
        Err(GitError::VersionCheckFailed)
    }
}

// ---------------------------------------------------------------------------
// Streaming variants (the graphical front end shows git's progress)
// ---------------------------------------------------------------------------

/// `git clone --bare --filter=blob:none --progress <url> <dest>`.
pub open spec fn clone_stream_args(url: Seq<char>, dest: Seq<char>) -> Seq<Seq<char>> {
    seq!["clone"@, "--bare"@, "--filter=blob:none"@, "--progress"@, url, dest]
}

/// Plan a clone whose progress is shown: the destination must not exist
/// and must be valid UTF-8 (the URL is left to git).
pub fn clone_bare_stream(url: &str, dest: &PathProbe) -> (r: Result<GitCommand, GitError>)
    ensures
        dest.exists ==> (r matches Err(GitError::DestinationExists(p)) && p@ == dest.text@),
        !dest.exists && !dest.utf8 ==> r == Err::<GitCommand, GitError>(
            GitError::DestinationNotUtf8,
        ),
        r is Ok <==> !dest.exists && dest.utf8,
        r matches Ok(c) ==> c@.args == clone_stream_args(url@, dest.text@) && c@.cwd is None,
{
    if dest.exists {
        return Err(GitError::DestinationExists(dest.text.clone()));
    }
    if !dest.utf8 {
        return Err(GitError::DestinationNotUtf8);
    }
    let args = owned_args(
        &["clone", "--bare", "--filter=blob:none", "--progress", url, dest.text.as_str()],
    );
    Ok(GitCommand { args, cwd: None })
}

/// Plan `git fetch --all --prune --progress` inside the repository.
pub fn sync_stream(repo_path: &str) -> (c: GitCommand)
    ensures
        c@.args == seq!["fetch"@, "--all"@, "--prune"@, "--progress"@],
        c@.cwd == Some(repo_path@),
{
    GitCommand {
        args: owned_args(&["fetch", "--all", "--prune", "--progress"]),
        cwd: Some(repo_path.to_owned()),
    }
}

/// The lines `ls` joined by `\n` (no separator before the first line).
pub open spec fn joined(ls: Seq<Seq<char>>) -> Seq<char>
    decreases ls.len(),
{
    if ls.len() == 0 {
        Seq::empty()
    } else if ls.len() == 1 {
        ls[0]
    } else {
        joined(ls.drop_last()) + "\n"@ + ls.last()
    }
}

/// Output collected line by line: the text so far, and whether a line has
/// come (an empty line counts).
pub struct CollectedOutput {
    pub text: String,
    pub started: bool,
}

/// One more line: after the first, a `\n` goes before it.
pub open spec fn collect_step(acc: (Seq<char>, bool), line: Seq<char>) -> (Seq<char>, bool) {
    if acc.1 {
        (acc.0 + "\n"@ + line, true)
    } else {
        (acc.0 + line, true)
    }
}

/// What collecting the lines `ls`, from nothing, leaves.
pub open spec fn collect_lines(ls: Seq<Seq<char>>) -> (Seq<char>, bool)
    decreases ls.len(),
{
    if ls.len() == 0 {
        (Seq::empty(), false)
    } else {
        collect_step(collect_lines(ls.drop_last()), ls.last())
    }
}

impl CollectedOutput {
    /// Nothing collected yet.
    pub fn new() -> (c: CollectedOutput)
        ensures
            c.text@ == Seq::<char>::empty(),
            !c.started,
    {
        CollectedOutput { text: String::new(), started: false }
    }
}

/// Add a line of output to what was collected.
pub fn append_output_line(out: &mut CollectedOutput, line: &str)
    ensures
        (final(out).text@, final(out).started) == collect_step((old(out).text@, old(out).started), line@),
{
    if out.started {
        out.text.append("\n");
    }
    out.text.append(line);
    out.started = true;
}

/// Collecting lines one by one from nothing gives exactly the lines joined
/// by `\n`, leading and trailing empty lines included.
pub proof fn law_collected_lines_are_joined(ls: Seq<Seq<char>>)
    ensures
        collect_lines(ls).0 == joined(ls),
        collect_lines(ls).1 == (ls.len() > 0),
    decreases ls.len(),
{
    if ls.len() > 0 {
        law_collected_lines_are_joined(ls.drop_last());
        if ls.len() == 1 {
            assert(ls.drop_last().len() == 0);
            assert(Seq::<char>::empty() + ls[0] =~= ls[0]);
        }
    }
}

/// The last event of a streamed operation: its result, or its failure's text.
pub fn finished_event(result: Result<crate::manager::GitResult, GitError>) -> (ev: crate::manager::GitEvent)
    ensures
        result matches Ok(r) ==> ev == crate::manager::GitEvent::Done(r),
        result matches Err(e) ==> (ev matches crate::manager::GitEvent::Failed(m) && m@
            == error_text(e)),
{
    match result {
        Ok(r) => crate::manager::GitEvent::Done(r),
        Err(e) => crate::manager::GitEvent::Failed(e.message()),
    }
}

// ---------------------------------------------------------------------------
// Laws of the parsers
// ---------------------------------------------------------------------------

/// How many of the lines start a worktree entry.
pub open spec fn worktree_line_count(ls: Seq<Seq<char>>) -> nat
    decreases ls.len(),
{
    if ls.len() == 0 {
        0
    } else if has_prefix(ls.last(), "worktree "@) {
        worktree_line_count(ls.drop_last()) + 1
    } else {
        worktree_line_count(ls.drop_last())
    }
}

proof fn lemma_porcelain_count(ls: Seq<Seq<char>>)
    ensures
        flush(porcelain_fold(ls)).len() == worktree_line_count(ls),
        porcelain_fold(ls).path is Some <==> worktree_line_count(ls) > 0,
    decreases ls.len(),
{
    if ls.len() > 0 {
        lemma_porcelain_count(ls.drop_last());
    }
}

/// The porcelain parser yields exactly one worktree per `worktree` line.
pub proof fn law_one_worktree_per_entry(s: Seq<char>)
    ensures
        porcelain_worktrees(s).len() == worktree_line_count(lines(s)),
{
    lemma_porcelain_count(lines(s));
}

/// The state after the lines `ls`, read from state `st`.
pub open spec fn porcelain_fold_from(st: PorcelainState, ls: Seq<Seq<char>>) -> PorcelainState
    decreases ls.len(),
{
    if ls.len() == 0 {
        st
    } else {
        porcelain_step(porcelain_fold_from(st, ls.drop_last()), ls.last())
    }
}

proof fn lemma_fold_from_start(ls: Seq<Seq<char>>)
    ensures
        porcelain_fold(ls) == porcelain_fold_from(porcelain_start(), ls),
    decreases ls.len(),
{
    if ls.len() > 0 {
        lemma_fold_from_start(ls.drop_last());
    }
}

proof fn lemma_fold_from_concat(st: PorcelainState, la: Seq<Seq<char>>, lb: Seq<Seq<char>>)
    ensures
        porcelain_fold_from(st, la + lb) == porcelain_fold_from(porcelain_fold_from(st, la), lb),
    decreases lb.len(),
{
    if lb.len() == 0 {
        assert(la + lb =~= la);
    } else {
        lemma_fold_from_concat(st, la, lb.drop_last());
        assert((la + lb).drop_last() =~= la + lb.drop_last());
        assert((la + lb).last() == lb.last());
    }
}

/// Lines that begin with a `worktree` line are read the same from any
/// state, except that what that state held is finished first.
proof fn lemma_fold_fresh(st: PorcelainState, lb: Seq<Seq<char>>)
    requires
        lb.len() > 0,
        has_prefix(lb[0], "worktree "@),
    ensures
        porcelain_fold_from(st, lb).done == flush(st) + porcelain_fold_from(porcelain_start(), lb).done,
        porcelain_fold_from(st, lb).path == porcelain_fold_from(porcelain_start(), lb).path,
        porcelain_fold_from(st, lb).commit == porcelain_fold_from(porcelain_start(), lb).commit,
        porcelain_fold_from(st, lb).branch == porcelain_fold_from(porcelain_start(), lb).branch,
    decreases lb.len(),
{
    if lb.len() == 1 {
        assert(lb.drop_last().len() == 0);
        assert(flush(st) + Seq::<WorktreeView>::empty() =~= flush(st));
    } else {
        lemma_fold_fresh(st, lb.drop_last());
        let x = porcelain_fold_from(st, lb.drop_last());
        let y = porcelain_fold_from(porcelain_start(), lb.drop_last());
        assert(flush(x) =~= flush(st) + flush(y));
    }
}

/// Porcelain blocks are read independently: the output of one listing
/// (ending its last line) followed by another that starts with a
/// `worktree` line gives the worktrees of the first, then those of the
/// second.
pub proof fn law_porcelain_blocks_concatenate(a: Seq<char>, b: Seq<char>)
    requires
        a.len() == 0 || a.last() == '\n',
        has_prefix(b, "worktree "@),
    ensures
        porcelain_worktrees(a + b) == porcelain_worktrees(a) + porcelain_worktrees(b),
{
    reveal_strlit("worktree ");
    crate::text::lemma_lines_concat(a, b);
    let la = lines(a);
    let lb = lines(b);
    // The first line of `b` is its `worktree` line.
    assert forall|k: int| 0 <= k < 9 implies b[k] != '\n' by {
        assert(b.subrange(0, 9)[k] == "worktree "@[k]);
    }
    crate::text::lemma_find_nl_skip(b, 0, 9);
    crate::text::lemma_find_nl_bounds(b, 9);
    let e = crate::text::find_nl(b, 0);
    let first = if e >= b.len() {
        b.subrange(0, b.len() as int)
    } else {
        crate::text::strip_cr(b.subrange(0, e))
    };
    assert(lb[0] == first);
    assert(first.subrange(0, 9) =~= b.subrange(0, 9)) by {
        if e < b.len() && e == 9 {
            assert(b[8] == ' ');
        }
    }
    assert(has_prefix(lb[0], "worktree "@));
    lemma_fold_from_start(la + lb);
    lemma_fold_from_start(la);
    lemma_fold_from_start(lb);
    lemma_fold_from_concat(porcelain_start(), la, lb);
    lemma_fold_fresh(porcelain_fold(la), lb);
    let x = porcelain_fold_from(porcelain_fold(la), lb);
    let y = porcelain_fold(lb);
    assert(flush(x) =~= flush(porcelain_fold(la)) + flush(y));
}

/// A fixed head without line breaks, then a one-line text: one line.
proof fn lemma_one_line_after(q: Seq<char>, t: Seq<char>)
    requires
        q.len() > 0,
        forall|i: int| 0 <= i < q.len() ==> q[i] != '\n',
        q.last() != '\r',
        crate::text::one_line(t),
    ensures
        crate::text::one_line(q + t),
{
    assert forall|i: int| 0 <= i < (q + t).len() implies (q + t)[i] != '\n' by {
        if i >= q.len() {
            assert((q + t)[i] == t[i - q.len()]);
        }
    }
}

/// One porcelain entry: `worktree <P>`, `HEAD <H>`, `branch refs/heads/<N>`
/// gives exactly one worktree at `P` on commit `H` and branch `N`: the
/// branch is the ref with only `refs/heads/` dropped, slashes kept.
pub proof fn law_porcelain_entry(p: Seq<char>, h: Seq<char>, n: Seq<char>)
    requires
        crate::text::one_line(p),
        crate::text::one_line(h),
        crate::text::one_line(n),
    ensures
        porcelain_worktrees(
            "worktree "@ + p + "\n"@ + ("HEAD "@ + h + "\n"@) + ("branch refs/heads/"@ + n + "\n"@),
        ) == seq![WorktreeView { path: p, branch: Some(n), commit: Some(h) }],
{
    reveal_strlit("worktree ");
    reveal_strlit("HEAD ");
    reveal_strlit("branch ");
    reveal_strlit("branch refs/heads/");
    reveal_strlit("refs/heads/");
    reveal_strlit("\n");
    let w = "worktree "@;
    let hd = "HEAD "@;
    let br = "branch refs/heads/"@;
    let l1 = w + p;
    let l2 = hd + h;
    let l3 = br + n;
    lemma_one_line_after(w, p);
    lemma_one_line_after(hd, h);
    lemma_one_line_after(br, n);
    let nl = "\n"@;
    crate::text::lemma_single_line(l1);
    crate::text::lemma_single_line(l2);
    crate::text::lemma_single_line(l3);
    crate::text::lemma_lines_concat(l2 + nl, l3 + nl);
    crate::text::lemma_lines_concat(l1 + nl, (l2 + nl) + (l3 + nl));
    let s = w + p + nl + (hd + h + nl) + (br + n + nl);
    assert(s =~= (l1 + nl) + ((l2 + nl) + (l3 + nl)));
    let ls = lines(s);
    assert(ls =~= seq![l1, l2, l3]);
    // Which kind of line each is.
    assert(l1.subrange(0, 9) =~= w);
    assert(l1.skip(9) =~= p);
    assert(has_prefix(l1, w));
    assert(l2.subrange(0, 5) =~= hd);
    assert(l2.skip(5) =~= h);
    assert(!has_prefix(l2, w)) by {
        if has_prefix(l2, w) {
            assert(l2.subrange(0, 9)[0] == w[0]);
        }
    }
    assert(has_prefix(l2, hd));
    assert(!has_prefix(l3, w)) by {
        if has_prefix(l3, w) {
            assert(l3.subrange(0, 9)[0] == w[0]);
        }
    }
    assert(!has_prefix(l3, hd)) by {
        if has_prefix(l3, hd) {
            assert(l3.subrange(0, 5)[0] == hd[0]);
        }
    }
    assert(l3.subrange(0, 7) =~= "branch "@);
    assert(has_prefix(l3, "branch "@));
    let r = l3.skip(7);
    assert(r =~= "refs/heads/"@ + n);
    assert(r.subrange(0, 11) =~= "refs/heads/"@);
    assert(r.skip(11) =~= n);
    assert(short_branch(r) == n);
    let one = seq![l1];
    assert(one.drop_last() =~= Seq::<Seq<char>>::empty());
    assert(porcelain_fold(one.drop_last()) == porcelain_start());
    assert(one.last() == l1);
    let f1 = porcelain_fold(one);
    assert(f1 == porcelain_step(porcelain_start(), l1));
    assert(f1.path == Some(p) && f1.done.len() == 0);
    let two = seq![l1, l2];
    assert(two.drop_last() =~= one);
    let f2 = porcelain_fold(two);
    assert(f2 == porcelain_step(f1, l2));
    assert(ls.drop_last() =~= two);
    let f3 = porcelain_fold(ls);
    assert(f3 == porcelain_step(f2, l3));
    assert(f3.done =~= Seq::<WorktreeView>::empty());
}

proof fn lemma_strip_all_prefix_clean(s: Seq<char>, p: Seq<char>)
    requires
        p.len() > 0,
    ensures
        !has_prefix(strip_all_prefix(s, p), p),
    decreases s.len(),
{
    if has_prefix(s, p) {
        lemma_strip_all_prefix_clean(s.skip(p.len() as int), p);
    }
}

/// Every listed branch name is non-empty, is no symbolic ref (`a -> b`) and
/// does not start with the current-branch marker `* `.
pub proof fn law_branch_names_clean(ls: Seq<Seq<char>>)
    ensures
        forall|i: int|
            0 <= i < branch_names(ls).len() ==> {
                let b = #[trigger] branch_names(ls)[i];
                &&& b.len() > 0
                &&& !has_substring(b, " -> "@)
                &&& !has_prefix(b, "* "@)
            },
    decreases ls.len(),
{
    if ls.len() > 0 {
        reveal_strlit("* ");
        law_branch_names_clean(ls.drop_last());
        lemma_strip_all_prefix_clean(trim(ls.last()), "* "@);
        let r = branch_names(ls.drop_last());
        let e = branch_entry(ls.last());
        assert(branch_kept(e) ==> branch_names(ls) == r.push(e));
        assert(!branch_kept(e) ==> branch_names(ls) == r);
    }
}

} // verus!
