//! The command line of `gitgobig-cli`:
//!
//! ```text
//! gitgobig clone <URL> <DEST>
//! gitgobig sync <NAME>
//! gitgobig worktree add <REPO> <PATH> <BRANCH> [-b|--new-branch <NEW_BRANCH>]
//! gitgobig worktree list <REPO>
//! gitgobig worktree remove <REPO> <PATH>
//! ```
//!
//! `-h`/`--help` (or a `help` subcommand) asks for help, `--` ends the
//! options, and a new branch may be written `-b x`, `-bx`, `-b=x`,
//! `--new-branch x` or `--new-branch=x`.

use vstd::prelude::*;
use crate::git::texts;
use crate::text::{chars_of, has_prefix, prefix_at, slice_string};

verus! {

/// A parsed command.
#[derive(Debug, Clone, PartialEq, Eq)]
pub enum CliCommand {
    Clone { url: String, dest: String },
    Sync { name: String },
    WorktreeAdd { repo: String, path: String, branch: String, new_branch: Option<String> },
    WorktreeList { repo: String },
    WorktreeRemove { repo: String, path: String },
}

/// Which help page is asked for.
#[derive(Debug, Clone, Copy, PartialEq, Eq)]
pub enum HelpTopic {
    Main,
    Clone,
    Sync,
    Worktree,
    WorktreeAdd,
    WorktreeList,
    WorktreeRemove,
}

/// Why the command line does not name a command.
#[derive(Debug, Clone, PartialEq, Eq)]
pub enum CliError {
    /// Help was asked for.
    Help(HelpTopic),
    /// A subcommand is required here.
    MissingSubcommand(HelpTopic),
    /// No such subcommand.
    UnknownSubcommand(String),
    /// An argument that does not fit (an unknown option, or one positional
    /// argument too many).
    UnexpectedArgument(String),
    /// Required arguments are missing.
    MissingArguments(HelpTopic),
    /// `--new-branch` without a value.
    MissingValue,
    /// `--new-branch` given twice.
    RepeatedOption,
}

/// A parsed command, its texts as sequences of characters.
pub enum CommandSpec {
    Clone { url: Seq<char>, dest: Seq<char> },
    Sync { name: Seq<char> },
    WorktreeAdd { repo: Seq<char>, path: Seq<char>, branch: Seq<char>, new_branch: Option<Seq<char>> },
    WorktreeList { repo: Seq<char> },
    WorktreeRemove { repo: Seq<char>, path: Seq<char> },
}

/// A refusal of the command line, its texts as sequences of characters.
pub enum CliErrorSpec {
    Help(HelpTopic),
    MissingSubcommand(HelpTopic),
    UnknownSubcommand(Seq<char>),
    UnexpectedArgument(Seq<char>),
    MissingArguments(HelpTopic),
    MissingValue,
    RepeatedOption,
}

impl View for CliCommand {
    type V = CommandSpec;

    open spec fn view(&self) -> CommandSpec {
        match self {
            CliCommand::Clone { url, dest } => CommandSpec::Clone { url: url@, dest: dest@ },
            CliCommand::Sync { name } => CommandSpec::Sync { name: name@ },
            CliCommand::WorktreeAdd { repo, path, branch, new_branch } => CommandSpec::WorktreeAdd {
                repo: repo@,
                path: path@,
                branch: branch@,
                new_branch: crate::types::opt_text(*new_branch),
            },
            CliCommand::WorktreeList { repo } => CommandSpec::WorktreeList { repo: repo@ },
            CliCommand::WorktreeRemove { repo, path } => CommandSpec::WorktreeRemove {
                repo: repo@,
                path: path@,
            },
        }
    }
}

impl View for CliError {
    type V = CliErrorSpec;

    open spec fn view(&self) -> CliErrorSpec {
        match self {
            CliError::Help(t) => CliErrorSpec::Help(*t),
            CliError::MissingSubcommand(t) => CliErrorSpec::MissingSubcommand(*t),
            CliError::UnknownSubcommand(s) => CliErrorSpec::UnknownSubcommand(s@),
            CliError::UnexpectedArgument(s) => CliErrorSpec::UnexpectedArgument(s@),
            CliError::MissingArguments(t) => CliErrorSpec::MissingArguments(*t),
            CliError::MissingValue => CliErrorSpec::MissingValue,
            CliError::RepeatedOption => CliErrorSpec::RepeatedOption,
        }
    }
}

/// The parser's state within a subcommand's arguments.
pub struct Scan {
    pub pos: Seq<Seq<char>>,
    pub new_branch: Option<Seq<char>>,
    pub dashdash: bool,
}

/// Why a subcommand's arguments were refused (texts as sequences).
pub enum ScanError {
    Help,
    Unexpected(Seq<char>),
    MissingValue,
    Repeated,
}

/// An option-looking token: `-` followed by something.
pub open spec fn is_option(t: Seq<char>) -> bool {
    t.len() > 1 && t[0] == '-'
}

pub open spec fn is_help_flag(t: Seq<char>) -> bool {
    t == "-h"@ || t == "--help"@
}

/// The value attached to a short `-b` option (`-bx` or `-b=x`).
pub open spec fn attached_short(t: Seq<char>) -> Seq<char> {
    if t.len() > 2 && t[2] == '=' {
        t.skip(3)
    } else {
        t.skip(2)
    }
}

/// Read the arguments of a subcommand from position `i` on. `takes_b`:
/// the subcommand has the new-branch option; `max_pos`: how many
/// positional arguments it takes.
pub open spec fn scan(ts: Seq<Seq<char>>, i: int, st: Scan, takes_b: bool, max_pos: int) -> Result<
    Scan,
    ScanError,
>
    decreases ts.len() - i,
{
    if i < 0 || i >= ts.len() {
        Ok(st)
    } else {
        let t = ts[i];
        if !st.dashdash && t == "--"@ {
            scan(ts, i + 1, Scan { dashdash: true, ..st }, takes_b, max_pos)
        } else if !st.dashdash && is_help_flag(t) {
            Err(ScanError::Help)
        } else if !st.dashdash && takes_b && (t == "-b"@ || t == "--new-branch"@) {
            if st.new_branch is Some {
                Err(ScanError::Repeated)
            } else if i + 1 >= ts.len() || is_option(ts[i + 1]) {
                Err(ScanError::MissingValue)
            } else {
                scan(ts, i + 2, Scan { new_branch: Some(ts[i + 1]), ..st }, takes_b, max_pos)
            }
        } else if !st.dashdash && takes_b && has_prefix(t, "--new-branch="@) {
            if st.new_branch is Some {
                Err(ScanError::Repeated)
            } else {
                scan(
                    ts,
                    i + 1,
                    Scan { new_branch: Some(t.skip("--new-branch="@.len() as int)), ..st },
                    takes_b,
                    max_pos,
                )
            }
        } else if !st.dashdash && takes_b && has_prefix(t, "-b"@) && t.len() > 2 {
            if st.new_branch is Some {
                Err(ScanError::Repeated)
            } else {
                scan(ts, i + 1, Scan { new_branch: Some(attached_short(t)), ..st }, takes_b, max_pos)
            }
        } else if !st.dashdash && is_option(t) {
            Err(ScanError::Unexpected(t))
        } else if st.pos.len() >= max_pos {
            Err(ScanError::Unexpected(t))
        } else {
            scan(ts, i + 1, Scan { pos: st.pos.push(t), ..st }, takes_b, max_pos)
        }
    }
}

pub open spec fn scan_start() -> Scan {
    Scan { pos: Seq::empty(), new_branch: None, dashdash: false }
}

fn same(a: &Vec<char>, b: &str) -> (r: bool)
    ensures
        r == (a@ == b@),
{
    let bv = chars_of(b);
    if a.len() != bv.len() {
        return false;
    }
    let mut i: usize = 0;
    while i < a.len()
        invariant
            a@.len() == bv@.len(),
            bv@ == b@,
            i <= a@.len(),
            forall|k: int| 0 <= k < i ==> a@[k] == bv@[k],
        decreases a@.len() - i,
    {
        if a[i] != bv[i] {
            return false;
        }
        i = i + 1;
    }
    assert(a@ =~= bv@);
    true
}

/// The exec parser state mirroring `Scan`.
struct ScanState {
    pos: Vec<String>,
    new_branch: Option<String>,
    dashdash: bool,
}

fn is_option_token(t: &Vec<char>) -> (b: bool)
    ensures
        b == is_option(t@),
{
    t.len() > 1 && t[0] == '-'
}

/// What a scan of a subcommand's arguments yields, with the errors named
/// for the subcommand `topic`.
pub open spec fn scan_outcome(ts: Seq<Seq<char>>, from: int, topic: HelpTopic, takes_b: bool, max_pos: int) -> Result<
    Scan,
    CliErrorSpec,
> {
    match scan(ts, from, scan_start(), takes_b, max_pos) {
        Ok(st) => Ok(st),
        Err(ScanError::Help) => Err(CliErrorSpec::Help(topic)),
        Err(ScanError::Unexpected(u)) => Err(CliErrorSpec::UnexpectedArgument(u)),
        Err(ScanError::MissingValue) => Err(CliErrorSpec::MissingValue),
        Err(ScanError::Repeated) => Err(CliErrorSpec::RepeatedOption),
    }
}

/// A subcommand's arguments, once at least `need` positional ones are there.
pub open spec fn gathered(ts: Seq<Seq<char>>, from: int, topic: HelpTopic, takes_b: bool, max_pos: int, need: int) -> Result<
    Scan,
    CliErrorSpec,
> {
    match scan_outcome(ts, from, topic, takes_b, max_pos) {
        Ok(st) => if st.pos.len() < need {
            Err(CliErrorSpec::MissingArguments(topic))
        } else {
            Ok(st)
        },
        Err(e) => Err(e),
    }
}

spec fn scan_state_view(s: ScanState) -> Scan {
    Scan { pos: texts(s.pos@), new_branch: crate::types::opt_text(s.new_branch), dashdash: s.dashdash }
}

spec fn scan_result_view(r: Result<ScanState, CliError>) -> Result<Scan, CliErrorSpec> {
    match r {
        Ok(s) => Ok(scan_state_view(s)),
        Err(e) => Err(e@),
    }
}

/// Scan the arguments `args[from..]` of a subcommand.
fn scan_args(args: &Vec<String>, from: usize, topic: HelpTopic, takes_b: bool, max_pos: usize) -> (r: Result<
    ScanState,
    CliError,
>)
    requires
        from <= args@.len(),
    ensures
        scan_result_view(r) == scan_outcome(texts(args@), from as int, topic, takes_b, max_pos as int),
{
    let ghost ts = texts(args@);
    let mut s = ScanState { pos: Vec::new(), new_branch: None, dashdash: false };
    let mut i = from;
    let ghost mut st = scan_start();
    proof {
        assert(texts(s.pos@) =~= Seq::<Seq<char>>::empty());
    }
    while i < args.len()
        invariant
            from <= i <= args@.len(),
            ts == texts(args@),
            scan_state_view(s) == st,
            scan(ts, from as int, scan_start(), takes_b, max_pos as int) == scan(
                ts,
                i as int,
                st,
                takes_b,
                max_pos as int,
            ),
        decreases args@.len() - i,
    {
        let t = chars_of(args[i].as_str());
        assert(t@ == ts[i as int]);
        if !s.dashdash && same(&t, "--") {
            s.dashdash = true;
            proof {
                st = Scan { dashdash: true, ..st };
            }
            i = i + 1;
        } else if !s.dashdash && (same(&t, "-h") || same(&t, "--help")) {
            return Err(CliError::Help(topic));
        } else if !s.dashdash && takes_b && (same(&t, "-b") || same(&t, "--new-branch")) {
            if s.new_branch.is_some() {
                return Err(CliError::RepeatedOption);
            }
            if i + 1 >= args.len() {
                return Err(CliError::MissingValue);
            }
            let v = chars_of(args[i + 1].as_str());
            assert(v@ == ts[i + 1]);
            if is_option_token(&v) {
                return Err(CliError::MissingValue);
            }
            s.new_branch = Some(args[i + 1].clone());
            proof {
                st = Scan { new_branch: Some(ts[i + 1]), ..st };
            }
            i = i + 2;
        } else if !s.dashdash && takes_b && prefix_at(&t, 0, t.len(), &chars_of("--new-branch=")) {
            proof {
                assert(t@.subrange(0, t@.len() as int) =~= t@);
            }
            if s.new_branch.is_some() {
                return Err(CliError::RepeatedOption);
            }
            let k = chars_of("--new-branch=").len();
            let value = slice_string(args[i].as_str(), k, t.len());
            assert(value@ =~= t@.skip("--new-branch="@.len() as int));
            s.new_branch = Some(value);
            proof {
                st = Scan { new_branch: Some(t@.skip("--new-branch="@.len() as int)), ..st };
            }
            i = i + 1;
        } else if !s.dashdash && takes_b && prefix_at(&t, 0, t.len(), &chars_of("-b")) && t.len()
            > 2 {
            proof {
                assert(t@.subrange(0, t@.len() as int) =~= t@);
            }
            if s.new_branch.is_some() {
                return Err(CliError::RepeatedOption);
            }
            let start: usize = if t[2] == '=' {
                3
            } else {
                2
            };
            let value = slice_string(args[i].as_str(), start, t.len());
            assert(value@ =~= attached_short(t@));
            s.new_branch = Some(value);
            proof {
                st = Scan { new_branch: Some(attached_short(t@)), ..st };
            }
            i = i + 1;
        } else {
            proof {
                if !s.dashdash && takes_b {
                    assert(t@.subrange(0, t@.len() as int) =~= t@);
                }
            }
            if !s.dashdash && is_option_token(&t) {
                return Err(CliError::UnexpectedArgument(args[i].clone()));
            }
            if s.pos.len() >= max_pos {
                return Err(CliError::UnexpectedArgument(args[i].clone()));
            }
            let ghost prev = texts(s.pos@);
            s.pos.push(args[i].clone());
            assert(texts(s.pos@) =~= prev.push(ts[i as int]));
            proof {
                st = Scan { pos: st.pos.push(ts[i as int]), ..st };
            }
            i = i + 1;
        }
    }
    Ok(s)
}

/// The help page that `help` followed by `ts[i..]` asks for, under `worktree`.
pub open spec fn worktree_help_topic(ts: Seq<Seq<char>>, i: int) -> HelpTopic {
    if i < 0 || i >= ts.len() {
        HelpTopic::Worktree
    } else if ts[i] == "add"@ {
        HelpTopic::WorktreeAdd
    } else if ts[i] == "list"@ {
        HelpTopic::WorktreeList
    } else if ts[i] == "remove"@ {
        HelpTopic::WorktreeRemove
    } else {
        HelpTopic::Worktree
    }
}

/// The help page that `help` followed by `ts[i..]` asks for.
pub open spec fn help_topic(ts: Seq<Seq<char>>, i: int) -> HelpTopic {
    if i < 0 || i >= ts.len() {
        HelpTopic::Main
    } else if ts[i] == "clone"@ {
        HelpTopic::Clone
    } else if ts[i] == "sync"@ {
        HelpTopic::Sync
    } else if ts[i] == "worktree"@ {
        worktree_help_topic(ts, i + 1)
    } else {
        HelpTopic::Main
    }
}

/// The `worktree` subcommands, read from `ts[2..]`.
pub open spec fn parse_worktree(ts: Seq<Seq<char>>) -> Result<CommandSpec, CliErrorSpec> {
    if ts.len() < 3 {
        Err(CliErrorSpec::MissingSubcommand(HelpTopic::Worktree))
    } else {
        let u = ts[2];
        if is_help_flag(u) {
            Err(CliErrorSpec::Help(HelpTopic::Worktree))
        } else if u == "help"@ {
            Err(CliErrorSpec::Help(worktree_help_topic(ts, 3)))
        } else if is_option(u) {
            Err(CliErrorSpec::UnexpectedArgument(u))
        } else if u == "add"@ {
            match gathered(ts, 3, HelpTopic::WorktreeAdd, true, 3, 3) {
                Ok(st) => Ok(
                    CommandSpec::WorktreeAdd {
                        repo: st.pos[0],
                        path: st.pos[1],
                        branch: st.pos[2],
                        new_branch: st.new_branch,
                    },
                ),
                Err(e) => Err(e),
            }
        } else if u == "list"@ {
            match gathered(ts, 3, HelpTopic::WorktreeList, false, 1, 1) {
                Ok(st) => Ok(CommandSpec::WorktreeList { repo: st.pos[0] }),
                Err(e) => Err(e),
            }
        } else if u == "remove"@ {
            match gathered(ts, 3, HelpTopic::WorktreeRemove, false, 2, 2) {
                Ok(st) => Ok(CommandSpec::WorktreeRemove { repo: st.pos[0], path: st.pos[1] }),
                Err(e) => Err(e),
            }
        } else {
            Err(CliErrorSpec::UnknownSubcommand(u))
        }
    }
}

/// The whole command line; `ts[0]` is the program's name.
pub open spec fn parse_command(ts: Seq<Seq<char>>) -> Result<CommandSpec, CliErrorSpec> {
    if ts.len() < 2 {
        Err(CliErrorSpec::MissingSubcommand(HelpTopic::Main))
    } else {
        let t = ts[1];
        if is_help_flag(t) {
            Err(CliErrorSpec::Help(HelpTopic::Main))
        } else if t == "help"@ {
            Err(CliErrorSpec::Help(help_topic(ts, 2)))
        } else if is_option(t) {
            Err(CliErrorSpec::UnexpectedArgument(t))
        } else if t == "clone"@ {
            match gathered(ts, 2, HelpTopic::Clone, false, 2, 2) {
                Ok(st) => Ok(CommandSpec::Clone { url: st.pos[0], dest: st.pos[1] }),
                Err(e) => Err(e),
            }
        } else if t == "sync"@ {
            match gathered(ts, 2, HelpTopic::Sync, false, 1, 1) {
                Ok(st) => Ok(CommandSpec::Sync { name: st.pos[0] }),
                Err(e) => Err(e),
            }
        } else if t == "worktree"@ {
            parse_worktree(ts)
        } else {
            Err(CliErrorSpec::UnknownSubcommand(t))
        }
    }
}

/// Does `args[i]` read `lit`?
fn arg_is(args: &Vec<String>, i: usize, lit: &str) -> (b: bool)
    requires
        i < args@.len(),
    ensures
        b == (args@[i as int]@ == lit@),
{
    same(&chars_of(args[i].as_str()), lit)
}

/// Is `args[i]` an option-looking token?
fn arg_is_option(args: &Vec<String>, i: usize) -> (b: bool)
    requires
        i < args@.len(),
    ensures
        b == is_option(args@[i as int]@),
{
    is_option_token(&chars_of(args[i].as_str()))
}

fn worktree_help_topic_of(args: &Vec<String>, i: usize) -> (t: HelpTopic)
    ensures
        t == worktree_help_topic(texts(args@), i as int),
{
    if i >= args.len() {
        HelpTopic::Worktree
    } else if arg_is(args, i, "add") {
        HelpTopic::WorktreeAdd
    } else if arg_is(args, i, "list") {
        HelpTopic::WorktreeList
    } else if arg_is(args, i, "remove") {
        HelpTopic::WorktreeRemove
    } else {
        HelpTopic::Worktree
    }
}

fn help_topic_of(args: &Vec<String>, i: usize) -> (t: HelpTopic)
    requires
        i < usize::MAX,
    ensures
        t == help_topic(texts(args@), i as int),
{
    if i >= args.len() {
        HelpTopic::Main
    } else if arg_is(args, i, "clone") {
        HelpTopic::Clone
    } else if arg_is(args, i, "sync") {
        HelpTopic::Sync
    } else if arg_is(args, i, "worktree") {
        worktree_help_topic_of(args, i + 1)
    } else {
        HelpTopic::Main
    }
}

/// Scan a subcommand's arguments and ask for at least `need` positional ones.
fn gather(args: &Vec<String>, from: usize, topic: HelpTopic, takes_b: bool, max_pos: usize, need: usize) -> (r: Result<
    ScanState,
    CliError,
>)
    requires
        from <= args@.len(),
    ensures
        scan_result_view(r) == gathered(texts(args@), from as int, topic, takes_b, max_pos as int, need as int),
{
    match scan_args(args, from, topic, takes_b, max_pos) {
        Ok(s) => if s.pos.len() < need {
            Err(CliError::MissingArguments(topic))
        } else {
            Ok(s)
        },
        Err(e) => Err(e),
    }
}

/// A parsed command line.
#[derive(Debug, Clone, PartialEq, Eq)]
pub struct Cli {
    pub command: CliCommand,
}

impl Cli {
    /// Parse a command line whose first item is the program's name.
    pub fn try_parse_from(args: &Vec<String>) -> (r: Result<Cli, CliError>)
        ensures
            match r {
                Ok(c) => parse_command(texts(args@)) == Ok::<CommandSpec, CliErrorSpec>(c.command@),
                Err(e) => parse_command(texts(args@)) == Err::<CommandSpec, CliErrorSpec>(e@),
            },
    {
        let ghost ts = texts(args@);
        if args.len() < 2 {
            return Err(CliError::MissingSubcommand(HelpTopic::Main));
        }
        if arg_is(args, 1, "-h") || arg_is(args, 1, "--help") {
            return Err(CliError::Help(HelpTopic::Main));
        }
        if arg_is(args, 1, "help") {
            return Err(CliError::Help(help_topic_of(args, 2)));
        }
        if arg_is_option(args, 1) {
            return Err(CliError::UnexpectedArgument(args[1].clone()));
        }
        if arg_is(args, 1, "clone") {
            return match gather(args, 2, HelpTopic::Clone, false, 2, 2) {
                Ok(s) => Ok(Cli { command: CliCommand::Clone { url: s.pos[0].clone(), dest: s.pos[1].clone() } }),
                Err(e) => Err(e),
            };
        }
        if arg_is(args, 1, "sync") {
            return match gather(args, 2, HelpTopic::Sync, false, 1, 1) {
                Ok(s) => Ok(Cli { command: CliCommand::Sync { name: s.pos[0].clone() } }),
                Err(e) => Err(e),
            };
        }
        if !arg_is(args, 1, "worktree") {
            return Err(CliError::UnknownSubcommand(args[1].clone()));
        }
        if args.len() < 3 {
            return Err(CliError::MissingSubcommand(HelpTopic::Worktree));
        }
        if arg_is(args, 2, "-h") || arg_is(args, 2, "--help") {
            return Err(CliError::Help(HelpTopic::Worktree));
        }
        if arg_is(args, 2, "help") {
            return Err(CliError::Help(worktree_help_topic_of(args, 3)));
        }
        if arg_is_option(args, 2) {
            return Err(CliError::UnexpectedArgument(args[2].clone()));
        }
        if arg_is(args, 2, "add") {
            match gather(args, 3, HelpTopic::WorktreeAdd, true, 3, 3) {
                Ok(s) => {
                    let new_branch = crate::types::clone_opt(&s.new_branch);
                    Ok(
                        Cli {
                            command: CliCommand::WorktreeAdd {
                                repo: s.pos[0].clone(),
                                path: s.pos[1].clone(),
                                branch: s.pos[2].clone(),
                                new_branch,
                            },
                        },
                    )
                },
                Err(e) => Err(e),
            }
        } else if arg_is(args, 2, "list") {
            match gather(args, 3, HelpTopic::WorktreeList, false, 1, 1) {
                Ok(s) => Ok(Cli { command: CliCommand::WorktreeList { repo: s.pos[0].clone() } }),
                Err(e) => Err(e),
            }
        } else if arg_is(args, 2, "remove") {
            match gather(args, 3, HelpTopic::WorktreeRemove, false, 2, 2) {
                Ok(s) => Ok(
                    Cli {
                        command: CliCommand::WorktreeRemove {
                            repo: s.pos[0].clone(),
                            path: s.pos[1].clone(),
                        },
                    },
                ),
                Err(e) => Err(e),
            }
        } else {
            Err(CliError::UnknownSubcommand(args[2].clone()))
        }
    }
}

/// The command line of the history viewer: one path.
#[derive(Debug, Clone, PartialEq, Eq)]
pub struct ViewerCli {
    pub path: String,
}

/// The viewer's command line; `ts[0]` is the program's name.
pub open spec fn parse_viewer(ts: Seq<Seq<char>>) -> Result<Seq<char>, CliErrorSpec> {
    match gathered(ts, 1, HelpTopic::Main, false, 1, 1) {
        Ok(st) => Ok(st.pos[0]),
        Err(e) => Err(e),
    }
}

impl ViewerCli {
    /// Parse the viewer's command line, whose first item is the program's name.
    pub fn try_parse_from(args: &Vec<String>) -> (r: Result<ViewerCli, CliError>)
        ensures
            match r {
                Ok(c) => parse_viewer(texts(args@)) == Ok::<Seq<char>, CliErrorSpec>(c.path@),
                Err(e) => parse_viewer(texts(args@)) == Err::<Seq<char>, CliErrorSpec>(e@),
            },
    {
        let from: usize = if args.len() == 0 {
            0
        } else {
            1
        };
        proof {
            if args@.len() == 0 {
                assert(scan(texts(args@), 1, scan_start(), false, 1) == scan(texts(args@), 0, scan_start(), false, 1));
            }
        }
        match gather(args, from, HelpTopic::Main, false, 1, 1) {
            Ok(s) => Ok(ViewerCli { path: s.pos[0].clone() }),
            Err(e) => Err(e),
        }
    }
}

/// A plain argument: neither an option nor `--`.
pub open spec fn plain(t: Seq<char>) -> bool {
    !is_option(t)
}

proof fn lemma_plain_token(t: Seq<char>)
    requires
        plain(t),
    ensures
        t != "--"@,
        !is_help_flag(t),
        t != "-b"@,
        t != "--new-branch"@,
        !has_prefix(t, "--new-branch="@),
        !(has_prefix(t, "-b"@) && t.len() > 2),
{
    reveal_strlit("--");
    reveal_strlit("-h");
    reveal_strlit("--help");
    reveal_strlit("-b");
    reveal_strlit("--new-branch");
    reveal_strlit("--new-branch=");
    if has_prefix(t, "--new-branch="@) {
        assert(t[0] == t.subrange(0, 13)[0]);
    }
    if has_prefix(t, "-b"@) && t.len() > 2 {
        assert(t[0] == t.subrange(0, 2)[0]);
    }
}

/// `worktree add <REPO> <PATH> <BRANCH>` followed by the option `opt` (`-b`
/// or `--new-branch`) and its value: the worktree to create, on a new
/// branch named by that value. The long and the short option are alike.
pub proof fn law_new_branch_option(ts: Seq<Seq<char>>, opt: Seq<char>)
    requires
        ts.len() == 8,
        ts[1] == "worktree"@,
        ts[2] == "add"@,
        plain(ts[3]),
        plain(ts[4]),
        plain(ts[5]),
        opt == "-b"@ || opt == "--new-branch"@,
        ts[6] == opt,
        plain(ts[7]),
    ensures
        parse_command(ts) == Ok::<CommandSpec, CliErrorSpec>(
            CommandSpec::WorktreeAdd { repo: ts[3], path: ts[4], branch: ts[5], new_branch: Some(ts[7]) },
        ),
{
    reveal_strlit("worktree");
    reveal_strlit("add");
    reveal_strlit("-h");
    reveal_strlit("--help");
    reveal_strlit("help");
    reveal_strlit("clone");
    reveal_strlit("sync");
    reveal_strlit("-b");
    reveal_strlit("--new-branch");
    reveal_strlit("--");
    assert(ts[1].len() == 8 && "-h"@.len() == 2 && "--help"@.len() == 6 && "help"@.len() == 4);
    assert("clone"@.len() == 5 && "sync"@.len() == 4 && ts[2].len() == 3);
    assert(ts[1] != "-h"@ && ts[1] != "--help"@);
    assert(ts[2] != "-h"@ && ts[2] != "--help"@);
    assert(!is_help_flag(ts[1]));
    assert(ts[1] != "help"@);
    assert(!is_option(ts[1]));
    assert(ts[1] != "clone"@);
    assert(ts[1] != "sync"@);
    assert(!is_help_flag(ts[2]));
    assert(ts[2] != "help"@);
    assert(!is_option(ts[2]));
    lemma_plain_token(ts[3]);
    lemma_plain_token(ts[4]);
    lemma_plain_token(ts[5]);
    lemma_plain_token(ts[7]);
    if opt == "-b"@ {
        assert(ts[6][1] == 'b' && "--"@[1] == '-' && "-h"@[1] == 'h');
        assert(ts[6].len() == 2 && "--help"@.len() == 6);
    } else {
        assert(ts[6].len() == 12 && "--"@.len() == 2 && "-h"@.len() == 2 && "--help"@.len() == 6);
    }
    assert(ts[6] != "--"@);
    assert(!is_help_flag(ts[6]));
    let s0 = scan_start();
    let s1 = Scan { pos: s0.pos.push(ts[3]), ..s0 };
    let s2 = Scan { pos: s1.pos.push(ts[4]), ..s1 };
    let s3 = Scan { pos: s2.pos.push(ts[5]), ..s2 };
    let s4 = Scan { new_branch: Some(ts[7]), ..s3 };
    assert(scan(ts, 8, s4, true, 3) == Ok::<Scan, ScanError>(s4));
    assert(scan(ts, 6, s3, true, 3) == scan(ts, 8, s4, true, 3));
    assert(scan(ts, 5, s2, true, 3) == scan(ts, 6, s3, true, 3));
    assert(scan(ts, 4, s1, true, 3) == scan(ts, 5, s2, true, 3));
    assert(scan(ts, 3, s0, true, 3) == scan(ts, 4, s1, true, 3));
    assert(s3.pos =~= seq![ts[3], ts[4], ts[5]]);
}

} // verus!
