//! CLI argument definitions and parsing.
//!
//! Global flags (`--help`, `--version`, `--path`, `--no-colors`) may stand
//! anywhere; the first positional argument may name a command; hidden test
//! flags (`--and-exit`, `--and-keys`, `--and-type`, `--and-confirm`) drive
//! the selector without a terminal.

use vstd::prelude::*;
use crate::text::{chars_of, find_char, first_index, lemma_find_from, opt_string, owned, push_str, slice_vec, starts_with, string_of};

verus! {

/// The version reported by `--version`.
pub const VERSION: &'static str = "0.1.0";

/// Parsed CLI arguments.
#[derive(Debug)]
pub struct CliArgs {
    /// The subcommand (init, install, clone, worktree, exec, or None for default)
    pub command: Option<Command>,
    /// --path flag value (overrides LAB_PATH)
    pub path: Option<String>,
    /// --no-colors flag
    pub no_colors: bool,
    /// --and-exit flag (test infrastructure)
    pub and_exit: bool,
    /// --and-keys value (test infrastructure)
    pub and_keys: Option<String>,
    /// --and-type value (test infrastructure)
    pub and_type: Option<String>,
    /// --and-confirm value (test infrastructure)
    pub and_confirm: Option<String>,
    /// Remaining positional arguments
    pub args: Vec<String>,
}

/// Known subcommands.
#[derive(Debug, Clone, Copy, PartialEq, Eq, Structural)]
pub enum Command {
    Init,
    Install,
    Clone,
    Worktree,
    Exec,
}

/// The result of parsing arguments: run, or an early exit request.
#[derive(Debug)]
pub enum ParseResult {
    /// Normal execution with parsed args
    Run(CliArgs),
    /// Print help to stderr and exit with the given code
    Help(i32),
    /// Print version to stderr and exit 0
    Version,
}

/// What the parsed arguments say, as plain values.
pub struct ArgsModel {
    pub command: Option<Command>,
    pub path: Option<Seq<char>>,
    pub no_colors: bool,
    pub and_exit: bool,
    pub and_keys: Option<Seq<char>>,
    pub and_type: Option<Seq<char>>,
    pub and_confirm: Option<Seq<char>>,
    pub args: Seq<Seq<char>>,
}

/// What a parse decides, as plain values.
pub enum ParseModel {
    Run(ArgsModel),
    Help(i32),
    Version,
}

/// The plain-value reading of parsed arguments.
pub open spec fn args_model(a: CliArgs) -> ArgsModel {
    ArgsModel {
        command: a.command,
        path: opt_string(a.path),
        no_colors: a.no_colors,
        and_exit: a.and_exit,
        and_keys: opt_string(a.and_keys),
        and_type: opt_string(a.and_type),
        and_confirm: opt_string(a.and_confirm),
        args: a.args.deep_view(),
    }
}

/// The plain-value reading of a parse result.
pub open spec fn parse_model(r: ParseResult) -> ParseModel {
    match r {
        ParseResult::Run(a) => ParseModel::Run(args_model(a)),
        ParseResult::Help(c) => ParseModel::Help(c),
        ParseResult::Version => ParseModel::Version,
    }
}

/// Index of the first argument equal to `flag`.
pub open spec fn first_equal(args: Seq<Seq<char>>, flag: Seq<char>, from: int) -> Option<int>
    decreases args.len() - from,
{
    if from < 0 || from >= args.len() {
        None
    } else if args[from] == flag {
        Some(from)
    } else {
        first_equal(args, flag, from + 1)
    }
}

/// Removes the first argument equal to `flag`, telling whether there was one.
pub open spec fn spec_extract_flag(args: Seq<Seq<char>>, flag: Seq<char>) -> (Seq<Seq<char>>, bool) {
    match first_equal(args, flag, 0) {
        Some(i) => (args.remove(i), true),
        None => (args, false),
    }
}

/// Whether `arg` is `opt` or `opt=VALUE`.
pub open spec fn option_matches(arg: Seq<char>, opt: Seq<char>) -> bool {
    arg == opt || (opt + "="@).is_prefix_of(arg)
}

/// Index of the last argument below `end` that matches `opt`.
pub open spec fn last_option(args: Seq<Seq<char>>, opt: Seq<char>, end: int) -> Option<int>
    decreases end,
{
    if end <= 0 || end > args.len() {
        None
    } else if option_matches(args[end - 1], opt) {
        Some(end - 1)
    } else {
        last_option(args, opt, end - 1)
    }
}

/// Removes the last `--name VALUE` or `--name=VALUE` from the arguments and
/// gives its value; in the first form the value is the next argument, if any.
pub open spec fn spec_extract_option(args: Seq<Seq<char>>, opt: Seq<char>) -> (
    Seq<Seq<char>>,
    Option<Seq<char>>,
) {
    match last_option(args, opt, args.len() as int) {
        None => (args, None),
        Some(i) => {
            let arg = args[i];
            let rest = args.remove(i);
            match first_index(arg, '=') {
                Some(e) => (rest, Some(arg.skip(e + 1))),
                None => if i < rest.len() {
                    (rest.remove(i), Some(rest[i]))
                } else {
                    (rest, None)
                },
            }
        },
    }
}

/// Whether some argument equals `a` or `b`.
pub open spec fn any_equal(args: Seq<Seq<char>>, a: Seq<char>, b: Seq<char>) -> bool {
    exists|i: int| 0 <= i < args.len() && (args[i] == a || args[i] == b)
}

/// The command a first argument names.
pub open spec fn command_named(s: Seq<char>) -> Option<Command> {
    if s == "init"@ {
        Some(Command::Init)
    } else if s == "install"@ {
        Some(Command::Install)
    } else if s == "clone"@ {
        Some(Command::Clone)
    } else if s == "worktree"@ {
        Some(Command::Worktree)
    } else if s == "exec"@ {
        Some(Command::Exec)
    } else {
        None
    }
}

/// What parsing `args` (without the program name) decides.
pub open spec fn spec_parse_args(args0: Seq<Seq<char>>) -> ParseModel {
    let (args1, no_colors_a) = spec_extract_flag(args0, "--no-colors"@);
    let (args2, no_colors_b) = if no_colors_a {
        (args1, false)
    } else {
        spec_extract_flag(args1, "--no-expand-tokens"@)
    };
    let no_colors = no_colors_a || no_colors_b;
    if any_equal(args2, "--help"@, "-h"@) {
        ParseModel::Help(0)
    } else if any_equal(args2, "--version"@, "-v"@) {
        ParseModel::Version
    } else {
        let (args3, path) = spec_extract_option(args2, "--path"@);
        let (args4, and_type) = spec_extract_option(args3, "--and-type"@);
        let (args5, and_exit) = spec_extract_flag(args4, "--and-exit"@);
        let (args6, and_keys) = spec_extract_option(args5, "--and-keys"@);
        let (args7, and_confirm) = spec_extract_option(args6, "--and-confirm"@);
        if args7.len() == 0 && path is None && !and_exit && and_keys is None && and_type is None {
            ParseModel::Help(2)
        } else {
            let command = if args7.len() > 0 {
                command_named(args7[0])
            } else {
                None
            };
            ParseModel::Run(
                ArgsModel {
                    command,
                    path,
                    no_colors,
                    and_exit,
                    and_keys,
                    and_type,
                    and_confirm,
                    args: if command is Some {
                        args7.remove(0)
                    } else {
                        args7
                    },
                },
            )
        }
    }
}

/// The help text, naming the version.
pub open spec fn spec_help_text() -> Seq<char> {
    "lab v"@ + VERSION@ + HELP_BODY@
}

/// Everything of the help text after the version.
pub const HELP_BODY: &'static str = " - ephemeral workspace manager

To use lab, add to your shell config:

  # bash/zsh (~/.bashrc or ~/.zshrc)
  eval \"$(lab init ~/src/labs)\"

  # fish (~/.config/fish/config.fish)
  eval (lab init ~/src/labs | string collect)

Usage:
  lab [query]           Interactive directory selector
  lab clone <url>       Clone repo into dated directory
  lab worktree <name>   Create worktree from current git repo
  lab --help            Show this help

Commands:
  init [path]           Output shell function definition
  clone <url> [name]    Clone git repo into date-prefixed directory
  worktree <name>       Create worktree in dated directory

Examples:
  lab                   Open interactive selector
  lab project           Selector with initial filter
  lab clone https://github.com/user/repo
  lab worktree feature-branch

Manual mode (without alias):
  lab exec [query]      Output shell script to eval

Environment:
  LAB_PATH          Labs directory (default: ~/src/labs)
  LAB_PROJECTS      Graduate destination (default: parent of LAB_PATH)

Keyboard:
  ↑/↓, Ctrl-P/N     Navigate
  Enter              Select / Create new
  Ctrl-R             Rename
  Ctrl-G             Graduate (promote lab to project)
  Ctrl-D             Mark for deletion
  Ctrl-T             Create new lab
  Esc                Cancel
";

/// The help text.
pub fn help_text() -> (r: String)
    ensures
        r@ == spec_help_text(),
{
    let mut r = owned("lab v");
    push_str(&mut r, VERSION);
    push_str(&mut r, HELP_BODY);
    r
}

/// The version string, `lab X.Y.Z`.
pub fn version_text() -> (r: String)
    ensures
        r@ == "lab "@ + VERSION@,
{
    let mut r = owned("lab ");
    push_str(&mut r, VERSION);
    r
}

/// Removes the first argument equal to `flag`; true if there was one.
fn extract_flag(args: &mut Vec<String>, flag: &str) -> (found: bool)
    ensures
        (final(args).deep_view(), found) == spec_extract_flag(old(args).deep_view(), flag@),
{
    let ghost a = args.deep_view();
    let target = owned(flag);
    let mut i: usize = 0;
    while i < args.len()
        invariant
            a == args.deep_view(),
            a == old(args).deep_view(),
            i <= args@.len(),
            first_equal(a, flag@, 0) == first_equal(a, flag@, i as int),
            target@ == flag@,
        decreases args@.len() - i,
    {
        assert(a[i as int] == args@[i as int]@);
        if args[i] == target {
            proof {
                assert(a[i as int] == flag@);
                assert(first_equal(a, flag@, i as int) == Some(i as int));
            }
            let _ = args.remove(i);
            proof {
                assert(args.deep_view() =~= a.remove(i as int));
                assert(spec_extract_flag(a, flag@) == (a.remove(i as int), true));
            }
            return true;
        }
        i = i + 1;
    }
    false
}

fn option_matches_exec(arg: &String, opt: &str) -> (r: bool)
    ensures
        r == option_matches(arg@, opt@),
{
    let mut with_eq = owned(opt);
    push_str(&mut with_eq, "=");
    *arg == owned(opt) || starts_with(&chars_of(arg.as_str()), &chars_of(with_eq.as_str()))
}

/// Removes the last `--name VALUE` or `--name=VALUE` and returns its value.
fn extract_option_with_value(args: &mut Vec<String>, opt_name: &str) -> (value: Option<String>)
    ensures
        (final(args).deep_view(), opt_string(value)) == spec_extract_option(
            old(args).deep_view(),
            opt_name@,
        ),
{
    let ghost a = args.deep_view();
    let mut end = args.len();
    let mut found: Option<usize> = None;
    loop
        invariant_except_break
            a == args.deep_view(),
            end <= args@.len(),
            found is None,
            last_option(a, opt_name@, a.len() as int) == last_option(a, opt_name@, end as int),
        ensures
            a == args.deep_view(),
            match found {
                Some(i) => last_option(a, opt_name@, a.len() as int) == Some(i as int) && i
                    < a.len(),
                None => last_option(a, opt_name@, a.len() as int) is None,
            },
        decreases end,
    {
        if end == 0 {
            break;
        }
        assert(a[end - 1] == args@[end - 1]@);
        if option_matches_exec(&args[end - 1], opt_name) {
            found = Some(end - 1);
            break;
        }
        end = end - 1;
    }
    let i = match found {
        Some(i) => i,
        None => {
            return None;
        },
    };
    let arg = args.remove(i);
    let ghost rest = args.deep_view();
    proof {
        assert(rest =~= a.remove(i as int));
        assert(arg@ == a[i as int]);
    }
    let chars = chars_of(arg.as_str());
    let n = chars.len();
    match find_char(&chars, '=') {
        Some(e) => {
            proof {
                lemma_find_from(chars@, '=', 0);
            }
            let v = slice_vec(&chars, e + 1, n);
            proof {
                assert(v@ =~= arg@.skip(e + 1));
            }
            Some(string_of(&v))
        },
        None => {
            if i < args.len() {
                let next = args.remove(i);
                proof {
                    assert(args.deep_view() =~= rest.remove(i as int));
                }
                Some(next)
            } else {
                None
            }
        },
    }
}

fn any_equal_exec(args: &Vec<String>, a: &str, b: &str) -> (r: bool)
    ensures
        r == any_equal(args.deep_view(), a@, b@),
{
    let sa = owned(a);
    let sb = owned(b);
    let mut i: usize = 0;
    while i < args.len()
        invariant
            i <= args@.len(),
            sa@ == a@,
            sb@ == b@,
            forall|j: int| 0 <= j < i ==> args@[j]@ != a@ && args@[j]@ != b@,
        decreases args@.len() - i,
    {
        if args[i] == sa || args[i] == sb {
            proof {
                assert(args.deep_view()[i as int] == args@[i as int]@);
            }
            return true;
        }
        i = i + 1;
    }
    proof {
        assert forall|j: int| 0 <= j < args.deep_view().len() implies !(args.deep_view()[j] == a@
            || args.deep_view()[j] == b@) by {
            assert(args.deep_view()[j] == args@[j]@);
        }
    }
    false
}

fn command_of(s: &String) -> (r: Option<Command>)
    ensures
        r == command_named(s@),
{
    if *s == owned("init") {
        Some(Command::Init)
    } else if *s == owned("install") {
        Some(Command::Install)
    } else if *s == owned("clone") {
        Some(Command::Clone)
    } else if *s == owned("worktree") {
        Some(Command::Worktree)
    } else if *s == owned("exec") {
        Some(Command::Exec)
    } else {
        None
    }
}

/// Parse the command-line arguments (without the program name).
///
/// `--help`/`-h` anywhere gives help with exit 0, `--version`/`-v`
/// anywhere gives the version, no arguments at all give help with exit 2;
/// flags may appear before or after the command; an unknown first
/// argument stays as a search query.
pub fn parse_args(argv: Vec<String>) -> (r: ParseResult)
    ensures
        parse_model(r) == spec_parse_args(argv.deep_view()),
{
    let mut args = argv;
    let ghost a0 = args.deep_view();
    let no_colors_a = extract_flag(&mut args, "--no-colors");
    let no_colors = no_colors_a || extract_flag(&mut args, "--no-expand-tokens");
    let ghost a2 = args.deep_view();
    if any_equal_exec(&args, "--help", "-h") {
        return ParseResult::Help(0);
    }
    if any_equal_exec(&args, "--version", "-v") {
        return ParseResult::Version;
    }
    let path = extract_option_with_value(&mut args, "--path");
    let and_type = extract_option_with_value(&mut args, "--and-type");
    let and_exit = extract_flag(&mut args, "--and-exit");
    let and_keys = extract_option_with_value(&mut args, "--and-keys");
    let and_confirm = extract_option_with_value(&mut args, "--and-confirm");
    let ghost a7 = args.deep_view();
    if args.len() == 0 && path.is_none() && !and_exit && and_keys.is_none() && and_type.is_none() {
        return ParseResult::Help(2);
    }
    let command = if args.len() > 0 {
        proof {
            assert(a7[0] == args@[0]@);
        }
        command_of(&args[0])
    } else {
        None
    };
    if command.is_some() {
        let _ = args.remove(0);
        proof {
            assert(args.deep_view() =~= a7.remove(0));
        }
    }
    proof {
        assert(spec_extract_option(a2, "--path"@).1 == opt_string(path));
    }
    ParseResult::Run(
        CliArgs { command, path, no_colors, and_exit, and_keys, and_type, and_confirm, args },
    )
}

proof fn lemma_first_equal(args: Seq<Seq<char>>, flag: Seq<char>, from: int)
    requires
        0 <= from,
    ensures
        first_equal(args, flag, from) matches Some(j) ==> from <= j < args.len() && args[j] == flag,
    decreases args.len() - from,
{
    if from < args.len() && args[from] != flag {
        lemma_first_equal(args, flag, from + 1);
    }
}

proof fn lemma_extract_keeps(args: Seq<Seq<char>>, flag: Seq<char>, i: int)
    requires
        0 <= i < args.len(),
        args[i] != flag,
    ensures
        exists|k: int| 0 <= k < spec_extract_flag(args, flag).0.len() && spec_extract_flag(args, flag).0[k] == args[i],
{
    lemma_first_equal(args, flag, 0);
    match first_equal(args, flag, 0) {
        Some(j) => {
            let out = args.remove(j);
            assert(spec_extract_flag(args, flag).0 == out);
            if i < j {
                assert(spec_extract_flag(args, flag).0[i] == args[i]);
            } else {
                assert(spec_extract_flag(args, flag).0[i - 1] == args[i]);
            }
        },
        None => {
            assert(spec_extract_flag(args, flag).0[i] == args[i]);
        },
    }
}

/// `--help` or `-h` anywhere among the arguments asks for help, with exit
/// status 0, whatever else is there.
pub proof fn law_help_anywhere(args: Seq<Seq<char>>, i: int)
    requires
        0 <= i < args.len(),
        args[i] == "--help"@ || args[i] == "-h"@,
    ensures
        spec_parse_args(args) == ParseModel::Help(0),
{
    reveal_strlit("--help");
    reveal_strlit("-h");
    reveal_strlit("--no-colors");
    reveal_strlit("--no-expand-tokens");
    assert("--help"@.len() == 6 && "-h"@.len() == 2);
    assert("--no-colors"@.len() == 11 && "--no-expand-tokens"@.len() == 18);
    assert(args[i] != "--no-colors"@);
    assert(args[i] != "--no-expand-tokens"@);
    lemma_extract_keeps(args, "--no-colors"@, i);
    let (args1, no_colors_a) = spec_extract_flag(args, "--no-colors"@);
    let k1 = choose|k: int| 0 <= k < args1.len() && args1[k] == args[i];
    if !no_colors_a {
        lemma_extract_keeps(args1, "--no-expand-tokens"@, k1);
        let args2 = spec_extract_flag(args1, "--no-expand-tokens"@).0;
        let k2 = choose|k: int| 0 <= k < args2.len() && args2[k] == args1[k1];
        assert(any_equal(args2, "--help"@, "-h"@));
    } else {
        assert(any_equal(args1, "--help"@, "-h"@));
    }
}

} // verus!
