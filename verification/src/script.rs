//! Shell scripts for cd, mkdir, git init, clone and worktree.
//!
//! Scripts are lists of commands; `script_text` lays them out in the format
//! the shell wrapper evaluates: a warning comment, then the commands chained
//! with ` && \`, continuations indented by two spaces.

use vstd::prelude::*;
use crate::text::{owned, push_str};
use crate::util::{quote_path, quoted};

verus! {

/// The comment that starts every script, for whoever reads one that was
/// not run through the shell function.
pub const SCRIPT_WARNING: &'static str = "# if you can read this, you didn't launch lab from an alias. run lab --help.";

/// First line of every script.
pub open spec fn warning_line() -> Seq<char> {
    "# if you can read this, you didn't launch lab from an alias. run lab --help."@
}

/// `cmd ` + quoted `path`.
pub open spec fn quoted_cmd(cmd: Seq<char>, path: Seq<char>) -> Seq<char> {
    cmd + quoted(path)
}

/// touch + echo + cd into `path`.
pub open spec fn spec_script_cd(path: Seq<char>) -> Seq<Seq<char>> {
    seq![quoted_cmd("touch "@, path), quoted_cmd("echo "@, path), quoted_cmd("cd "@, path)]
}

/// mkdir -p, then touch + echo + cd.
pub open spec fn spec_script_mkdir_cd(path: Seq<char>) -> Seq<Seq<char>> {
    seq![quoted_cmd("mkdir -p "@, path)] + spec_script_cd(path)
}

/// mkdir -p, git init, then touch + echo + cd.
pub open spec fn spec_script_mkdir_init_cd(path: Seq<char>) -> Seq<Seq<char>> {
    seq![quoted_cmd("mkdir -p "@, path), quoted_cmd("git init -q "@, path)] + spec_script_cd(path)
}

/// mkdir, message, git clone, then touch + echo + cd.
pub open spec fn spec_script_clone(path: Seq<char>, uri: Seq<char>) -> Seq<Seq<char>> {
    seq![
        quoted_cmd("mkdir -p "@, path),
        quoted_cmd("echo "@, "Using git clone to create this lab from "@ + uri + "."@),
        "git clone '"@ + uri + "' "@ + quoted(path),
    ] + spec_script_cd(path)
}

/// The `sh -c` command that adds a detached worktree at `path`.
pub open spec fn spec_worktree_cmd(path: Seq<char>, repo: Option<Seq<char>>) -> Seq<char> {
    match repo {
        Some(r) => "/usr/bin/env sh -c 'if git -C "@ + quoted(r)
            + " rev-parse --is-inside-work-tree >/dev/null 2>&1; then repo=$(git -C "@ + quoted(r)
            + " rev-parse --show-toplevel); git -C \"$repo\" worktree add --detach "@ + quoted(path)
            + " >/dev/null 2>&1 || true; fi; exit 0'"@,
        None => "/usr/bin/env sh -c 'if git rev-parse --is-inside-work-tree >/dev/null 2>&1; then repo=$(git rev-parse --show-toplevel); git -C \"$repo\" worktree add --detach "@
            + quoted(path) + " >/dev/null 2>&1 || true; fi; exit 0'"@,
    }
}

/// mkdir, message naming `source`, worktree command, then touch + echo + cd.
pub open spec fn spec_script_worktree(
    path: Seq<char>,
    repo: Option<Seq<char>>,
    source: Seq<char>,
) -> Seq<Seq<char>> {
    seq![
        quoted_cmd("mkdir -p "@, path),
        quoted_cmd("echo "@, "Using git worktree to create this lab from "@ + source + "."@),
        spec_worktree_cmd(path, repo),
    ] + spec_script_cd(path)
}

/// Line `i` of a script: indented unless first, chained unless last.
pub open spec fn script_line(cmds: Seq<Seq<char>>, i: int) -> Seq<char> {
    (if i == 0 {
        Seq::<char>::empty()
    } else {
        "  "@
    }) + cmds[i] + (if i == cmds.len() - 1 {
        Seq::<char>::empty()
    } else {
        " && \\"@
    }) + "\n"@
}

/// Lines `0..n` of a script, concatenated.
pub open spec fn script_lines(cmds: Seq<Seq<char>>, n: int) -> Seq<char>
    decreases n,
{
    if n <= 0 {
        Seq::empty()
    } else {
        script_lines(cmds, n - 1) + script_line(cmds, n - 1)
    }
}

/// The full text of a script.
pub open spec fn spec_script_text(cmds: Seq<Seq<char>>) -> Seq<char> {
    warning_line() + "\n"@ + script_lines(cmds, cmds.len() as int)
}

/// Every script that opens a lab ends by changing into it, after touching
/// it and printing its path.
pub proof fn law_scripts_end_in_lab(path: Seq<char>, uri: Seq<char>, repo: Option<Seq<char>>, source: Seq<char>)
    ensures
        ({
            let tail = spec_script_cd(path);
            &&& spec_script_cd(path).last() == quoted_cmd("cd "@, path)
            &&& spec_script_mkdir_cd(path).subrange(1, 4) == tail
            &&& spec_script_mkdir_init_cd(path).subrange(2, 5) == tail
            &&& spec_script_clone(path, uri).subrange(3, 6) == tail
            &&& spec_script_worktree(path, repo, source).subrange(3, 6) == tail
            &&& spec_script_mkdir_cd(path).len() == 4
            &&& spec_script_mkdir_init_cd(path).len() == 5
            &&& spec_script_clone(path, uri).len() == 6
            &&& spec_script_worktree(path, repo, source).len() == 6
        }),
{
    assert(spec_script_mkdir_cd(path).subrange(1, 4) =~= spec_script_cd(path));
    assert(spec_script_mkdir_init_cd(path).subrange(2, 5) =~= spec_script_cd(path));
    assert(spec_script_clone(path, uri).subrange(3, 6) =~= spec_script_cd(path));
    assert(spec_script_worktree(path, repo, source).subrange(3, 6) =~= spec_script_cd(path));
}

fn quoted_command(cmd: &str, path: &str) -> (r: String)
    ensures
        r@ == quoted_cmd(cmd@, path@),
{
    let mut r = owned(cmd);
    push_str(&mut r, quote_path(path).as_str());
    r
}

/// Build commands for cd-ing to an existing directory: touch (to update
/// the mtime used for recency), echo the path, cd into it.
pub fn script_cd(path: &str) -> (cmds: Vec<String>)
    ensures
        cmds.deep_view() == spec_script_cd(path@),
{
    let cmds = vec![
        quoted_command("touch ", path),
        quoted_command("echo ", path),
        quoted_command("cd ", path),
    ];
    proof {
        assert(cmds.deep_view() =~= spec_script_cd(path@));
    }
    cmds
}

/// Build commands for creating a new directory and cd-ing into it.
pub fn script_mkdir_cd(path: &str) -> (cmds: Vec<String>)
    ensures
        cmds.deep_view() == spec_script_mkdir_cd(path@),
{
    let mut cmds = vec![quoted_command("mkdir -p ", path)];
    let mut rest = script_cd(path);
    cmds.append(&mut rest);
    proof {
        assert(cmds.deep_view() =~= spec_script_mkdir_cd(path@));
    }
    cmds
}

/// Build commands for creating a new directory, making it a git
/// repository, and cd-ing into it.
pub fn script_mkdir_init_cd(path: &str) -> (cmds: Vec<String>)
    ensures
        cmds.deep_view() == spec_script_mkdir_init_cd(path@),
{
    let mut cmds = vec![quoted_command("mkdir -p ", path), quoted_command("git init -q ", path)];
    let mut rest = script_cd(path);
    cmds.append(&mut rest);
    proof {
        assert(cmds.deep_view() =~= spec_script_mkdir_init_cd(path@));
    }
    cmds
}

/// Build commands for cloning a git repo and cd-ing into the result.
pub fn script_clone(path: &str, uri: &str) -> (cmds: Vec<String>)
    ensures
        cmds.deep_view() == spec_script_clone(path@, uri@),
{
    let mut message = owned("Using git clone to create this lab from ");
    push_str(&mut message, uri);
    push_str(&mut message, ".");
    let mut echo = owned("echo ");
    push_str(&mut echo, quote_path(message.as_str()).as_str());
    let mut clone = owned("git clone '");
    push_str(&mut clone, uri);
    push_str(&mut clone, "' ");
    push_str(&mut clone, quote_path(path).as_str());
    let mut cmds = vec![quoted_command("mkdir -p ", path), echo, clone];
    let mut rest = script_cd(path);
    cmds.append(&mut rest);
    proof {
        assert(cmds.deep_view() =~= spec_script_clone(path@, uri@));
    }
    cmds
}

fn worktree_command(path: &str, repo: Option<&str>) -> (r: String)
    ensures
        r@ == spec_worktree_cmd(path@, match repo {
            Some(x) => Some(x@),
            None => None,
        }),
{
    let q_path = quote_path(path);
    match repo {
        Some(rp) => {
            let q_repo = quote_path(rp);
            let mut r = owned("/usr/bin/env sh -c 'if git -C ");
            push_str(&mut r, q_repo.as_str());
            push_str(&mut r, " rev-parse --is-inside-work-tree >/dev/null 2>&1; then repo=$(git -C ");
            push_str(&mut r, q_repo.as_str());
            push_str(&mut r, " rev-parse --show-toplevel); git -C \"$repo\" worktree add --detach ");
            push_str(&mut r, q_path.as_str());
            push_str(&mut r, " >/dev/null 2>&1 || true; fi; exit 0'");
            r
        },
        None => {
            let mut r = owned(
                "/usr/bin/env sh -c 'if git rev-parse --is-inside-work-tree >/dev/null 2>&1; then repo=$(git rev-parse --show-toplevel); git -C \"$repo\" worktree add --detach ",
            );
            push_str(&mut r, q_path.as_str());
            push_str(&mut r, " >/dev/null 2>&1 || true; fi; exit 0'");
            r
        },
    }
}

/// Build commands for creating a git worktree at `path` and cd-ing into it.
///
/// With `repo`, the worktree is made from that repository; without it, from
/// the repository around the current directory `cwd`, which the message
/// then names.
pub fn script_worktree(path: &str, repo: Option<&str>, cwd: &str) -> (cmds: Vec<String>)
    ensures
        cmds.deep_view() == spec_script_worktree(path@, match repo {
            Some(x) => Some(x@),
            None => None,
        }, match repo {
            Some(x) => x@,
            None => cwd@,
        }),
{
    let source = match repo {
        Some(r) => r,
        None => cwd,
    };
    let mut message = owned("Using git worktree to create this lab from ");
    push_str(&mut message, source);
    push_str(&mut message, ".");
    let mut echo = owned("echo ");
    push_str(&mut echo, quote_path(message.as_str()).as_str());
    let mut cmds = vec![quoted_command("mkdir -p ", path), echo, worktree_command(path, repo)];
    let mut rest = script_cd(path);
    cmds.append(&mut rest);
    proof {
        assert(cmds.deep_view() =~= spec_script_worktree(path@, match repo {
            Some(x) => Some(x@),
            None => None,
        }, source@));
    }
    cmds
}

/// The text of a script: the warning line, the first command unindented,
/// later ones indented by two spaces, all but the last ending in ` && \`.
pub fn script_text(commands: &[String]) -> (text: String)
    ensures
        text@ == spec_script_text(commands.deep_view()),
{
    let ghost cmds = commands.deep_view();
    let mut text = owned("# if you can read this, you didn't launch lab from an alias. run lab --help.");
    push_str(&mut text, "\n");
    let n = commands.len();
    let mut i: usize = 0;
    while i < n
        invariant
            n == commands@.len(),
            cmds == commands.deep_view(),
            i <= n,
            text@ == warning_line() + "\n"@ + script_lines(cmds, i as int),
        decreases n - i,
    {
        let ghost before = text@;
        if i > 0 {
            push_str(&mut text, "  ");
        }
        push_str(&mut text, commands[i].as_str());
        if i + 1 < n {
            push_str(&mut text, " && \\");
        }
        push_str(&mut text, "\n");
        proof {
            assert(cmds[i as int] == commands@[i as int]@);
            if i > 0 {
                if i + 1 < n {
                    assert(text@ =~= before + ("  "@ + cmds[i as int] + " && \\"@ + "\n"@));
                } else {
                    assert(text@ =~= before + ("  "@ + cmds[i as int] + Seq::<char>::empty() + "\n"@));
                }
            } else {
                if i + 1 < n {
                    assert(text@ =~= before + (Seq::<char>::empty() + cmds[i as int] + " && \\"@ + "\n"@));
                } else {
                    assert(text@ =~= before + (Seq::<char>::empty() + cmds[i as int] + Seq::<char>::empty() + "\n"@));
                }
            }
            assert(text@ =~= warning_line() + "\n"@ + script_lines(cmds, i + 1));
        }
        i = i + 1;
    }
    text
}


/// The command that deletes `name` when it is a directory.
pub open spec fn spec_delete_item(name: Seq<char>) -> Seq<char> {
    "test -d "@ + quoted(name) + " && rm -rf "@ + quoted(name)
}

/// One delete command per name, in order.
pub open spec fn delete_items(names: Seq<Seq<char>>) -> Seq<Seq<char>>
    decreases names.len(),
{
    if names.len() == 0 {
        Seq::empty()
    } else {
        delete_items(names.drop_last()).push(spec_delete_item(names.last()))
    }
}

/// cd into `base`, delete each name there, then return to the previous
/// directory, or to `base` when that is gone.
pub open spec fn spec_script_delete(base: Seq<char>, names: Seq<Seq<char>>) -> Seq<Seq<char>> {
    seq![quoted_cmd("cd "@, base)] + delete_items(names) + seq![
        "cd \"$OLDPWD\" 2>/dev/null || cd "@ + quoted(base),
    ]
}

/// Build commands for deleting the directories `basenames` inside `base`.
pub fn script_delete(base: &str, basenames: &Vec<String>) -> (cmds: Vec<String>)
    ensures
        cmds.deep_view() == spec_script_delete(base@, basenames.deep_view()),
{
    let mut cmds = vec![quoted_command("cd ", base)];
    let mut i: usize = 0;
    while i < basenames.len()
        invariant
            i <= basenames@.len(),
            cmds.deep_view() == seq![quoted_cmd("cd "@, base@)] + delete_items(
                basenames.deep_view().take(i as int),
            ),
        decreases basenames@.len() - i,
    {
        let q = quote_path(basenames[i].as_str());
        let mut item = owned("test -d ");
        push_str(&mut item, q.as_str());
        push_str(&mut item, " && rm -rf ");
        push_str(&mut item, q.as_str());
        let ghost before = cmds.deep_view();
        cmds.push(item);
        proof {
            let names = basenames.deep_view();
            assert(names.take(i + 1).drop_last() =~= names.take(i as int));
            assert(names.take(i + 1).last() == basenames@[i as int]@);
            assert(cmds.deep_view() =~= before.push(item@));
            assert(cmds.deep_view() =~= seq![quoted_cmd("cd "@, base@)] + delete_items(
                names.take(i + 1),
            ));
        }
        i = i + 1;
    }
    let mut restore = owned("cd \"$OLDPWD\" 2>/dev/null || cd ");
    push_str(&mut restore, quote_path(base).as_str());
    let ghost before = cmds.deep_view();
    cmds.push(restore);
    proof {
        assert(basenames.deep_view().take(i as int) =~= basenames.deep_view());
        assert(cmds.deep_view() =~= before.push(restore@));
        assert(cmds.deep_view() =~= spec_script_delete(base@, basenames.deep_view()));
    }
    cmds
}

} // verus!
