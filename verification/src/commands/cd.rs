//! The selector path: the initial query, and the script for an outcome.

use vstd::prelude::*;
use crate::script::{
    script_cd, script_delete, script_mkdir_cd, script_mkdir_init_cd, script_worktree,
    quoted_cmd, spec_script_cd, spec_script_delete, spec_script_mkdir_cd, spec_script_mkdir_init_cd,
    spec_script_worktree, spec_worktree_cmd,
};
use crate::sys::{probe_path, Probe};
use crate::text::{join_path, join_spaces, join_with_spaces, joined, owned};
use crate::tui::TuiOutcome;

verus! {

/// The selector's initial query: the `--and-type` text, else the arguments
/// joined with spaces.
pub fn initial_input(args: &[String], and_type: Option<&str>) -> (r: String)
    ensures
        r@ == match and_type {
            Some(t) => t@,
            None => join_spaces(args.deep_view()),
        },
{
    match and_type {
        Some(t) => owned(t),
        None => join_with_spaces(args),
    }
}

/// The script that creates a selected new lab at `path`: a worktree of the
/// labs directory when it is a git repository, else a new directory made a
/// git repository of its own.
pub open spec fn spec_create_commands(path: Seq<char>, labs_path: Seq<char>, labs_is_repo: bool) -> Seq<Seq<char>> {
    if labs_is_repo {
        spec_script_worktree(path, Some(labs_path), labs_path)
    } else {
        spec_script_mkdir_init_cd(path)
    }
}

/// The script that creates a new lab at `path`, given whether the labs
/// directory is a git repository.
pub fn create_commands_for(path: &str, labs_path: &str, labs_is_repo: bool) -> (cmds: Vec<String>)
    ensures
        cmds.deep_view() == spec_create_commands(path@, labs_path@, labs_is_repo),
{
    if labs_is_repo {
        script_worktree(path, Some(labs_path), labs_path)
    } else {
        script_mkdir_init_cd(path)
    }
}

/// `cmds` creates a new lab at `path`, decided by `probe`: the look for
/// `.git` in the labs directory `labs_path`.
pub open spec fn created_with(path: Seq<char>, labs_path: Seq<char>, probe: Probe, cmds: Seq<Seq<char>>) -> bool {
    &&& probe.path() == joined(labs_path, ".git"@)
    &&& cmds == spec_create_commands(path, labs_path, probe.found())
}

/// `cmds` creates a new lab at `path` as decided by some look for `.git` in
/// the labs directory `labs_path`.
pub open spec fn created_outcome(path: Seq<char>, labs_path: Seq<char>, cmds: Seq<Seq<char>>) -> bool {
    exists|probe: Probe| #[trigger] created_with(path, labs_path, probe, cmds)
}

/// The script that creates a new lab at `path`; the labs directory counts as
/// a git repository when it holds a `.git` entry.
pub fn create_commands(path: &str, labs_path: &str) -> (cmds: Vec<String>)
    ensures
        exists|repo: bool| cmds.deep_view() == spec_create_commands(path@, labs_path@, repo),
        exists|probe: Probe| #[trigger] created_with(path@, labs_path@, probe, cmds.deep_view()),
{
    let git = join_path(labs_path, ".git");
    let probe = probe_path(git.as_str());
    let cmds = create_commands_for(path, labs_path, probe.is_found());
    proof {
        assert(created_with(path@, labs_path@, probe, cmds.deep_view()));
    }
    cmds
}

/// A lab created from the selector's "create new" row is a git worktree of
/// the labs repository exactly when `.git` was found in the labs directory
/// (not in the new lab): then the script makes the directory and adds it
/// as a detached worktree of the labs repository. Otherwise it makes the
/// directory and runs `git init` in it, adding no worktree.
pub proof fn law_create_uses_labs_repository(path: Seq<char>, labs_path: Seq<char>, probe: Probe, cmds: Seq<Seq<char>>)
    requires
        created_with(path, labs_path, probe, cmds),
    ensures
        probe.path() == joined(labs_path, ".git"@),
        probe.found() ==> {
            &&& cmds.len() == 6
            &&& cmds[0] == quoted_cmd("mkdir -p "@, path)
            &&& cmds[2] == spec_worktree_cmd(path, Some(labs_path))
        },
        !probe.found() ==> {
            &&& cmds.len() == 5
            &&& cmds[0] == quoted_cmd("mkdir -p "@, path)
            &&& cmds[1] == quoted_cmd("git init -q "@, path)
        },
{
}

/// The script for a selector outcome: cd into a selected lab, create a new
/// one, or delete the marked ones; nothing for a cancelled selector, and
/// nothing for rename and graduate, which produce no script.
pub fn commands_for_outcome(outcome: &TuiOutcome, labs_path: &str) -> (r: Option<Vec<String>>)
    ensures
        match outcome {
            TuiOutcome::Selected(p) => r matches Some(c) && c.deep_view() == spec_script_cd(p@),
            TuiOutcome::Create(p) => r matches Some(c) && (exists|repo: bool|
                c.deep_view() == spec_create_commands(p@, labs_path@, repo)) && created_outcome(
                p@,
                labs_path@,
                c.deep_view(),
            ),
            TuiOutcome::Mkdir(p) => r matches Some(c) && c.deep_view() == spec_script_mkdir_cd(p@),
            TuiOutcome::Delete(sel) => r matches Some(c) && c.deep_view() == spec_script_delete(
                sel.base_path@,
                sel.basenames.deep_view(),
            ),
            TuiOutcome::Rename(_) => r is None,
            TuiOutcome::Graduate(_) => r is None,
            TuiOutcome::Cancelled => r is None,
        },
{
    match outcome {
        TuiOutcome::Selected(path) => Some(script_cd(path.as_str())),
        TuiOutcome::Create(path) => {
            let c = create_commands(path.as_str(), labs_path);
            proof {
                assert(created_outcome(path@, labs_path@, c.deep_view()));
                let repo = choose|repo: bool| c.deep_view() == spec_create_commands(path@, labs_path@, repo);
                assert(c.deep_view() == spec_create_commands(path@, labs_path@, repo));
            }
            Some(c)
        },
        TuiOutcome::Mkdir(path) => Some(script_mkdir_cd(path.as_str())),
        TuiOutcome::Delete(selection) => Some(
            script_delete(selection.base_path.as_str(), &selection.basenames),
        ),
        TuiOutcome::Rename(_) => None,
        TuiOutcome::Graduate(_) => None,
        TuiOutcome::Cancelled => None,
    }
}

} // verus!
