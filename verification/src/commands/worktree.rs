//! `lab worktree <name>` and `lab . <name>`: a dated lab made as a git
//! worktree of a repository, or as a plain directory outside git.

use vstd::prelude::*;
use crate::line_edit::{is_space, is_whitespace_char};
use crate::script::{
    quoted_cmd, script_mkdir_cd, script_worktree, spec_script_mkdir_cd, spec_script_worktree,
    spec_worktree_cmd,
};
use crate::sys::{canonical_path, file_name, file_name_of, probe_path, Probe};
use crate::text::{
    chars_of, join_path, join_spaces, join_with_spaces, joined, owned, string_of,
    trim_text, trimmed,
};
use crate::util::{dated, dated_name, resolve_unique_name, spec_unique_name};

verus! {

/// `s` with every whitespace character replaced by a dash.
pub open spec fn dashed(s: Seq<char>) -> Seq<char>
    decreases s.len(),
{
    if s.len() == 0 {
        Seq::empty()
    } else {
        dashed(s.drop_last()).push(if is_space(s.last()) {
            '-'
        } else {
            s.last()
        })
    }
}

/// Replaces every whitespace character with a dash.
pub fn replace_whitespace(s: &str) -> (r: String)
    ensures
        r@ == dashed(s@),
{
    let v = chars_of(s);
    let mut out: Vec<char> = Vec::new();
    let mut i: usize = 0;
    while i < v.len()
        invariant
            i <= v@.len(),
            v@ == s@,
            out@ == dashed(s@.take(i as int)),
        decreases v@.len() - i,
    {
        let c = v[i];
        out.push(if is_whitespace_char(c) {
            '-'
        } else {
            c
        });
        proof {
            assert(s@.take(i + 1).drop_last() =~= s@.take(i as int));
        }
        i = i + 1;
    }
    proof {
        assert(s@.take(i as int) =~= s@);
    }
    string_of(out.as_slice())
}

/// The last component of `path`, or `lab` when it has none.
pub open spec fn name_or_lab(path: Seq<char>) -> Seq<char> {
    match file_name_of(path) {
        Some(n) => n,
        None => "lab"@,
    }
}

/// The basename of a directory: that of its canonical path `canon` when it
/// could be resolved and has one, else that of `path`, else `lab`.
pub open spec fn basename_given(canon: Option<Seq<char>>, path: Seq<char>) -> Seq<char> {
    match canon {
        Some(r) => match file_name_of(r) {
            Some(n) => n,
            None => name_or_lab(path),
        },
        None => name_or_lab(path),
    }
}

fn name_or_lab_of(path: &str) -> (r: String)
    ensures
        r@ == name_or_lab(path@),
{
    proof {
        reveal_strlit("lab");
    }
    match file_name(path) {
        Some(n) => n,
        None => owned("lab"),
    }
}

/// The basename of a directory, resolved to its canonical path first if possible.
pub fn basename_from_path(path: &str) -> (r: String)
    ensures
        exists|canon: Option<Seq<char>>| r@ == basename_given(canon, path@),
{
    match canonical_path(path) {
        Some(canon) => {
            let r = match file_name(canon.as_str()) {
                Some(n) => n,
                None => name_or_lab_of(path),
            };
            proof {
                assert(r@ == basename_given(Some(canon@), path@));
            }
            r
        },
        None => {
            let r = name_or_lab_of(path);
            proof {
                assert(r@ == basename_given(None, path@));
            }
            r
        },
    }
}

/// The base name of a new lab: the custom name, trimmed and dashed, when
/// it is not blank; else the repository's basename.
pub open spec fn worktree_base(custom_name: Option<Seq<char>>, basename: Seq<char>) -> Seq<char> {
    if custom_name matches Some(n) && trimmed(n).len() > 0 {
        dashed(trimmed(custom_name.unwrap()))
    } else {
        basename
    }
}

/// `p` is the path `worktree_path` gives for these arguments, for some
/// canonical form `canon` of the repository directory (which matters only
/// when no custom name is given).
pub open spec fn worktree_target(
    labs_path: Seq<char>,
    repo_dir: Seq<char>,
    custom_name: Option<Seq<char>>,
    today: Seq<char>,
    existing: Seq<Seq<char>>,
    p: Seq<char>,
) -> bool {
    exists|canon: Option<Seq<char>>|
        #![trigger basename_given(canon, repo_dir)]
        p == worktree_dest(labs_path, worktree_base(custom_name, basename_given(canon, repo_dir)), today, existing)
}

/// The dated path inside `labs_path` of a new lab for `base`, its name
/// made unique among `existing`.
pub open spec fn worktree_dest(labs_path: Seq<char>, base: Seq<char>, today: Seq<char>, existing: Seq<Seq<char>>) -> Seq<char> {
    joined(labs_path, dated(today, spec_unique_name(existing, today, base)))
}

/// The characters of an optional string slice.
pub open spec fn view_of(o: Option<&str>) -> Option<Seq<char>> {
    match o {
        Some(s) => Some(s@),
        None => None,
    }
}

/// Whether `custom_name` is a name that is not blank.
pub open spec fn names_lab(custom_name: Option<Seq<char>>) -> bool {
    custom_name matches Some(n) && trimmed(n).len() > 0
}

fn has_name(custom_name: Option<&str>) -> (r: bool)
    ensures
        r == names_lab(view_of(custom_name)),
{
    match custom_name {
        Some(name) => {
            let t = trim_text(name);
            chars_of(t.as_str()).len() > 0
        },
        None => false,
    }
}

/// The dated path of a new lab inside `labs_path`, named after
/// `custom_name` when it is not blank, else after `repo_basename`, its name
/// free of collisions with the names `existing`; `today` is the local
/// date (`YYYY-MM-DD`).
pub fn dest_for(
    labs_path: &str,
    custom_name: Option<&str>,
    repo_basename: &str,
    today: &str,
    existing: &Vec<String>,
) -> (r: String)
    ensures
        r@ == worktree_dest(
            labs_path@,
            worktree_base(view_of(custom_name), repo_basename@),
            today@,
            existing.deep_view(),
        ),
{
    let base = if has_name(custom_name) {
        let t = trim_text(custom_name.unwrap());
        replace_whitespace(t.as_str())
    } else {
        owned(repo_basename)
    };
    let resolved = resolve_unique_name(existing, today, base.as_str());
    join_path(labs_path, dated_name(today, resolved.as_str()).as_str())
}

/// The basename of `repo_dir`, looked up only when `custom_name` does not
/// name the lab (else empty: it is not used).
fn basename_if_needed(repo_dir: &str, custom_name: Option<&str>) -> (r: String)
    ensures
        !names_lab(view_of(custom_name)) ==> exists|canon: Option<Seq<char>>|
            r@ == #[trigger] basename_given(canon, repo_dir@),
{
    if has_name(custom_name) {
        String::new()
    } else {
        basename_from_path(repo_dir)
    }
}

/// The dated path of a new lab inside `labs_path`, its name free of
/// collisions with the names `existing` in the labs directory; `today` is
/// the local date (`YYYY-MM-DD`).
pub fn worktree_path(
    labs_path: &str,
    repo_dir: &str,
    custom_name: Option<&str>,
    today: &str,
    existing: &Vec<String>,
) -> (r: String)
    ensures
        worktree_target(labs_path@, repo_dir@, view_of(custom_name), today@, existing.deep_view(), r@),
        custom_name matches Some(n) ==> (trimmed(n@).len() > 0 ==> r@ == worktree_dest(
            labs_path@,
            dashed(trimmed(n@)),
            today@,
            existing.deep_view(),
        )),
{
    let basename = basename_if_needed(repo_dir, custom_name);
    let r = dest_for(labs_path, custom_name, basename.as_str(), today, existing);
    proof {
        if names_lab(view_of(custom_name)) {
            assert(worktree_base(view_of(custom_name), basename@) == worktree_base(
                view_of(custom_name),
                basename_given(None, repo_dir@),
            ));
        } else {
            let canon = choose|canon: Option<Seq<char>>| basename@ == basename_given(canon, repo_dir@);
            assert(r@ == worktree_dest(
                labs_path@,
                worktree_base(view_of(custom_name), basename_given(canon, repo_dir@)),
                today@,
                existing.deep_view(),
            ));
        }
    }
    r
}

/// The repository directory `lab worktree` works from: the working
/// directory, or `.` when it could not be read.
pub open spec fn here_or_dot(cwd: Option<Seq<char>>) -> Seq<char> {
    match cwd {
        Some(c) => c,
        None => seq!['.'],
    }
}

/// The script `lab worktree` emits for the lab at `target`: a worktree of
/// the working directory when it holds `.git`, else a plain directory. The
/// worktree command names its repository only when the working directory
/// could not be read.
pub open spec fn worktree_script(cwd: Option<Seq<char>>, target: Seq<char>, is_repo: bool) -> Seq<Seq<char>> {
    if is_repo {
        match cwd {
            Some(c) => spec_script_worktree(target, None, c),
            None => spec_script_worktree(target, Some(seq!['.']), seq!['.']),
        }
    } else {
        spec_script_mkdir_cd(target)
    }
}

/// The name given to `lab worktree`: its arguments joined with spaces, or
/// none when there are none.
pub open spec fn custom_for(args: Seq<Seq<char>>) -> Option<Seq<char>> {
    if args.len() > 0 {
        Some(join_spaces(args))
    } else {
        None
    }
}

/// The script for `lab worktree [name...]`, given what was read around it:
/// the working directory `cwd` when it could be read, the local date
/// `today`, the names `existing` in the labs directory, the basename of
/// the working directory `repo_basename` (used when no name is given), and
/// whether the working directory holds `.git`. A repository gets a
/// worktree of itself; anything else gets a plain directory.
pub fn worktree_commands_for(
    args: &[String],
    labs_path: &str,
    cwd: Option<&str>,
    today: &str,
    existing: &Vec<String>,
    repo_basename: &str,
    is_repo: bool,
) -> (cmds: Vec<String>)
    ensures
        cmds.deep_view() == worktree_script(
            view_of(cwd),
            worktree_dest(
                labs_path@,
                worktree_base(custom_for(args.deep_view()), repo_basename@),
                today@,
                existing.deep_view(),
            ),
            is_repo,
        ),
{
    proof {
        reveal_strlit(".");
        assert("."@ =~= seq!['.']);
    }
    let custom: Option<String> = if args.len() > 0 {
        Some(join_with_spaces(args))
    } else {
        None
    };
    let custom_ref: Option<&str> = match &custom {
        Some(c) => Some(c.as_str()),
        None => None,
    };
    proof {
        assert(view_of(custom_ref) == custom_for(args.deep_view()));
    }
    let full_path = dest_for(labs_path, custom_ref, repo_basename, today, existing);
    let cmds = if is_repo {
        match cwd {
            Some(c) => script_worktree(full_path.as_str(), None, c),
            None => script_worktree(full_path.as_str(), Some("."), "."),
        }
    } else {
        script_mkdir_cd(full_path.as_str())
    };
    proof {
        assert(cmds.deep_view() == worktree_script(view_of(cwd), full_path@, is_repo));
    }
    cmds
}

/// `cmds` is the `lab worktree` script for the lab at `target`, decided by
/// `probe`: the look for `.git` in the working directory.
pub open spec fn worktree_made(cwd: Option<Seq<char>>, target: Seq<char>, probe: Probe, cmds: Seq<Seq<char>>) -> bool {
    &&& probe.path() == joined(here_or_dot(cwd), ".git"@)
    &&& cmds == worktree_script(cwd, target, probe.found())
}

/// `cmds` is what `lab worktree` with `args` gives, for some canonical
/// form of the working directory and some look for its `.git`.
pub open spec fn worktree_outcome(
    args: Seq<Seq<char>>,
    labs_path: Seq<char>,
    cwd: Option<Seq<char>>,
    today: Seq<char>,
    existing: Seq<Seq<char>>,
    cmds: Seq<Seq<char>>,
) -> bool {
    exists|canon: Option<Seq<char>>, probe: Probe|
        #[trigger] worktree_made(
            cwd,
            worktree_dest(labs_path, worktree_base(custom_for(args), basename_given(canon, here_or_dot(cwd))), today, existing),
            probe,
            cmds,
        )
}

/// `lab worktree` makes a worktree of the working directory exactly when
/// `.git` was found in the working directory: then the script makes the
/// lab's directory and adds it as a detached worktree of the repository
/// the working directory is in. Otherwise it only makes the directory and
/// changes into it.
pub proof fn law_worktree_uses_working_directory(cwd: Option<Seq<char>>, target: Seq<char>, probe: Probe, cmds: Seq<Seq<char>>)
    requires
        worktree_made(cwd, target, probe, cmds),
    ensures
        probe.path() == joined(here_or_dot(cwd), ".git"@),
        probe.found() ==> {
            &&& cmds.len() == 6
            &&& cmds[0] == quoted_cmd("mkdir -p "@, target)
            &&& cmds[2] == spec_worktree_cmd(target, if cwd is Some { None } else { Some(seq!['.']) })
        },
        !probe.found() ==> {
            &&& cmds.len() == 4
            &&& cmds[0] == quoted_cmd("mkdir -p "@, target)
            &&& cmds[1] == quoted_cmd("touch "@, target)
        },
{
}

/// The script for `lab worktree [name...]`: a dated lab named after the
/// name (or the working directory) made as a worktree of the working
/// directory when it holds `.git`, else a plain directory. `cwd` is the
/// working directory when it could be read, `today` the local date, and
/// `existing` the names in the labs directory. The basename of the working
/// directory and whether it holds `.git` are read here;
/// `worktree_commands_for` says what follows from them.
pub fn worktree_commands(
    args: &[String],
    labs_path: &str,
    cwd: Option<&str>,
    today: &str,
    existing: &Vec<String>,
) -> (cmds: Vec<String>)
    ensures
        exists|canon: Option<Seq<char>>, is_repo: bool|
            #![trigger basename_given(canon, here_or_dot(view_of(cwd))), worktree_script(view_of(cwd), worktree_dest(labs_path@, worktree_base(custom_for(args.deep_view()), basename_given(canon, here_or_dot(view_of(cwd)))), today@, existing.deep_view()), is_repo)]
            cmds.deep_view() == worktree_script(
                view_of(cwd),
                worktree_dest(
                    labs_path@,
                    worktree_base(
                        custom_for(args.deep_view()),
                        basename_given(canon, here_or_dot(view_of(cwd))),
                    ),
                    today@,
                    existing.deep_view(),
                ),
                is_repo,
            ),
        worktree_outcome(args.deep_view(), labs_path@, view_of(cwd), today@, existing.deep_view(), cmds.deep_view()),
{
    proof {
        reveal_strlit(".");
        assert("."@ =~= seq!['.']);
    }
    let repo_dir: String = match cwd {
        Some(c) => owned(c),
        None => owned("."),
    };
    let named = args.len() > 0 && has_name(Some(join_with_spaces(args).as_str()));
    let basename = if named {
        String::new()
    } else {
        basename_from_path(repo_dir.as_str())
    };
    let git = join_path(repo_dir.as_str(), ".git");
    let probe = probe_path(git.as_str());
    let is_repo = probe.is_found();
    let cmds = worktree_commands_for(args, labs_path, cwd, today, existing, basename.as_str(), is_repo);
    proof {
        assert(repo_dir@ == here_or_dot(view_of(cwd)));
        let canon = if named {
            None
        } else {
            choose|canon: Option<Seq<char>>| basename@ == basename_given(canon, repo_dir@)
        };
        if named {
            assert(worktree_base(custom_for(args.deep_view()), basename@) == worktree_base(
                custom_for(args.deep_view()),
                basename_given(None, repo_dir@),
            ));
        } else {
            assert(basename@ == basename_given(canon, here_or_dot(view_of(cwd))));
        }
        let target = worktree_dest(
            labs_path@,
            worktree_base(custom_for(args.deep_view()), basename_given(canon, here_or_dot(view_of(cwd)))),
            today@,
            existing.deep_view(),
        );
        assert(worktree_made(view_of(cwd), target, probe, cmds.deep_view()));
    }
    cmds
}


/// The directory `lab .` works from: for `.`, the working directory (or
/// `.`); otherwise the argument joined onto the working directory and
/// resolved to `canon` when that worked; the bare argument when the working
/// directory is unknown.
pub open spec fn dot_dir_given(dot_arg: Seq<char>, cwd: Option<Seq<char>>, canon: Option<Seq<char>>) -> Seq<char> {
    if dot_arg == seq!['.'] {
        match cwd {
            Some(c) => c,
            None => seq!['.'],
        }
    } else {
        match cwd {
            Some(c) => match canon {
                Some(p) => p,
                None => joined(c, dot_arg),
            },
            None => dot_arg,
        }
    }
}

/// Resolves the argument of `lab .` to a directory.
pub fn resolve_dot_path(dot_arg: &str, cwd: Option<&str>) -> (r: String)
    ensures
        exists|canon: Option<Seq<char>>| r@ == dot_dir_given(dot_arg@, view_of(cwd), canon),
{
    proof {
        reveal_strlit(".");
        assert("."@ =~= seq!['.']);
    }
    if owned(dot_arg) == owned(".") {
        let r = match cwd {
            Some(c) => owned(c),
            None => owned("."),
        };
        proof {
            assert(r@ == dot_dir_given(dot_arg@, view_of(cwd), None));
        }
        return r;
    }
    match cwd {
        Some(c) => {
            let joined_path = join_path(c, dot_arg);
            match canonical_path(joined_path.as_str()) {
                Some(p) => {
                    proof {
                        assert(p@ == dot_dir_given(dot_arg@, view_of(cwd), Some(p@)));
                    }
                    p
                },
                None => {
                    proof {
                        assert(joined_path@ == dot_dir_given(dot_arg@, view_of(cwd), None));
                    }
                    joined_path
                },
            }
        },
        None => {
            let r = owned(dot_arg);
            proof {
                assert(r@ == dot_dir_given(dot_arg@, view_of(cwd), None));
            }
            r
        },
    }
}

/// The script of `lab .` for the lab at `target`: a worktree of
/// `repo_dir` when it is a repository, else a plain directory.
pub open spec fn dot_script(repo_dir: Seq<char>, target: Seq<char>, is_repo: bool) -> Seq<Seq<char>> {
    if is_repo {
        spec_script_worktree(target, Some(repo_dir), repo_dir)
    } else {
        spec_script_mkdir_cd(target)
    }
}

/// Why `lab .` cannot go ahead.
#[derive(Debug, Clone, Copy, PartialEq, Eq, Structural)]
pub enum DotError {
    /// A bare `lab .` needs a name.
    MissingName,
}

/// `cmds` is the `lab .` script for the lab at `target` made from the
/// directory `dir`, decided by `probe`: the look for `.git` in `dir`.
pub open spec fn dot_made(dir: Seq<char>, target: Seq<char>, probe: Probe, cmds: Seq<Seq<char>>) -> bool {
    &&& probe.path() == joined(dir, ".git"@)
    &&& cmds == dot_script(dir, target, probe.found())
}

/// `cmds` is what `lab <dot_arg> <rest...>` gives, for some canonical form
/// of the source directory and some look for its `.git`.
pub open spec fn dot_outcome(
    dot_arg: Seq<char>,
    rest: Seq<Seq<char>>,
    labs_path: Seq<char>,
    cwd: Option<Seq<char>>,
    today: Seq<char>,
    existing: Seq<Seq<char>>,
    cmds: Seq<Seq<char>>,
) -> bool {
    exists|canon: Option<Seq<char>>, target: Seq<char>, probe: Probe|
        #![trigger dot_made(dot_dir_given(dot_arg, cwd, canon), target, probe, cmds)]
        {
            &&& worktree_target(labs_path, dot_dir_given(dot_arg, cwd, canon), Some(join_spaces(rest)), today, existing, target)
            &&& dot_made(dot_dir_given(dot_arg, cwd, canon), target, probe, cmds)
        }
}

/// `lab . <name>` makes a worktree of its source directory exactly when
/// `.git` was found in that directory (not in the labs directory): then
/// the script makes the lab's directory and adds it as a detached worktree
/// of the repository `dir` is in. Otherwise it only makes the directory
/// and changes into it.
pub proof fn law_dot_uses_source_directory(dir: Seq<char>, target: Seq<char>, probe: Probe, cmds: Seq<Seq<char>>)
    requires
        dot_made(dir, target, probe, cmds),
    ensures
        probe.path() == joined(dir, ".git"@),
        probe.found() ==> {
            &&& cmds.len() == 6
            &&& cmds[0] == quoted_cmd("mkdir -p "@, target)
            &&& cmds[2] == spec_worktree_cmd(target, Some(dir))
        },
        !probe.found() ==> {
            &&& cmds.len() == 4
            &&& cmds[0] == quoted_cmd("mkdir -p "@, target)
            &&& cmds[1] == quoted_cmd("touch "@, target)
        },
{
}

/// The script for `lab <dot-path> [name...]`, given what was read around
/// it: the directory `repo_dir` the argument resolved to, its basename
/// `repo_basename` (used when no name is given), and whether it holds
/// `.git`. A bare `.` without a name is an error; otherwise a dated lab
/// (`today` is the local date) named after the name (or the directory),
/// unique among the names `existing`, made as a worktree of `repo_dir`
/// when it is a repository, else a plain directory.
pub fn dot_commands_for(
    dot_arg: &str,
    rest_args: &[String],
    labs_path: &str,
    today: &str,
    existing: &Vec<String>,
    repo_dir: &str,
    repo_basename: &str,
    is_repo: bool,
) -> (r: Result<Vec<String>, DotError>)
    ensures
        (dot_arg@ == seq!['.'] && trimmed(join_spaces(rest_args.deep_view())).len() == 0) ==> r
            == Err::<Vec<String>, DotError>(DotError::MissingName),
        !(dot_arg@ == seq!['.'] && trimmed(join_spaces(rest_args.deep_view())).len() == 0) ==> (
        r matches Ok(cmds) && cmds.deep_view() == dot_script(
            repo_dir@,
            worktree_dest(
                labs_path@,
                worktree_base(Some(join_spaces(rest_args.deep_view())), repo_basename@),
                today@,
                existing.deep_view(),
            ),
            is_repo,
        )),
{
    proof {
        reveal_strlit(".");
        assert("."@ =~= seq!['.']);
    }
    let custom = join_with_spaces(rest_args);
    let t = trim_text(custom.as_str());
    if owned(dot_arg) == owned(".") && chars_of(t.as_str()).len() == 0 {
        return Err(DotError::MissingName);
    }
    let full_path = dest_for(labs_path, Some(custom.as_str()), repo_basename, today, existing);
    let cmds = if is_repo {
        script_worktree(full_path.as_str(), Some(repo_dir), repo_dir)
    } else {
        script_mkdir_cd(full_path.as_str())
    };
    proof {
        assert(cmds.deep_view() == dot_script(repo_dir@, full_path@, is_repo));
    }
    Ok(cmds)
}

/// The script for `lab <dot-path> [name...]`: a bare `.` without a name is
/// an error; otherwise a dated lab (`today` is the local date) named after
/// the name (or the directory), unique among the names `existing` in the
/// labs directory, made as a worktree of the directory when it holds
/// `.git`, else a plain directory.
pub fn dot_commands(
    dot_arg: &str,
    rest_args: &[String],
    labs_path: &str,
    cwd: Option<&str>,
    today: &str,
    existing: &Vec<String>,
) -> (r: Result<Vec<String>, DotError>)
    ensures
        (dot_arg@ == seq!['.'] && trimmed(join_spaces(rest_args.deep_view())).len() == 0) ==> r
            == Err::<Vec<String>, DotError>(DotError::MissingName),
        !(dot_arg@ == seq!['.'] && trimmed(join_spaces(rest_args.deep_view())).len() == 0) ==> (
        r matches Ok(cmds) && exists|canon: Option<Seq<char>>, target: Seq<char>, is_repo: bool|
            #![trigger dot_script(dot_dir_given(dot_arg@, view_of(cwd), canon), target, is_repo)]
            {
                &&& worktree_target(
                    labs_path@,
                    dot_dir_given(dot_arg@, view_of(cwd), canon),
                    Some(join_spaces(rest_args.deep_view())),
                    today@,
                    existing.deep_view(),
                    target,
                )
                &&& cmds.deep_view() == dot_script(
                    dot_dir_given(dot_arg@, view_of(cwd), canon),
                    target,
                    is_repo,
                )
            }),
        trimmed(join_spaces(rest_args.deep_view())).len() > 0 ==> (r matches Ok(cmds) && exists|
            canon: Option<Seq<char>>,
            is_repo: bool,
        |
            #![trigger dot_dir_given(dot_arg@, view_of(cwd), canon), dot_script(dot_dir_given(dot_arg@, view_of(cwd), canon), worktree_dest(labs_path@, dashed(trimmed(join_spaces(rest_args.deep_view()))), today@, existing.deep_view()), is_repo)]
            cmds.deep_view() == dot_script(
                dot_dir_given(dot_arg@, view_of(cwd), canon),
                worktree_dest(
                    labs_path@,
                    dashed(trimmed(join_spaces(rest_args.deep_view()))),
                    today@,
                    existing.deep_view(),
                ),
                is_repo,
            )),
        !(dot_arg@ == seq!['.'] && trimmed(join_spaces(rest_args.deep_view())).len() == 0) ==> (
        r matches Ok(cmds) && dot_outcome(
            dot_arg@,
            rest_args.deep_view(),
            labs_path@,
            view_of(cwd),
            today@,
            existing.deep_view(),
            cmds.deep_view(),
        )),
{
    proof {
        reveal_strlit(".");
        assert("."@ =~= seq!['.']);
    }
    let custom = join_with_spaces(rest_args);
    let t = trim_text(custom.as_str());
    if owned(dot_arg) == owned(".") && chars_of(t.as_str()).len() == 0 {
        return Err(DotError::MissingName);
    }
    let repo_dir = resolve_dot_path(dot_arg, cwd);
    let ghost canon = choose|canon: Option<Seq<char>>| repo_dir@ == dot_dir_given(dot_arg@, view_of(cwd), canon);
    let basename = basename_if_needed(repo_dir.as_str(), Some(custom.as_str()));
    let git = join_path(repo_dir.as_str(), ".git");
    let probe = probe_path(git.as_str());
    let is_repo = probe.is_found();
    let r = dot_commands_for(
        dot_arg,
        rest_args,
        labs_path,
        today,
        existing,
        repo_dir.as_str(),
        basename.as_str(),
        is_repo,
    );
    proof {
        let e = existing.deep_view();
        let target = worktree_dest(labs_path@, worktree_base(Some(custom@), basename@), today@, e);
        if names_lab(Some(custom@)) {
            assert(worktree_base(Some(custom@), basename@) == worktree_base(
                Some(custom@),
                basename_given(None, repo_dir@),
            ));
        } else {
            let c2 = choose|c: Option<Seq<char>>| basename@ == basename_given(c, repo_dir@);
            assert(worktree_base(Some(custom@), basename@) == worktree_base(
                Some(custom@),
                basename_given(c2, repo_dir@),
            ));
        }
        assert(worktree_target(labs_path@, repo_dir@, Some(custom@), today@, e, target));
        if r is Ok {
            let cmds = r->Ok_0;
            assert(dot_made(repo_dir@, target, probe, cmds.deep_view()));
            assert(worktree_target(labs_path@, dot_dir_given(dot_arg@, view_of(cwd), canon), Some(join_spaces(rest_args.deep_view())), today@, e, target));
        }
    }
    r
}

} // verus!
