//! Which command `lab exec` (and a bare `lab`) runs for its arguments.

use vstd::prelude::*;
use crate::git::{is_git_uri, spec_is_git_uri};
use crate::text::{chars_of, owned, slice_strings};

verus! {

/// Where `lab exec` goes.
#[derive(Debug, Clone, PartialEq, Eq)]
pub enum ExecRoute {
    /// Clone a repository.
    Clone {
        /// The URI to clone, if given.
        uri: Option<String>,
        /// The custom lab name, if given.
        custom_name: Option<String>,
    },
    /// Make a worktree, with these arguments.
    Worktree(Vec<String>),
    /// Run the selector, with these arguments as the query.
    Selector(Vec<String>),
    /// The dot shorthand: the dot path and the name words.
    Dot {
        /// The `.`-path argument.
        dot_arg: String,
        /// The arguments after it.
        rest: Vec<String>,
    },
}

/// A route as plain values.
pub enum RouteModel {
    /// Clone `uri`, naming the lab `name`.
    Clone(Option<Seq<char>>, Option<Seq<char>>),
    /// Worktree with these arguments.
    Worktree(Seq<Seq<char>>),
    /// Selector with these arguments.
    Selector(Seq<Seq<char>>),
    /// Dot shorthand with this path and these words.
    Dot(Seq<char>, Seq<Seq<char>>),
}

/// The element at `i`, if any.
pub open spec fn nth(a: Seq<Seq<char>>, i: int) -> Option<Seq<char>> {
    if 0 <= i < a.len() {
        Some(a[i])
    } else {
        None
    }
}

/// A route as plain values.
pub open spec fn route_view(r: ExecRoute) -> RouteModel {
    match r {
        ExecRoute::Clone { uri, custom_name } => RouteModel::Clone(
            match uri {
                Some(u) => Some(u@),
                None => None,
            },
            match custom_name {
                Some(n) => Some(n@),
                None => None,
            },
        ),
        ExecRoute::Worktree(v) => RouteModel::Worktree(v.deep_view()),
        ExecRoute::Selector(v) => RouteModel::Selector(v.deep_view()),
        ExecRoute::Dot { dot_arg, rest } => RouteModel::Dot(dot_arg@, rest.deep_view()),
    }
}

/// Where `lab exec` goes: `clone`, `worktree` and `cd` subcommands; `cd`
/// followed by a git URI clones it; a first argument starting with `.` is
/// the dot shorthand; a git URI clones; anything else is a selector query.
pub open spec fn spec_route(a: Seq<Seq<char>>) -> RouteModel {
    if a.len() > 0 && a[0] == "clone"@ {
        RouteModel::Clone(nth(a, 1), nth(a, 2))
    } else if a.len() > 0 && a[0] == "worktree"@ {
        RouteModel::Worktree(a.skip(1))
    } else if a.len() > 0 && a[0] == "cd"@ {
        if a.len() > 1 && spec_is_git_uri(a[1]) {
            RouteModel::Clone(nth(a, 1), nth(a, 2))
        } else {
            RouteModel::Selector(a.skip(1))
        }
    } else if a.len() > 0 && a[0].len() > 0 && a[0][0] == '.' {
        RouteModel::Dot(a[0], a.skip(1))
    } else if a.len() > 0 && spec_is_git_uri(a[0]) {
        RouteModel::Clone(nth(a, 0), nth(a, 1))
    } else {
        RouteModel::Selector(a)
    }
}

fn nth_string(a: &[String], i: usize) -> (r: Option<String>)
    ensures
        match r {
            Some(s) => nth(a.deep_view(), i as int) == Some(s@),
            None => nth(a.deep_view(), i as int) is None,
        },
{
    if i < a.len() {
        Some(a[i].clone())
    } else {
        None
    }
}

/// Decide where `lab exec` goes for its arguments.
pub fn dispatch_exec(args: &[String]) -> (r: ExecRoute)
    ensures
        route_view(r) == spec_route(args.deep_view()),
{
    let ghost a = args.deep_view();
    if args.len() > 0 {
        proof {
            assert(a[0] == args@[0]@);
        }
        let first = args[0].as_str();
        if owned(first) == owned("clone") {
            return ExecRoute::Clone { uri: nth_string(args, 1), custom_name: nth_string(args, 2) };
        }
        if owned(first) == owned("worktree") {
            return ExecRoute::Worktree(slice_strings(args, 1));
        }
        if owned(first) == owned("cd") {
            if args.len() > 1 && is_git_uri(args[1].as_str()) {
                proof {
                    assert(a[1] == args@[1]@);
                }
                return ExecRoute::Clone { uri: nth_string(args, 1), custom_name: nth_string(args, 2) };
            }
            proof {
                if args@.len() > 1 {
                    assert(a[1] == args@[1]@);
                }
            }
            return ExecRoute::Selector(slice_strings(args, 1));
        }
        let v = chars_of(first);
        if v.len() > 0 && v[0] == '.' {
            return ExecRoute::Dot { dot_arg: owned(first), rest: slice_strings(args, 1) };
        }
        if is_git_uri(first) {
            return ExecRoute::Clone { uri: nth_string(args, 0), custom_name: nth_string(args, 1) };
        }
    }
    let all = slice_strings(args, 0);
    proof {
        assert(a.skip(0) =~= a);
    }
    ExecRoute::Selector(all)
}

proof fn lemma_command_words_are_not_uris()
    ensures
        !spec_is_git_uri("clone"@),
        !spec_is_git_uri("worktree"@),
        !spec_is_git_uri("cd"@),
{
    reveal_strlit("clone");
    reveal_strlit("worktree");
    reveal_strlit("cd");
    reveal_strlit("https://");
    reveal_strlit("http://");
    reveal_strlit("git@");
    reveal_strlit("github.com");
    reveal_strlit("gitlab.com");
    reveal_strlit(".git");
    let clone = "clone"@;
    let worktree = "worktree"@;
    let cd = "cd"@;
    let https = "https://"@;
    let http = "http://"@;
    let at = "git@"@;
    let suffix = ".git"@;
    assert(!https.is_prefix_of(clone));
    assert(!http.is_prefix_of(clone));
    assert(!at.is_prefix_of(clone)) by {
        assert(at[0] != clone[0]);
    }
    assert(!suffix.is_suffix_of(clone)) by {
        assert(suffix[0] != clone[1]);
    }
    assert(!https.is_prefix_of(worktree)) by {
        assert(https[0] != worktree[0]);
    }
    assert(!http.is_prefix_of(worktree)) by {
        assert(http[0] != worktree[0]);
    }
    assert(!at.is_prefix_of(worktree)) by {
        assert(at[0] != worktree[0]);
    }
    assert(!suffix.is_suffix_of(worktree)) by {
        assert(suffix[0] != worktree[4]);
    }
    assert(!at.is_prefix_of(cd));
    assert(!suffix.is_suffix_of(cd));
}

/// A git URI given first, in place of a command, clones it as `clone` does,
/// with the argument after it as the lab's name.
pub proof fn law_url_shorthand_clones(uri: Seq<char>, rest: Seq<Seq<char>>)
    requires
        spec_is_git_uri(uri),
        uri.len() == 0 || uri[0] != '.',
    ensures
        spec_route(seq![uri] + rest) == spec_route(seq!["clone"@, uri] + rest),
        spec_route(seq!["cd"@, uri] + rest) == spec_route(seq!["clone"@, uri] + rest),
{
    reveal_strlit("cd");
    reveal_strlit("clone");
    reveal_strlit("worktree");
    lemma_command_words_are_not_uris();
    let a = seq![uri] + rest;
    let b = seq!["clone"@, uri] + rest;
    let c = seq!["cd"@, uri] + rest;
    assert(a[0] == uri);
    assert(b[0] == "clone"@ && b[1] == uri);
    assert(c[0] == "cd"@ && c[1] == uri);
    assert(nth(a, 0) == nth(b, 1));
    assert(nth(a, 1) == nth(b, 2));
    assert(nth(c, 1) == nth(b, 1));
    assert(nth(c, 2) == nth(b, 2));
    assert("cd"@.len() == 2 && "clone"@.len() == 5 && "worktree"@.len() == 8);
    assert("cd"@ != "clone"@);
    assert("clone"@ != "worktree"@);
    assert(c[0].len() > 0 && c[0][0] == 'c');
}

/// `lab cd <query...>` opens the selector with the words after `cd` as
/// its query, unless the first of them is a git URI (then it clones);
/// and for a plain query (no command word, no dot path, no URI first) it
/// goes where the query alone goes.
pub proof fn law_cd_opens_selector_with_rest(rest: Seq<Seq<char>>)
    requires
        rest.len() == 0 || !spec_is_git_uri(rest[0]),
    ensures
        spec_route(seq!["cd"@] + rest) == RouteModel::Selector(rest),
        (rest.len() == 0 || (rest[0] != "clone"@ && rest[0] != "worktree"@ && rest[0] != "cd"@ && (
        rest[0].len() == 0 || rest[0][0] != '.'))) ==> spec_route(seq!["cd"@] + rest) == spec_route(
            rest,
        ),
{
    reveal_strlit("cd");
    reveal_strlit("clone");
    reveal_strlit("worktree");
    let a = seq!["cd"@] + rest;
    assert(a[0] == "cd"@);
    assert("cd"@.len() == 2 && "clone"@.len() == 5 && "worktree"@.len() == 8);
    assert("cd"@ != "clone"@);
    assert("cd"@ != "worktree"@);
    assert(a.skip(1) =~= rest);
    if rest.len() > 0 {
        assert(a[1] == rest[0]);
    }
}

} // verus!
