//! Git URI parsing.
//!
//! Parses HTTPS and SSH git URIs into host, user and repo, and recognises
//! strings that look like git URIs.

use vstd::prelude::*;
use crate::text::{chars_of, contains, contains_seq, ends_with, find_char, first_index, lemma_find_from, slice_vec, starts_with, string_of};

verus! {

/// Parsed git URI with host, user, and repo components.
#[derive(Debug, PartialEq, Eq)]
pub struct ParsedGitUri {
    pub host: String,
    pub user: String,
    pub repo: String,
}

/// `s` without a trailing `.git`, if it has one.
pub open spec fn strip_git_suffix(s: Seq<char>) -> Seq<char> {
    if ".git"@.is_suffix_of(s) {
        s.take(s.len() - 4)
    } else {
        s
    }
}

/// `s` split around the first `c`: what comes before it and what after.
pub open spec fn split_once(s: Seq<char>, c: char) -> Option<(Seq<char>, Seq<char>)> {
    match first_index(s, c) {
        Some(i) => Some((s.take(i), s.skip(i + 1))),
        None => None,
    }
}

/// The part of `s` before the first `c` (all of `s` when there is none).
pub open spec fn before_char(s: Seq<char>, c: char) -> Seq<char> {
    match first_index(s, c) {
        Some(i) => s.take(i),
        None => s,
    }
}

/// `user/repo[/...]` read into its two non-empty leading components.
pub open spec fn spec_user_repo(path: Seq<char>) -> Option<(Seq<char>, Seq<char>)> {
    match split_once(path, '/') {
        Some((user, rest)) => {
            let repo = before_char(rest, '/');
            if user.len() == 0 || repo.len() == 0 {
                None
            } else {
                Some((user, repo))
            }
        },
        None => None,
    }
}

/// `host` followed by `sep` and a `user/repo` path.
pub open spec fn spec_host_path(rest: Seq<char>, sep: char) -> Option<
    (Seq<char>, Seq<char>, Seq<char>),
> {
    match split_once(rest, sep) {
        Some((host, path)) => match spec_user_repo(path) {
            Some((user, repo)) => Some((host, user, repo)),
            None => None,
        },
        None => None,
    }
}

/// The (host, user, repo) that a git URI names, if it can be parsed.
pub open spec fn spec_parse_git_uri(uri: Seq<char>) -> Option<(Seq<char>, Seq<char>, Seq<char>)> {
    let u = strip_git_suffix(uri);
    if "https://"@.is_prefix_of(u) {
        spec_host_path(u.skip(8), '/')
    } else if "http://"@.is_prefix_of(u) {
        spec_host_path(u.skip(7), '/')
    } else if "git@"@.is_prefix_of(u) {
        spec_host_path(u.skip(4), ':')
    } else {
        None
    }
}

/// Whether a string looks like a git URI.
pub open spec fn spec_is_git_uri(s: Seq<char>) -> bool {
    s.len() > 0 && ("https://"@.is_prefix_of(s) || "http://"@.is_prefix_of(s)
        || "git@"@.is_prefix_of(s) || contains_seq(s, "github.com"@) || contains_seq(
        s,
        "gitlab.com"@,
    ) || ".git"@.is_suffix_of(s))
}

fn split_once_exec(s: &[char], c: char) -> (r: Option<(Vec<char>, Vec<char>)>)
    ensures
        match r {
            Some((a, b)) => split_once(s@, c) == Some((a@, b@)),
            None => split_once(s@, c) is None,
        },
{
    let n = s.len();
    match find_char(s, c) {
        Some(i) => {
            proof {
                lemma_find_from(s@, c, 0);
            }
            let a = slice_vec(s, 0, i);
            let b = slice_vec(s, i + 1, n);
            proof {
                assert(a@ =~= s@.take(i as int));
                assert(b@ =~= s@.skip(i + 1));
            }
            Some((a, b))
        },
        None => None,
    }
}

fn user_repo(path: &[char]) -> (r: Option<(Vec<char>, Vec<char>)>)
    ensures
        match r {
            Some((u, p)) => spec_user_repo(path@) == Some((u@, p@)),
            None => spec_user_repo(path@) is None,
        },
{
    match split_once_exec(path, '/') {
        Some((user, rest)) => {
            let repo = match find_char(&rest, '/') {
                Some(i) => {
                    proof {
                        lemma_find_from(rest@, '/', 0);
                    }
                    slice_vec(&rest, 0, i)
                },
                None => slice_vec(&rest, 0, rest.len()),
            };
            proof {
                assert(repo@ =~= before_char(rest@, '/'));
            }
            if user.len() == 0 || repo.len() == 0 {
                None
            } else {
                Some((user, repo))
            }
        },
        None => None,
    }
}

fn host_path(rest: &[char], sep: char) -> (r: Option<ParsedGitUri>)
    ensures
        match r {
            Some(p) => spec_host_path(rest@, sep) == Some((p.host@, p.user@, p.repo@)),
            None => spec_host_path(rest@, sep) is None,
        },
{
    match split_once_exec(rest, sep) {
        Some((host, path)) => match user_repo(&path) {
            Some((user, repo)) => Some(
                ParsedGitUri { host: string_of(&host), user: string_of(&user), repo: string_of(&repo) },
            ),
            None => None,
        },
        None => None,
    }
}

/// Parse a git URI into its components (host, user, repo).
///
/// Accepts `https://host/user/repo`, `http://host/user/repo` and
/// `git@host:user/repo`, each with an optional `.git` suffix, which is
/// stripped. Extra path segments after the repo are ignored.
/// Returns `None` if the URI cannot be parsed.
pub fn parse_git_uri(uri: &str) -> (r: Option<ParsedGitUri>)
    ensures
        match r {
            Some(p) => spec_parse_git_uri(uri@) == Some((p.host@, p.user@, p.repo@)),
            None => spec_parse_git_uri(uri@) is None,
        },
{
    let all = chars_of(uri);
    let suffix = chars_of(".git");
    let u = if ends_with(&all, &suffix) {
        slice_vec(&all, 0, all.len() - suffix.len())
    } else {
        slice_vec(&all, 0, all.len())
    };
    let https = chars_of("https://");
    let http = chars_of("http://");
    let ssh = chars_of("git@");
    proof {
        reveal_strlit(".git");
        reveal_strlit("https://");
        reveal_strlit("http://");
        reveal_strlit("git@");
        assert(u@ =~= strip_git_suffix(uri@));
    }
    if starts_with(&u, &https) {
        let rest = slice_vec(&u, 8, u.len());
        proof {
            assert(rest@ =~= u@.skip(8));
        }
        host_path(&rest, '/')
    } else if starts_with(&u, &http) {
        let rest = slice_vec(&u, 7, u.len());
        proof {
            assert(rest@ =~= u@.skip(7));
        }
        host_path(&rest, '/')
    } else if starts_with(&u, &ssh) {
        let rest = slice_vec(&u, 4, u.len());
        proof {
            assert(rest@ =~= u@.skip(4));
        }
        host_path(&rest, ':')
    } else {
        None
    }
}

/// Check whether a string looks like a git URI: non-empty, and starting with
/// `https://`, `http://` or `git@`, containing `github.com` or `gitlab.com`,
/// or ending with `.git`.
pub fn is_git_uri(s: &str) -> (r: bool)
    ensures
        r == spec_is_git_uri(s@),
{
    let v = chars_of(s);
    if v.len() == 0 {
        return false;
    }
    starts_with(&v, &chars_of("https://")) || starts_with(&v, &chars_of("http://"))
        || starts_with(&v, &chars_of("git@")) || contains(&v, &chars_of("github.com"))
        || contains(&v, &chars_of("gitlab.com")) || ends_with(&v, &chars_of(".git"))
}

} // verus!
