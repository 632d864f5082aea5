//! `lab clone <git-uri> [name]`: clone a repository into a dated lab.

use vstd::prelude::*;
use crate::git::{parse_git_uri, spec_parse_git_uri};
use crate::script::{script_clone, spec_script_clone};
use crate::text::{chars_of, join_path, joined, owned, push_char, push_str};

verus! {

/// The dated directory name for a clone: the custom name when one is given,
/// else `user-repo` from the URI; `None` when neither is available.
pub open spec fn spec_clone_dir_name(uri: Seq<char>, custom_name: Option<Seq<char>>, date: Seq<char>) -> Option<Seq<char>> {
    if custom_name matches Some(n) && n.len() > 0 {
        Some(date + seq!['-'] + custom_name.unwrap())
    } else {
        match spec_parse_git_uri(uri) {
            Some((_, user, repo)) => Some(date + seq!['-'] + user + seq!['-'] + repo),
            None => None,
        }
    }
}

/// The characters of an optional string slice.
pub open spec fn opt_view(o: Option<&str>) -> Option<Seq<char>> {
    match o {
        Some(s) => Some(s@),
        None => None,
    }
}

/// The dated directory name for a clone, on the date `date` (`YYYY-MM-DD`,
/// read from the local clock by the caller).
pub fn generate_clone_directory_name(uri: &str, custom_name: Option<&str>, date: &str) -> (r: Option<String>)
    ensures
        match r {
            Some(n) => spec_clone_dir_name(uri@, opt_view(custom_name), date@) == Some(n@),
            None => spec_clone_dir_name(uri@, opt_view(custom_name), date@) is None,
        },
{
    if let Some(name) = custom_name {
        if chars_of(name).len() > 0 {
            let mut r = owned(date);
            push_char(&mut r, '-');
            push_str(&mut r, name);
            return Some(r);
        }
    }
    match parse_git_uri(uri) {
        Some(parsed) => {
            let mut r = owned(date);
            push_char(&mut r, '-');
            push_str(&mut r, parsed.user.as_str());
            push_char(&mut r, '-');
            push_str(&mut r, parsed.repo.as_str());
            Some(r)
        },
        None => None,
    }
}

/// Why a clone cannot go ahead.
#[derive(Debug, Clone, Copy, PartialEq, Eq, Structural)]
pub enum CloneError {
    /// No URI was given.
    MissingUri,
    /// The URI cannot be parsed.
    Unparseable,
}

/// The script for `lab clone`: a missing or empty URI and an unparseable
/// URI are errors; otherwise clone into the lab inside `labs_path` dated
/// `today`.
pub fn clone_commands(uri: Option<&str>, custom_name: Option<&str>, labs_path: &str, today: &str) -> (r: Result<Vec<String>, CloneError>)
    ensures
        (uri is None || uri.unwrap()@.len() == 0) ==> r == Err::<Vec<String>, CloneError>(
            CloneError::MissingUri,
        ),
        (uri matches Some(u) && u@.len() > 0 && spec_parse_git_uri(u@) is None) ==> r == Err::<
            Vec<String>,
            CloneError,
        >(CloneError::Unparseable),
        (uri matches Some(u) && u@.len() > 0 && spec_parse_git_uri(u@) is Some) ==> (r matches Ok(
            c,
        ) && c.deep_view() == spec_script_clone(
            joined(
                labs_path@,
                spec_clone_dir_name(uri.unwrap()@, opt_view(custom_name), today@).unwrap(),
            ),
            uri.unwrap()@,
        )),
{
    let u = match uri {
        Some(u) => u,
        None => return Err(CloneError::MissingUri),
    };
    if chars_of(u).len() == 0 {
        return Err(CloneError::MissingUri);
    }
    if parse_git_uri(u).is_none() {
        return Err(CloneError::Unparseable);
    }
    let dir_name = match generate_clone_directory_name(u, custom_name, today) {
        Some(name) => name,
        None => return Err(CloneError::Unparseable),
    };
    let full_path = join_path(labs_path, dir_name.as_str());
    Ok(script_clone(full_path.as_str(), u))
}

} // verus!
