//! Where the labs live: the `--path` option, else `LAB_PATH`, else
//! `~/src/labs`, with a leading `~` expanded.

use vstd::prelude::*;
use crate::text::{chars_of, join_path, joined, opt_str, owned};
use crate::tui::app::{expand_tilde_with, tilde_expanded};

verus! {

/// `home/src/labs`, or `~/src/labs` when there is no home directory.
pub open spec fn spec_default_labs_path(home: Option<Seq<char>>) -> Seq<char> {
    match home {
        Some(h) => joined(joined(h, "src"@), "labs"@),
        None => "~/src/labs"@,
    }
}

/// The default labs directory under `home`.
pub fn default_labs_path(home: Option<&str>) -> (r: String)
    ensures
        r@ == spec_default_labs_path(opt_str(home)),
{
    match home {
        Some(h) => {
            let src = join_path(h, "src");
            join_path(src.as_str(), "labs")
        },
        None => owned("~/src/labs"),
    }
}

/// The labs directory: the `--path` value, else a non-empty `LAB_PATH`,
/// else the default; either given path with a leading `~` expanded.
pub open spec fn spec_labs_path(
    path_override: Option<Seq<char>>,
    env_path: Option<Seq<char>>,
    home: Option<Seq<char>>,
) -> Seq<char> {
    match path_override {
        Some(p) => tilde_expanded(p, home),
        None => match env_path {
            Some(e) => if e.len() > 0 {
                tilde_expanded(e, home)
            } else {
                spec_default_labs_path(home)
            },
            None => spec_default_labs_path(home),
        },
    }
}

/// Resolve the labs directory from the `--path` value, the `LAB_PATH`
/// variable and the home directory.
pub fn resolve_labs_path(path_override: Option<&str>, env_path: Option<&str>, home: Option<&str>) -> (r: String)
    ensures
        r@ == spec_labs_path(opt_str(path_override), opt_str(env_path), opt_str(home)),
{
    match path_override {
        Some(p) => expand_tilde_with(p, home),
        None => match env_path {
            Some(e) => {
                if chars_of(e).len() > 0 {
                    expand_tilde_with(e, home)
                } else {
                    default_labs_path(home)
                }
            },
            None => default_labs_path(home),
        },
    }
}

} // verus!
