//! Directory-name rules for lab entries: the date prefix, and which
//! directory entries are listed.

use vstd::prelude::*;
use crate::text::{chars_of, is_digit};

verus! {

/// Whether `name` starts with a `YYYY-MM-DD-` date prefix.
pub open spec fn spec_has_date_prefix(name: Seq<char>) -> bool {
    name.len() >= 11 && is_digit(name[0]) && is_digit(name[1]) && is_digit(name[2]) && is_digit(
        name[3],
    ) && name[4] == '-' && is_digit(name[5]) && is_digit(name[6]) && name[7] == '-' && is_digit(
        name[8],
    ) && is_digit(name[9]) && name[10] == '-'
}

fn digit(c: char) -> (r: bool)
    ensures
        r == is_digit(c),
{
    '0' <= c && c <= '9'
}

/// Returns true if the name starts with a date prefix like "2025-01-15-".
pub fn has_date_prefix(name: &str) -> (r: bool)
    ensures
        r == spec_has_date_prefix(name@),
{
    let v = chars_of(name);
    if v.len() < 11 {
        return false;
    }
    digit(v[0]) && digit(v[1]) && digit(v[2]) && digit(v[3]) && v[4] == '-' && digit(v[5])
        && digit(v[6]) && v[7] == '-' && digit(v[8]) && digit(v[9]) && v[10] == '-'
}

/// Whether a directory entry is listed: a directory (or a symlink to one)
/// whose name does not start with a dot.
pub fn is_listed_entry(name: &str, is_dir: bool) -> (r: bool)
    ensures
        r == (is_dir && !(name@.len() > 0 && name@[0] == '.')),
{
    let v = chars_of(name);
    is_dir && !(v.len() > 0 && v[0] == '.')
}

} // verus!
