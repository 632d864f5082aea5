//! Trusted access to the environment, the file system, and std's text and
//! path functions.
//!
//! Each function here makes one outside call; Verus believes its contract.
//! Results that depend on the machine carry no `ensures`.

use vstd::prelude::*;
use crate::text::{opt_string, owned};

verus! {

/// The Unicode lowercase mapping of a string, as `str::to_lowercase` computes it.
pub uninterp spec fn lowercase_of(s: Seq<char>) -> Seq<char>;

/// `c` with the ASCII letters `A` to `Z` made lowercase.
pub open spec fn lower_ascii_char(c: char) -> char {
    if 'A' <= c && c <= 'Z' {
        ((c as u32) + 32) as char
    } else {
        c
    }
}

/// Whether every character of `s` is ASCII.
pub open spec fn is_ascii_text(s: Seq<char>) -> bool {
    forall|i: int| 0 <= i < s.len() ==> (#[trigger] s[i] as u32) < 128
}

/// `s` with its ASCII letters made lowercase, character by character.
pub open spec fn ascii_lowercase(s: Seq<char>) -> Seq<char> {
    s.map_values(|c: char| lower_ascii_char(c))
}

/// The lowercase form of `s`: its ASCII lowercase when it is all ASCII,
/// else the Unicode mapping `lowercase_of`. Both agree with what
/// `to_lowercase` returns.
pub open spec fn lowered(s: Seq<char>) -> Seq<char> {
    if is_ascii_text(s) {
        ascii_lowercase(s)
    } else {
        lowercase_of(s)
    }
}

/// Trusted: wraps `str::to_lowercase`. Claims that the result is a
/// function of the input's characters, named `lowercase_of`; that the
/// empty string maps to the empty string; and that an all-ASCII string
/// maps character by character to its ASCII lowercase, as std documents
/// (the mapping is per character, and ASCII letters have ASCII lowercase
/// forms). Nothing is claimed of other characters.
#[verifier::external_body]
pub(crate) fn to_lowercase(s: &str) -> (r: String)
    ensures
        r@ == lowercase_of(s@),
        s@.len() == 0 ==> r@ == Seq::<char>::empty(),
        is_ascii_text(s@) ==> r@ == ascii_lowercase(s@),
{
    s.to_lowercase()
}

/// Trusted: wraps `dirs::home_dir`, converting the path to text lossily.
/// The result depends on the environment, so nothing is claimed of it.
#[verifier::external_body]
pub(crate) fn home_dir() -> (r: Option<String>) {
    dirs::home_dir().map(|p| p.to_string_lossy().to_string())
}

/// Trusted: wraps `std::path::Path::exists`. The result depends on what is
/// on disk, so nothing is claimed of it.
#[verifier::external_body]
pub(crate) fn path_exists(path: &str) -> (r: bool) {
    std::path::Path::new(path).exists()
}

/// Trusted: wraps `std::path::Path::is_dir`. The result depends on what is
/// on disk, so nothing is claimed of it.
#[verifier::external_body]
pub(crate) fn path_is_dir(path: &str) -> (r: bool) {
    std::path::Path::new(path).is_dir()
}

/// Trusted: wraps `std::path::Path::canonicalize`, converting the result to
/// text lossily. The result depends on what is on disk, so nothing is
/// claimed of it.
#[verifier::external_body]
pub(crate) fn canonical_path(path: &str) -> (r: Option<String>) {
    std::path::Path::new(path).canonicalize().ok().map(|p| p.to_string_lossy().to_string())
}

/// A path together with what `canonical_path` made of it. Only
/// `canonicalize` builds one, so the path it holds is the path that was
/// resolved.
pub struct CanonicalPath {
    given: String,
    resolved: Option<String>,
}

impl CanonicalPath {
    /// The path that was resolved.
    pub closed spec fn given(self) -> Seq<char> {
        self.given@
    }

    /// What it resolved to, if anything.
    pub closed spec fn resolved(self) -> Option<Seq<char>> {
        opt_string(self.resolved)
    }

    /// What it resolved to, if anything.
    pub fn into_resolved(self) -> (r: Option<String>)
        ensures
            opt_string(r) == self.resolved(),
    {
        self.resolved
    }
}

/// Resolves `path` to its canonical form, remembering which path that was.
pub fn canonicalize(path: &str) -> (r: CanonicalPath)
    ensures
        r.given() == path@,
{
    CanonicalPath { given: owned(path), resolved: canonical_path(path) }
}

/// Whether a path was found on disk, together with the path that was
/// looked for. Only `probe_path` builds one, so the answer it holds is the
/// answer `path_exists` gave for the path it holds.
pub struct Probe {
    path: String,
    found: bool,
}

impl Probe {
    /// The path that was looked for.
    pub closed spec fn path(self) -> Seq<char> {
        self.path@
    }

    /// Whether it was found.
    pub closed spec fn found(self) -> bool {
        self.found
    }

    /// Whether it was found.
    pub fn is_found(&self) -> (r: bool)
        ensures
            r == self.found(),
    {
        self.found
    }
}

/// Looks for `path` on disk, remembering which path that was.
pub fn probe_path(path: &str) -> (r: Probe)
    ensures
        r.path() == path@,
{
    Probe { path: owned(path), found: path_exists(path) }
}

/// The home directory as `home_dir` read it. Only `read_home` builds one.
pub struct HomeDir {
    dir: Option<String>,
}

impl HomeDir {
    /// The home directory, when it could be found.
    pub closed spec fn dir(self) -> Option<Seq<char>> {
        opt_string(self.dir)
    }

    /// The home directory, when it could be found.
    pub fn into_dir(self) -> (r: Option<String>)
        ensures
            opt_string(r) == self.dir(),
    {
        self.dir
    }
}

/// Reads the home directory.
pub fn read_home() -> (r: HomeDir) {
    HomeDir { dir: home_dir() }
}

/// The last component of a path, as `std::path::Path::file_name` computes it.
pub uninterp spec fn file_name_of(path: Seq<char>) -> Option<Seq<char>>;

/// Trusted: wraps `std::path::Path::file_name`, converting the result to
/// text lossily. Claims only that the result is a function of the path,
/// named `file_name_of`.
#[verifier::external_body]
pub(crate) fn file_name(path: &str) -> (r: Option<String>)
    ensures
        match r {
            Some(n) => file_name_of(path@) == Some(n@),
            None => file_name_of(path@) is None,
        },
{
    std::path::Path::new(path).file_name().map(|n| n.to_string_lossy().to_string())
}

} // verus!

verus! {

/// The parent of a path, as `std::path::Path::parent` computes it.
pub uninterp spec fn parent_of(path: Seq<char>) -> Option<Seq<char>>;

/// Trusted: wraps `std::path::Path::parent`. Claims only that the result is
/// a function of the path, named `parent_of`.
#[verifier::external_body]
pub(crate) fn parent_path(path: &str) -> (r: Option<String>)
    ensures
        match r {
            Some(p) => parent_of(path@) == Some(p@),
            None => parent_of(path@) is None,
        },
{
    std::path::Path::new(path).parent().map(|p| p.to_string_lossy().to_string())
}

/// Whether `base` is a prefix of `path` in whole components, as
/// `std::path::Path::starts_with` decides it.
pub uninterp spec fn starts_with_path_of(path: Seq<char>, base: Seq<char>) -> bool;

/// Trusted: wraps `std::path::Path::starts_with`. Claims only that the
/// result is a function of the two paths, named `starts_with_path_of`.
#[verifier::external_body]
pub(crate) fn path_starts_with(path: &str, base: &str) -> (r: bool)
    ensures
        r == starts_with_path_of(path@, base@),
{
    std::path::Path::new(path).starts_with(base)
}

/// Whether two paths have the same components, as `==` on
/// `std::path::Path` decides it.
pub uninterp spec fn same_path_of(a: Seq<char>, b: Seq<char>) -> bool;

/// Trusted: wraps `==` on `std::path::Path`. Claims only that the result is
/// a function of the two paths, named `same_path_of`.
#[verifier::external_body]
pub(crate) fn same_path(a: &str, b: &str) -> (r: bool)
    ensures
        r == same_path_of(a@, b@),
{
    std::path::Path::new(a) == std::path::Path::new(b)
}

} // verus!
