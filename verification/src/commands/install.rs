//! `lab install [path]`: append the shell init snippet to the shell's RC
//! file, once.

use vstd::prelude::*;
use crate::shell::Shell;
use crate::text::{chars_of, contains, contains_seq, owned, push_char, push_str};

verus! {

/// The marker comment used to detect existing installations.
pub const MARKER: &'static str = "# lab shell integration";

/// The first argument, when it is an absolute path.
pub fn explicit_path_arg(args: &[String]) -> (r: Option<&str>)
    ensures
        match r {
            Some(p) => args@.len() > 0 && p@ == args@[0]@ && p@.len() > 0 && p@[0] == '/',
            None => args@.len() == 0 || args@[0]@.len() == 0 || args@[0]@[0] != '/',
        },
{
    if args.len() == 0 {
        return None;
    }
    let first = args[0].as_str();
    let v = chars_of(first);
    if v.len() > 0 && v[0] == '/' {
        Some(first)
    } else {
        None
    }
}

/// The text appended to the RC file: a newline, the marker, a newline, the snippet.
pub open spec fn spec_install_block(snippet: Seq<char>) -> Seq<char> {
    seq!['\n'] + "# lab shell integration"@ + seq!['\n'] + snippet
}

/// The text appended to the RC file for `snippet`.
pub fn install_block(snippet: &str) -> (r: String)
    ensures
        r@ == spec_install_block(snippet@),
{
    let mut r = String::new();
    push_char(&mut r, '\n');
    push_str(&mut r, MARKER);
    push_char(&mut r, '\n');
    push_str(&mut r, snippet);
    proof {
        reveal_strlit("# lab shell integration");
    }
    r
}

/// What installing does to the RC file.
#[derive(Debug, Clone, PartialEq, Eq)]
pub enum InstallDecision {
    /// The marker is already there; nothing to do.
    AlreadyInstalled,
    /// The file exists but could not be read.
    Unreadable,
    /// The file exists and is read-only.
    ReadOnly,
    /// Append this text to the file.
    Append(String),
}

/// Decide what to do with the RC file, given whether it exists, its
/// contents when they could be read, and whether it is read-only.
pub fn decide_install(rc_exists: bool, contents: Option<&str>, read_only: bool, snippet: &str) -> (r: InstallDecision)
    ensures
        rc_exists && (contents matches Some(c) && contains_seq(c@, "# lab shell integration"@))
            ==> r == InstallDecision::AlreadyInstalled,
        rc_exists && contents is None ==> r == InstallDecision::Unreadable,
        rc_exists && (contents matches Some(c) && !contains_seq(c@, "# lab shell integration"@))
            && read_only ==> r == InstallDecision::ReadOnly,
        (!rc_exists || (contents matches Some(c) && !contains_seq(c@, "# lab shell integration"@)
            && !read_only)) ==> (r matches InstallDecision::Append(b) && b@ == spec_install_block(
            snippet@,
        )),
{
    proof {
        reveal_strlit("# lab shell integration");
    }
    if rc_exists {
        match contents {
            Some(c) => {
                if contains(chars_of(c).as_slice(), chars_of(MARKER).as_slice()) {
                    return InstallDecision::AlreadyInstalled;
                }
            },
            None => return InstallDecision::Unreadable,
        }
    }
    let block = install_block(snippet);
    if rc_exists && read_only {
        return InstallDecision::ReadOnly;
    }
    InstallDecision::Append(block)
}

/// How to load the new integration: PowerShell reloads its profile, other
/// shells source the RC file.
pub fn restart_hint(shell: Shell, rc_path: &str) -> (r: String)
    ensures
        shell == Shell::PowerShell ==> r@ == "Restart your shell or run: . $PROFILE"@,
        shell != Shell::PowerShell ==> r@ == "Restart your shell or run: source "@ + rc_path@,
{
    if shell == Shell::PowerShell {
        owned("Restart your shell or run: . $PROFILE")
    } else {
        let mut r = owned("Restart your shell or run: source ");
        push_str(&mut r, rc_path);
        r
    }
}

} // verus!
