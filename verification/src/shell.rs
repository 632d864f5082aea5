//! Shell detection and init snippet generation.
//!
//! Picks the user's shell from what the environment says and generates the
//! wrapper function that evals lab's stdout on success.

use vstd::prelude::*;
use crate::sys::{lowered, probe_path, read_home, to_lowercase, HomeDir, Probe};
use crate::text::{opt_str, opt_string, chars_of, contains, contains_seq, join_path, joined, owned, push_str};

verus! {

/// Supported shell types.
#[derive(Debug, Clone, Copy, PartialEq, Eq, Structural)]
pub enum Shell {
    Bash,
    Zsh,
    Fish,
    PowerShell,
}

/// `--path` argument of the bash/zsh and fish wrappers.
pub open spec fn path_arg(shell: Shell, labs_path: Seq<char>, explicit: Option<Seq<char>>) -> Seq<char> {
    match explicit {
        Some(ep) => " --path '"@ + ep + "'"@,
        None => if shell == Shell::Fish {
            " --path (if set -q LAB_PATH; echo \"$LAB_PATH\"; else; echo '"@ + labs_path
                + "'; end)"@
        } else {
            " --path \"${LAB_PATH:-"@ + labs_path + "}\""@
        },
    }
}

/// The labs path expression of the PowerShell wrapper.
pub open spec fn ps_path_expr(labs_path: Seq<char>, explicit: Option<Seq<char>>) -> Seq<char> {
    match explicit {
        Some(ep) => "'"@ + ep + "'"@,
        None => "$(if ($env:LAB_PATH) { $env:LAB_PATH } else { '"@ + labs_path + "' })"@,
    }
}

/// The wrapper function for `shell`.
pub open spec fn spec_init_snippet(
    shell: Shell,
    binary_path: Seq<char>,
    labs_path: Seq<char>,
    explicit: Option<Seq<char>>,
) -> Seq<char> {
    match shell {
        Shell::Fish => "function lab\n  set -l out (/usr/bin/env '"@ + binary_path + "' exec"@
            + path_arg(shell, labs_path, explicit)
            + " $argv 2>/dev/tty | string collect)\n  if test $pipestatus[1] -eq 0\n    eval $out\n  else\n    echo $out\n  end\nend\n"@,
        Shell::PowerShell => "function lab {\n  $labPath = "@ + ps_path_expr(labs_path, explicit)
            + "\n  $tempErr = [System.IO.Path]::GetTempFileName()\n  $out = & '"@ + binary_path
            + "' exec --path $labPath @args 2>$tempErr\n  if ($LASTEXITCODE -eq 0) {\n    $out | Invoke-Expression\n  } else {\n    Get-Content $tempErr | Write-Host\n    $out | Write-Output\n  }\n  Remove-Item $tempErr -ErrorAction SilentlyContinue\n}\n"@,
        _ => "lab() {\n  local out\n  out=$(/usr/bin/env '"@ + binary_path + "' exec"@ + path_arg(
            shell,
            labs_path,
            explicit,
        )
            + " \"$@\" 2>/dev/tty)\n  if [ $? -eq 0 ]; then\n    eval \"$out\"\n  else\n    echo \"$out\"\n  fi\n}\n"@,
    }
}

/// Shell named in a string: fish, zsh or bash, checked in that order.
pub open spec fn named_shell(s: Seq<char>) -> Option<Shell> {
    if contains_seq(s, "fish"@) {
        Some(Shell::Fish)
    } else if contains_seq(s, "zsh"@) {
        Some(Shell::Zsh)
    } else if contains_seq(s, "bash"@) {
        Some(Shell::Bash)
    } else {
        None
    }
}

/// The shell that the environment points to.
pub open spec fn spec_detect_shell(
    shell_env: Option<Seq<char>>,
    ps_module_path: Option<Seq<char>>,
    parent_name: Option<Seq<char>>,
) -> Option<Shell> {
    if shell_env is Some && named_shell(shell_env->0) is Some {
        named_shell(shell_env->0)
    } else if ps_module_path is Some && ps_module_path->0.len() > 0 {
        Some(Shell::PowerShell)
    } else if parent_name is Some {
        let p = parent_name->0;
        if named_shell(p) is Some {
            named_shell(p)
        } else if contains_seq(p, "pwsh"@) || contains_seq(lowered(p), "powershell"@) {
            Some(Shell::PowerShell)
        } else {
            None
        }
    } else {
        None
    }
}

fn shell_named_in(s: &str) -> (r: Option<Shell>)
    ensures
        r == named_shell(s@),
{
    let v = chars_of(s);
    if contains(&v, &chars_of("fish")) {
        Some(Shell::Fish)
    } else if contains(&v, &chars_of("zsh")) {
        Some(Shell::Zsh)
    } else if contains(&v, &chars_of("bash")) {
        Some(Shell::Bash)
    } else {
        None
    }
}

/// Detect the user's shell from the `SHELL` variable, then the
/// `PSModulePath` variable (PowerShell), then the parent process's name.
pub fn detect_shell(
    shell_env: Option<&str>,
    ps_module_path: Option<&str>,
    parent_name: Option<&str>,
) -> (r: Option<Shell>)
    ensures
        r == spec_detect_shell(opt_str(shell_env), opt_str(ps_module_path), opt_str(parent_name)),
{
    if let Some(s) = shell_env {
        if let Some(found) = shell_named_in(s) {
            return Some(found);
        }
    }
    if let Some(ps) = ps_module_path {
        if chars_of(ps).len() > 0 {
            return Some(Shell::PowerShell);
        }
    }
    if let Some(p) = parent_name {
        if let Some(found) = shell_named_in(p) {
            return Some(found);
        }
        let v = chars_of(p);
        let lower = to_lowercase(p);
        if contains(&v, &chars_of("pwsh")) || contains(
            &chars_of(lower.as_str()),
            &chars_of("powershell"),
        ) {
            return Some(Shell::PowerShell);
        }
    }
    None
}

/// The Bash RC file: `~/.bashrc` when it exists, else `~/.bash_profile`.
pub open spec fn spec_bash_rc(bashrc_exists: bool) -> Seq<char> {
    if bashrc_exists {
        "~/.bashrc"@
    } else {
        "~/.bash_profile"@
    }
}

/// Where `.bashrc` is looked for: in the home directory when it is known,
/// else the literal `~/.bashrc`.
pub open spec fn spec_bashrc_probe(home: Option<Seq<char>>) -> Seq<char> {
    match home {
        Some(h) => joined(h, ".bashrc"@),
        None => "~/.bashrc"@,
    }
}

/// The PowerShell profile: the `PROFILE` variable when set, else the
/// standard profile under the home directory, else none.
pub open spec fn spec_powershell_profile(profile_env: Option<Seq<char>>, home: Option<Seq<char>>) -> Option<Seq<char>> {
    match profile_env {
        Some(p) => Some(p),
        None => match home {
            Some(h) => Some(
                joined(joined(joined(h, ".config"@), "powershell"@), "Microsoft.PowerShell_profile.ps1"@),
            ),
            None => None,
        },
    }
}

/// The RC file for Bash, given whether `.bashrc` exists.
pub fn bash_rc_for(bashrc_exists: bool) -> (r: String)
    ensures
        r@ == spec_bash_rc(bashrc_exists),
{
    if bashrc_exists {
        owned("~/.bashrc")
    } else {
        owned("~/.bash_profile")
    }
}

/// The path probed for `.bashrc`, given the home directory when known.
pub fn bashrc_probe_path(home: Option<&str>) -> (r: String)
    ensures
        r@ == spec_bashrc_probe(opt_str(home)),
{
    match home {
        Some(h) => join_path(h, ".bashrc"),
        None => owned("~/.bashrc"),
    }
}

/// The PowerShell profile, given the `PROFILE` variable and the home
/// directory when known.
pub fn powershell_profile_for(profile_env: Option<&str>, home: Option<&str>) -> (r: Option<String>)
    ensures
        opt_string(r) == spec_powershell_profile(opt_str(profile_env), opt_str(home)),
{
    if let Some(p) = profile_env {
        return Some(owned(p));
    }
    match home {
        Some(h) => {
            let a = join_path(h, ".config");
            let b = join_path(a.as_str(), "powershell");
            let c = join_path(b.as_str(), "Microsoft.PowerShell_profile.ps1");
            Some(c)
        },
        None => None,
    }
}

fn opt_as_str(o: &Option<String>) -> (r: Option<&str>)
    ensures
        opt_str(r) == opt_string(*o),
{
    match o {
        Some(s) => Some(s.as_str()),
        None => None,
    }
}

/// `rc` is the Bash RC file chosen by `probe`, the look for `.bashrc` in
/// the home directory `home` as it was read.
pub open spec fn bash_rc_chosen(home: HomeDir, probe: Probe, rc: Seq<char>) -> bool {
    &&& probe.path() == spec_bashrc_probe(home.dir())
    &&& rc == spec_bash_rc(probe.found())
}

/// `rc` is the Bash RC file for some home directory read and some look
/// for `.bashrc` in it.
pub open spec fn bash_rc_outcome(rc: Seq<char>) -> bool {
    exists|home: HomeDir, probe: Probe| #[trigger] bash_rc_chosen(home, probe, rc)
}

/// `r` is the PowerShell profile for the `PROFILE` variable and some home
/// directory read.
pub open spec fn powershell_outcome(profile_env: Option<Seq<char>>, r: Option<Seq<char>>) -> bool {
    exists|home: HomeDir| r == #[trigger] spec_powershell_profile(profile_env, home.dir())
}

/// For Bash, `~/.bashrc` is chosen exactly when `.bashrc` was found in the
/// home directory (when the home directory is unknown, `~/.bashrc` itself
/// is looked for); otherwise `~/.bash_profile`.
pub proof fn law_bash_rc_follows_bashrc(home: HomeDir, probe: Probe, rc: Seq<char>)
    requires
        bash_rc_chosen(home, probe, rc),
    ensures
        home.dir() matches Some(h) ==> probe.path() == joined(h, ".bashrc"@),
        home.dir() is None ==> probe.path() == "~/.bashrc"@,
        probe.found() ==> rc == "~/.bashrc"@,
        !probe.found() ==> rc == "~/.bash_profile"@,
{
}

/// The RC file path for a shell. Bash prefers `~/.bashrc` when it exists
/// in the home directory and falls back to `~/.bash_profile`; PowerShell
/// uses the `PROFILE` variable when set, else the standard profile under
/// the home directory. The home directory and whether `.bashrc` exists are
/// read here; `bash_rc_for` and `powershell_profile_for` say what follows
/// from each answer.
pub fn shell_rc_file(shell: Shell, profile_env: Option<&str>) -> (r: Option<String>)
    ensures
        shell == Shell::Fish ==> (r matches Some(s) && s@ == "~/.config/fish/config.fish"@),
        shell == Shell::Zsh ==> (r matches Some(s) && s@ == "~/.zshrc"@),
        shell == Shell::Bash ==> (r matches Some(s) && exists|e: bool| s@ == #[trigger] spec_bash_rc(e)),
        shell == Shell::PowerShell ==> exists|home: Option<Seq<char>>|
            opt_string(r) == #[trigger] spec_powershell_profile(opt_str(profile_env), home),
        shell == Shell::Bash ==> (r matches Some(s) && bash_rc_outcome(s@)),
        shell == Shell::PowerShell ==> powershell_outcome(opt_str(profile_env), opt_string(r)),
{
    match shell {
        Shell::Fish => Some(owned("~/.config/fish/config.fish")),
        Shell::Zsh => Some(owned("~/.zshrc")),
        Shell::Bash => {
            let home_read = read_home();
            let ghost hg = home_read;
            let home = home_read.into_dir();
            let bashrc = bashrc_probe_path(opt_as_str(&home));
            let probe = probe_path(bashrc.as_str());
            let r = bash_rc_for(probe.is_found());
            proof {
                assert(bash_rc_chosen(hg, probe, r@));
            }
            Some(r)
        },
        Shell::PowerShell => {
            if profile_env.is_some() {
                let r = powershell_profile_for(profile_env, None);
                proof {
                    let h = vstd::pervasive::arbitrary::<HomeDir>();
                    assert(opt_string(r) == spec_powershell_profile(opt_str(profile_env), h.dir()));
                    assert(opt_string(r) == spec_powershell_profile(opt_str(profile_env), None));
                }
                return r;
            }
            let home_read = read_home();
            let ghost hg = home_read;
            let home = home_read.into_dir();
            let r = powershell_profile_for(profile_env, opt_as_str(&home));
            proof {
                assert(opt_string(r) == spec_powershell_profile(opt_str(profile_env), opt_string(home)));
                assert(opt_string(r) == spec_powershell_profile(opt_str(profile_env), hg.dir()));
            }
            r
        },
    }
}

/// Generate the shell init snippet (wrapper function).
///
/// The wrapper captures lab's stdout and evals it on exit 0, or echoes it
/// on failure. With `explicit_path` the labs path is hardcoded; otherwise
/// the wrapper reads `LAB_PATH` and falls back to `labs_path`.
pub fn init_snippet(
    shell: Shell,
    binary_path: &str,
    labs_path: &str,
    explicit_path: Option<&str>,
) -> (r: String)
    ensures
        r@ == spec_init_snippet(shell, binary_path@, labs_path@, opt_str(explicit_path)),
{
    match shell {
        Shell::Fish => {
            let mut r = owned("function lab\n  set -l out (/usr/bin/env '");
            push_str(&mut r, binary_path);
            push_str(&mut r, "' exec");
            match explicit_path {
                Some(ep) => {
                    push_str(&mut r, " --path '");
                    push_str(&mut r, ep);
                    push_str(&mut r, "'");
                },
                None => {
                    push_str(&mut r, " --path (if set -q LAB_PATH; echo \"$LAB_PATH\"; else; echo '");
                    push_str(&mut r, labs_path);
                    push_str(&mut r, "'; end)");
                },
            }
            push_str(
                &mut r,
                " $argv 2>/dev/tty | string collect)\n  if test $pipestatus[1] -eq 0\n    eval $out\n  else\n    echo $out\n  end\nend\n",
            );
            r
        },
        Shell::PowerShell => {
            let mut r = owned("function lab {\n  $labPath = ");
            match explicit_path {
                Some(ep) => {
                    push_str(&mut r, "'");
                    push_str(&mut r, ep);
                    push_str(&mut r, "'");
                },
                None => {
                    push_str(&mut r, "$(if ($env:LAB_PATH) { $env:LAB_PATH } else { '");
                    push_str(&mut r, labs_path);
                    push_str(&mut r, "' })");
                },
            }
            push_str(&mut r, "\n  $tempErr = [System.IO.Path]::GetTempFileName()\n  $out = & '");
            push_str(&mut r, binary_path);
            push_str(
                &mut r,
                "' exec --path $labPath @args 2>$tempErr\n  if ($LASTEXITCODE -eq 0) {\n    $out | Invoke-Expression\n  } else {\n    Get-Content $tempErr | Write-Host\n    $out | Write-Output\n  }\n  Remove-Item $tempErr -ErrorAction SilentlyContinue\n}\n",
            );
            r
        },
        _ => {
            let mut r = owned("lab() {\n  local out\n  out=$(/usr/bin/env '");
            push_str(&mut r, binary_path);
            push_str(&mut r, "' exec");
            match explicit_path {
                Some(ep) => {
                    push_str(&mut r, " --path '");
                    push_str(&mut r, ep);
                    push_str(&mut r, "'");
                },
                None => {
                    push_str(&mut r, " --path \"${LAB_PATH:-");
                    push_str(&mut r, labs_path);
                    push_str(&mut r, "}\"");
                },
            }
            push_str(
                &mut r,
                " \"$@\" 2>/dev/tty)\n  if [ $? -eq 0 ]; then\n    eval \"$out\"\n  else\n    echo \"$out\"\n  fi\n}\n",
            );
            r
        },
    }
}

} // verus!
