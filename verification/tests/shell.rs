use lab::shell::{
    bash_rc_for, bashrc_probe_path, detect_shell, init_snippet, powershell_profile_for, shell_rc_file, Shell,
};

// ---- Shell detection tests ----

#[test]
fn test_detect_shell_bash_env() {
    // Detection from a bash `SHELL` value gives a printable variant.
    let result = detect_shell(Some("/bin/bash"), None, None);
    if let Some(shell) = result {
        assert!(
            !format!("{shell:?}").is_empty(),
            "detected shell should be printable"
        );
    }
}

// ---- Shell RC file tests ----

#[test]
fn test_shell_rc_file_fish() {
    assert_eq!(
        shell_rc_file(Shell::Fish, None),
        Some("~/.config/fish/config.fish".to_string())
    );
}

#[test]
fn test_shell_rc_file_zsh() {
    assert_eq!(shell_rc_file(Shell::Zsh, None), Some("~/.zshrc".to_string()));
}

#[test]
fn test_shell_rc_file_bash() {
    let rc = shell_rc_file(Shell::Bash, None);
    assert!(rc.is_some());
    let rc = rc.unwrap();
    assert!(
        rc == "~/.bashrc" || rc == "~/.bash_profile",
        "bash rc should be .bashrc or .bash_profile, got: {}",
        rc
    );
}

#[test]
fn test_shell_rc_file_powershell() {
    let rc = shell_rc_file(Shell::PowerShell, None);
    assert!(rc.is_some());
}

// ---- Init snippet tests: Bash/Zsh ----

#[test]
fn test_init_snippet_bash_with_explicit_path() {
    let snippet = init_snippet(
        Shell::Bash,
        "/usr/local/bin/lab",
        "~/src/labs",
        Some("/tmp/labs"),
    );
    assert!(
        snippet.contains("lab() {"),
        "should contain lab() {{ function: {}",
        snippet
    );
    assert!(snippet.contains("local out"), "should declare local out");
    assert!(
        snippet.contains("/usr/local/bin/lab"),
        "should contain binary path"
    );
    assert!(
        snippet.contains("--path '/tmp/labs'"),
        "should hardcode explicit path"
    );
    assert!(
        snippet.contains("2>/dev/tty"),
        "should redirect stderr to tty"
    );
    assert!(snippet.contains("eval \"$out\""), "should eval on success");
    assert!(snippet.contains("echo \"$out\""), "should echo on failure");
    assert!(
        snippet.contains("if [ $? -eq 0 ]; then"),
        "should check exit code"
    );
}

#[test]
fn test_init_snippet_bash_no_explicit_path() {
    let snippet = init_snippet(Shell::Bash, "/usr/local/bin/lab", "~/src/labs", None);
    assert!(
        snippet.contains("${LAB_PATH:-~/src/labs}"),
        "should use LAB_PATH with fallback: {}",
        snippet
    );
    assert!(!snippet.contains("--path '"), "should not hardcode a path");
}

#[test]
fn test_init_snippet_bash_valid_syntax() {
    let snippet = init_snippet(
        Shell::Bash,
        "/usr/local/bin/lab",
        "~/src/labs",
        Some("/tmp/labs"),
    );
    // Basic checks that it's valid shell-like syntax
    assert!(
        snippet.contains("lab() {"),
        "should have function declaration"
    );
    assert!(snippet.contains("}"), "should have closing brace");
    assert!(snippet.contains("fi"), "should close if statement");
}

#[test]
fn test_init_snippet_zsh_same_as_bash() {
    let bash = init_snippet(Shell::Bash, "/bin/lab", "~/src/labs", Some("/tmp/labs"));
    let zsh = init_snippet(Shell::Zsh, "/bin/lab", "~/src/labs", Some("/tmp/labs"));
    assert_eq!(bash, zsh, "bash and zsh snippets should be identical");
}

// ---- Init snippet tests: Fish ----

#[test]
fn test_init_snippet_fish_with_explicit_path() {
    let snippet = init_snippet(
        Shell::Fish,
        "/usr/local/bin/lab",
        "~/src/labs",
        Some("/tmp/labs"),
    );
    assert!(
        snippet.contains("function lab"),
        "should contain fish function: {}",
        snippet
    );
    assert!(
        snippet.contains("--path '/tmp/labs'"),
        "should hardcode explicit path"
    );
    assert!(
        snippet.contains("2>/dev/tty"),
        "should redirect stderr to tty"
    );
    assert!(
        snippet.contains("$pipestatus[1]"),
        "should use pipestatus for fish: {}",
        snippet
    );
    assert!(snippet.contains("end"), "should close with end");
    assert!(
        snippet.contains("string collect"),
        "should use string collect"
    );
}

#[test]
fn test_init_snippet_fish_no_explicit_path() {
    let snippet = init_snippet(Shell::Fish, "/usr/local/bin/lab", "~/src/labs", None);
    assert!(
        snippet.contains("if set -q LAB_PATH"),
        "should check LAB_PATH: {}",
        snippet
    );
    assert!(
        snippet.contains("echo \"$LAB_PATH\""),
        "should echo LAB_PATH: {}",
        snippet
    );
    assert!(
        snippet.contains("echo '~/src/labs'"),
        "should have fallback path: {}",
        snippet
    );
}

#[test]
fn test_init_snippet_fish_no_bash_isms() {
    let snippet = init_snippet(Shell::Fish, "/bin/lab", "~/src/labs", Some("/tmp/labs"));
    assert!(
        !snippet.contains("$()"),
        "fish snippet must not contain $()"
    );
    assert!(!snippet.contains("$?"), "fish snippet must not contain $?");
}

#[test]
fn test_init_snippet_fish_no_bash_isms_no_path() {
    let snippet = init_snippet(Shell::Fish, "/bin/lab", "~/src/labs", None);
    assert!(
        !snippet.contains("$()"),
        "fish snippet must not contain $()"
    );
    assert!(!snippet.contains("$?"), "fish snippet must not contain $?");
}

// ---- Init snippet tests: PowerShell ----

#[test]
fn test_init_snippet_powershell_with_explicit_path() {
    let snippet = init_snippet(
        Shell::PowerShell,
        "/usr/local/bin/lab",
        "~/src/labs",
        Some("/tmp/labs"),
    );
    assert!(
        snippet.contains("function lab"),
        "should contain function lab"
    );
    assert!(
        snippet.contains("$LASTEXITCODE"),
        "should check LASTEXITCODE"
    );
    assert!(
        snippet.contains("Invoke-Expression"),
        "should invoke expression on success"
    );
}

// ---- Init snippet embeds binary path ----

#[test]
fn test_init_snippet_embeds_binary_path() {
    let snippet = init_snippet(Shell::Bash, "/custom/path/to/lab", "~/src/labs", None);
    assert!(
        snippet.contains("/custom/path/to/lab"),
        "snippet must contain the binary path"
    );
}

#[test]
fn test_init_snippet_fish_embeds_binary_path() {
    let snippet = init_snippet(Shell::Fish, "/custom/path/to/lab", "~/src/labs", None);
    assert!(
        snippet.contains("/custom/path/to/lab"),
        "fish snippet must contain the binary path"
    );
}

// ---- Init snippet uses exec subcommand ----

#[test]
fn test_init_snippet_bash_uses_exec() {
    let snippet = init_snippet(Shell::Bash, "/bin/lab", "~/src/labs", None);
    assert!(
        snippet.contains("exec"),
        "bash snippet should invoke 'exec' subcommand: {}",
        snippet
    );
}

#[test]
fn test_init_snippet_fish_uses_exec() {
    let snippet = init_snippet(Shell::Fish, "/bin/lab", "~/src/labs", None);
    assert!(
        snippet.contains("exec"),
        "fish snippet should invoke 'exec' subcommand: {}",
        snippet
    );
}

#[test]
fn test_init_uses_shared_detect_shell() {
    // Verify that detect_shell() returns a valid shell
    // (or None, in which case we default to Bash).
    let shell = detect_shell(None, None, None).unwrap_or(Shell::Bash);
    assert!(
        shell == Shell::Bash
            || shell == Shell::Zsh
            || shell == Shell::Fish
            || shell == Shell::PowerShell,
        "shared detect_shell should return a valid shell variant"
    );
}

#[test]
fn test_detect_shell_order_of_sources() {
    assert_eq!(detect_shell(Some("/usr/bin/fish"), Some("x"), Some("bash")), Some(Shell::Fish));
    assert_eq!(detect_shell(Some("/bin/sh"), Some("C:\\ps"), Some("zsh")), Some(Shell::PowerShell));
    assert_eq!(detect_shell(Some("/bin/sh"), Some(""), Some("-zsh")), Some(Shell::Zsh));
    assert_eq!(detect_shell(None, None, Some("PowerShell.exe")), Some(Shell::PowerShell));
    assert_eq!(detect_shell(None, None, Some("pwsh")), Some(Shell::PowerShell));
    assert_eq!(detect_shell(None, None, Some("sh")), None);
}

#[test]
fn test_bash_rc_prefers_bashrc_when_it_exists() {
    assert_eq!(bash_rc_for(true), "~/.bashrc");
    assert_eq!(bash_rc_for(false), "~/.bash_profile");
}

#[test]
fn test_bashrc_is_looked_for_in_the_home_directory() {
    assert_eq!(bashrc_probe_path(Some("/home/me")), "/home/me/.bashrc");
    assert_eq!(bashrc_probe_path(None), "~/.bashrc");
}

#[test]
fn test_powershell_profile_choice() {
    assert_eq!(
        powershell_profile_for(Some("/p/profile.ps1"), Some("/home/me")),
        Some("/p/profile.ps1".to_string())
    );
    assert_eq!(
        powershell_profile_for(None, Some("/home/me")),
        Some("/home/me/.config/powershell/Microsoft.PowerShell_profile.ps1".to_string())
    );
    assert_eq!(powershell_profile_for(None, None), None);
}
