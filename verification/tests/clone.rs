use chrono::Local;
use lab::commands::clone::{clone_commands, generate_clone_directory_name};

/// Today's local date, as the program reads it.
fn today() -> String {
    Local::now().format("%Y-%m-%d").to_string()
}

/// The exit status of `lab clone`: 0 when a script is produced, 1 on an error.
fn cmd_clone(uri: Option<&str>, custom_name: Option<&str>, labs_path: &str) -> i32 {
    match clone_commands(uri, custom_name, labs_path, &today()) {
        Ok(_) => 0,
        Err(_) => 1,
    }
}

// ---- generate_clone_directory_name tests ----

#[test]
fn test_generate_name_https_github() {
    let name =
        generate_clone_directory_name("https://github.com/user/repo", None, &today()).unwrap();
    // Should match YYYY-MM-DD-user-repo
    let today = Local::now().format("%Y-%m-%d").to_string();
    assert_eq!(name, format!("{}-user-repo", today));
}

#[test]
fn test_generate_name_strips_git_suffix() {
    let name =
        generate_clone_directory_name("https://github.com/user/repo.git", None, &today()).unwrap();
    let today = Local::now().format("%Y-%m-%d").to_string();
    assert_eq!(name, format!("{}-user-repo", today));
    assert!(!name.contains(".git"));
}

#[test]
fn test_generate_name_ssh_github() {
    let name =
        generate_clone_directory_name("git@github.com:user/repo", None, &today()).unwrap();
    let today = Local::now().format("%Y-%m-%d").to_string();
    assert_eq!(name, format!("{}-user-repo", today));
}

#[test]
fn test_generate_name_ssh_with_git_suffix() {
    let name =
        generate_clone_directory_name("git@github.com:user/myrepo.git", None, &today()).unwrap();
    let today = Local::now().format("%Y-%m-%d").to_string();
    assert_eq!(name, format!("{}-user-myrepo", today));
}

#[test]
fn test_generate_name_custom_name() {
    let name = generate_clone_directory_name(
        "https://github.com/user/repo",
        Some("myproject"),
        &today(),
    )
    .unwrap();
    let today = Local::now().format("%Y-%m-%d").to_string();
    assert_eq!(name, format!("{}-myproject", today));
}

#[test]
fn test_generate_name_custom_name_overrides_user_repo() {
    let name = generate_clone_directory_name(
        "https://github.com/user/repo",
        Some("custom"),
        &today(),
    )
    .unwrap();
    assert!(name.contains("custom"));
    assert!(!name.contains("user-repo"));
}

#[test]
fn test_generate_name_empty_custom_falls_back() {
    let name =
        generate_clone_directory_name("https://github.com/user/repo", Some(""), &today()).unwrap();
    let today = Local::now().format("%Y-%m-%d").to_string();
    assert_eq!(name, format!("{}-user-repo", today));
}

#[test]
fn test_generate_name_invalid_uri_no_custom() {
    let result = generate_clone_directory_name("not-a-valid-uri", None, &today());
    assert!(result.is_none());
}

#[test]
fn test_generate_name_date_prefix_format() {
    let name =
        generate_clone_directory_name("https://github.com/user/repo", None, &today()).unwrap();
    // Check date prefix format: YYYY-MM-DD-
    assert!(
        name.chars().nth(4) == Some('-')
            && name.chars().nth(7) == Some('-')
            && name.chars().nth(10) == Some('-'),
        "Name should start with YYYY-MM-DD-: {}",
        name
    );
}

#[test]
fn test_generate_name_gitlab() {
    let name =
        generate_clone_directory_name("https://gitlab.com/user/glrepo", None, &today()).unwrap();
    let today = Local::now().format("%Y-%m-%d").to_string();
    assert_eq!(name, format!("{}-user-glrepo", today));
}

#[test]
fn test_generate_name_generic_host() {
    let name =
        generate_clone_directory_name("https://example.com/myuser/myrepo", None, &today()).unwrap();
    let today = Local::now().format("%Y-%m-%d").to_string();
    assert_eq!(name, format!("{}-myuser-myrepo", today));
}

// ---- cmd_clone tests (exit code checks) ----

#[test]
fn test_cmd_clone_no_uri() {
    let code = cmd_clone(None, None, "/tmp/labs");
    assert_eq!(code, 1);
}

#[test]
fn test_cmd_clone_empty_uri() {
    let code = cmd_clone(Some(""), None, "/tmp/labs");
    assert_eq!(code, 1);
}

#[test]
fn test_cmd_clone_unparseable_uri() {
    let code = cmd_clone(Some("not-a-valid-uri"), None, "/tmp/labs");
    assert_eq!(code, 1);
}

#[test]
fn test_cmd_clone_valid_uri() {
    // This will print to stdout (script), but we just check exit code
    let code = cmd_clone(Some("https://github.com/user/repo"), None, "/tmp/labs");
    assert_eq!(code, 0);
}

#[test]
fn test_cmd_clone_valid_uri_with_custom_name() {
    let code = cmd_clone(
        Some("https://github.com/user/repo"),
        Some("myproject"),
        "/tmp/labs",
    );
    assert_eq!(code, 0);
}

#[test]
fn test_cmd_clone_ssh_uri() {
    let code = cmd_clone(Some("git@github.com:user/repo"), None, "/tmp/labs");
    assert_eq!(code, 0);
}

#[test]
fn test_cmd_clone_unparseable_uri_with_custom_name() {
    // Even with a custom name, an unparseable URI should fail
    let code = cmd_clone(Some("not-a-valid-uri"), Some("myproject"), "/tmp/labs");
    assert_eq!(code, 1, "Unparseable URI should be rejected even with custom name");
}
