use lab::git::{is_git_uri, parse_git_uri};

// ---- parse_git_uri tests ----

#[test]
fn test_parse_https_github() {
    let parsed = parse_git_uri("https://github.com/user/repo").unwrap();
    assert_eq!(parsed.host, "github.com");
    assert_eq!(parsed.user, "user");
    assert_eq!(parsed.repo, "repo");
}

#[test]
fn test_parse_https_github_with_git_suffix() {
    let parsed = parse_git_uri("https://github.com/user/repo.git").unwrap();
    assert_eq!(parsed.host, "github.com");
    assert_eq!(parsed.user, "user");
    assert_eq!(parsed.repo, "repo");
}

#[test]
fn test_parse_ssh_github() {
    let parsed = parse_git_uri("git@github.com:user/repo").unwrap();
    assert_eq!(parsed.host, "github.com");
    assert_eq!(parsed.user, "user");
    assert_eq!(parsed.repo, "repo");
}

#[test]
fn test_parse_ssh_github_with_git_suffix() {
    let parsed = parse_git_uri("git@github.com:user/repo.git").unwrap();
    assert_eq!(parsed.host, "github.com");
    assert_eq!(parsed.user, "user");
    assert_eq!(parsed.repo, "repo");
}

#[test]
fn test_parse_https_gitlab() {
    let parsed = parse_git_uri("https://gitlab.com/user/repo").unwrap();
    assert_eq!(parsed.host, "gitlab.com");
    assert_eq!(parsed.user, "user");
    assert_eq!(parsed.repo, "repo");
}

#[test]
fn test_parse_ssh_gitlab() {
    let parsed = parse_git_uri("git@gitlab.com:user/repo").unwrap();
    assert_eq!(parsed.host, "gitlab.com");
    assert_eq!(parsed.user, "user");
    assert_eq!(parsed.repo, "repo");
}

#[test]
fn test_parse_generic_https_host() {
    let parsed = parse_git_uri("https://example.com/myuser/myrepo").unwrap();
    assert_eq!(parsed.host, "example.com");
    assert_eq!(parsed.user, "myuser");
    assert_eq!(parsed.repo, "myrepo");
}

#[test]
fn test_parse_generic_ssh_host() {
    let parsed = parse_git_uri("git@example.com:myuser/myrepo").unwrap();
    assert_eq!(parsed.host, "example.com");
    assert_eq!(parsed.user, "myuser");
    assert_eq!(parsed.repo, "myrepo");
}

#[test]
fn test_parse_generic_https_with_git_suffix() {
    let parsed = parse_git_uri("https://example.com/user/repo.git").unwrap();
    assert_eq!(parsed.host, "example.com");
    assert_eq!(parsed.user, "user");
    assert_eq!(parsed.repo, "repo");
}

#[test]
fn test_parse_generic_ssh_with_git_suffix() {
    let parsed = parse_git_uri("git@example.com:user/repo.git").unwrap();
    assert_eq!(parsed.host, "example.com");
    assert_eq!(parsed.user, "user");
    assert_eq!(parsed.repo, "repo");
}

#[test]
fn test_parse_invalid_bare_word() {
    assert!(parse_git_uri("not-a-valid-uri").is_none());
}

#[test]
fn test_parse_invalid_no_path() {
    assert!(parse_git_uri("https://github.com").is_none());
}

#[test]
fn test_parse_invalid_single_segment() {
    assert!(parse_git_uri("https://github.com/user").is_none());
}

#[test]
fn test_parse_invalid_empty_user() {
    assert!(parse_git_uri("https://github.com//repo").is_none());
}

#[test]
fn test_parse_invalid_empty_repo() {
    assert!(parse_git_uri("https://github.com/user/").is_none());
}

#[test]
fn test_parse_ssh_no_colon() {
    assert!(parse_git_uri("git@github.com/user/repo").is_none());
}

#[test]
fn test_parse_ssh_no_path() {
    assert!(parse_git_uri("git@github.com:").is_none());
}

#[test]
fn test_parse_ssh_single_segment() {
    assert!(parse_git_uri("git@github.com:user").is_none());
}

#[test]
fn test_parse_http_scheme() {
    let parsed = parse_git_uri("http://github.com/user/repo").unwrap();
    assert_eq!(parsed.host, "github.com");
    assert_eq!(parsed.user, "user");
    assert_eq!(parsed.repo, "repo");
}

#[test]
fn test_parse_strips_git_suffix_only() {
    // .git should only be stripped from the end
    let parsed = parse_git_uri("https://github.com/user/my.git.project").unwrap();
    assert_eq!(parsed.repo, "my.git.project");
}

#[test]
fn test_parse_extra_path_segments_ignored() {
    // Extra segments after user/repo should be ignored
    let parsed = parse_git_uri("https://github.com/user/repo/extra/path").unwrap();
    assert_eq!(parsed.user, "user");
    // The repo captures "repo" because we split into max 3 parts
    assert_eq!(parsed.repo, "repo");
}

// ---- is_git_uri tests ----

#[test]
fn test_is_git_uri_https_github() {
    assert!(is_git_uri("https://github.com/user/repo"));
}

#[test]
fn test_is_git_uri_ssh_github() {
    assert!(is_git_uri("git@github.com:user/repo"));
}

#[test]
fn test_is_git_uri_https_gitlab() {
    assert!(is_git_uri("https://gitlab.com/user/repo"));
}

#[test]
fn test_is_git_uri_ssh_gitlab() {
    assert!(is_git_uri("git@gitlab.com:user/repo"));
}

#[test]
fn test_is_git_uri_dot_git_suffix() {
    assert!(is_git_uri("https://example.com/user/repo.git"));
}

#[test]
fn test_is_git_uri_generic_https() {
    assert!(is_git_uri("https://example.com/user/repo"));
}

#[test]
fn test_is_git_uri_generic_ssh() {
    assert!(is_git_uri("git@example.com:user/repo"));
}

#[test]
fn test_is_git_uri_plain_word() {
    assert!(!is_git_uri("not-a-uri"));
}

#[test]
fn test_is_git_uri_empty() {
    assert!(!is_git_uri(""));
}

#[test]
fn test_is_git_uri_contains_github_in_text() {
    // "github.com" anywhere triggers detection
    assert!(is_git_uri("check github.com/user/repo"));
}

#[test]
fn test_is_git_uri_contains_gitlab_in_text() {
    assert!(is_git_uri("check gitlab.com/user/repo"));
}

#[test]
fn test_is_git_uri_http_scheme() {
    assert!(is_git_uri("http://example.com/user/repo"));
}
