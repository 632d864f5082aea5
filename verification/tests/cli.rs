use lab::cli::{help_text, parse_args, version_text, Command, ParseResult};

fn parse(args: &[&str]) -> ParseResult {
    parse_args(args.iter().map(|s| s.to_string()).collect())
}

#[test]
fn test_help_flag() {
    match parse(&["--help"]) {
        ParseResult::Help(0) => {}
        other => panic!("Expected Help(0), got {:?}", other),
    }
}

#[test]
fn test_help_short_flag() {
    match parse(&["-h"]) {
        ParseResult::Help(0) => {}
        other => panic!("Expected Help(0), got {:?}", other),
    }
}

#[test]
fn test_version_flag() {
    match parse(&["--version"]) {
        ParseResult::Version => {}
        other => panic!("Expected Version, got {:?}", other),
    }
}

#[test]
fn test_version_short_flag() {
    match parse(&["-v"]) {
        ParseResult::Version => {}
        other => panic!("Expected Version, got {:?}", other),
    }
}

#[test]
fn test_no_args_gives_help_exit2() {
    match parse(&[]) {
        ParseResult::Help(2) => {}
        other => panic!("Expected Help(2), got {:?}", other),
    }
}

#[test]
fn test_help_anywhere_in_args() {
    // --help should be detected even after a command
    match parse(&["exec", "--help"]) {
        ParseResult::Help(0) => {}
        other => panic!("Expected Help(0), got {:?}", other),
    }
}

#[test]
fn test_version_anywhere_in_args() {
    match parse(&["exec", "--version"]) {
        ParseResult::Version => {}
        other => panic!("Expected Version, got {:?}", other),
    }
}

#[test]
fn test_init_command() {
    match parse(&["init", "/tmp/labs"]) {
        ParseResult::Run(args) => {
            assert_eq!(args.command, Some(Command::Init));
            assert_eq!(args.args, vec!["/tmp/labs"]);
        }
        other => panic!("Expected Run, got {:?}", other),
    }
}

#[test]
fn test_clone_command() {
    match parse(&["clone", "https://github.com/user/repo"]) {
        ParseResult::Run(args) => {
            assert_eq!(args.command, Some(Command::Clone));
            assert_eq!(args.args, vec!["https://github.com/user/repo"]);
        }
        other => panic!("Expected Run, got {:?}", other),
    }
}

#[test]
fn test_exec_command() {
    match parse(&["exec", "cd", "query"]) {
        ParseResult::Run(args) => {
            assert_eq!(args.command, Some(Command::Exec));
            assert_eq!(args.args, vec!["cd", "query"]);
        }
        other => panic!("Expected Run, got {:?}", other),
    }
}

#[test]
fn test_unknown_command_treated_as_query() {
    match parse(&["myquery"]) {
        ParseResult::Run(args) => {
            assert_eq!(args.command, None);
            assert_eq!(args.args, vec!["myquery"]);
        }
        other => panic!("Expected Run, got {:?}", other),
    }
}

#[test]
fn test_path_equals_form() {
    match parse(&["--path=/custom/dir", "exec"]) {
        ParseResult::Run(args) => {
            assert_eq!(args.path, Some("/custom/dir".to_string()));
            assert_eq!(args.command, Some(Command::Exec));
        }
        other => panic!("Expected Run, got {:?}", other),
    }
}

#[test]
fn test_path_space_form() {
    match parse(&["--path", "/custom/dir", "exec"]) {
        ParseResult::Run(args) => {
            assert_eq!(args.path, Some("/custom/dir".to_string()));
            assert_eq!(args.command, Some(Command::Exec));
        }
        other => panic!("Expected Run, got {:?}", other),
    }
}

#[test]
fn test_no_colors_flag() {
    match parse(&["--no-colors", "exec"]) {
        ParseResult::Run(args) => {
            assert!(args.no_colors);
            assert_eq!(args.command, Some(Command::Exec));
        }
        other => panic!("Expected Run, got {:?}", other),
    }
}

#[test]
fn test_and_exit_flag() {
    match parse(&["--and-exit", "exec"]) {
        ParseResult::Run(args) => {
            assert!(args.and_exit);
            assert_eq!(args.command, Some(Command::Exec));
        }
        other => panic!("Expected Run, got {:?}", other),
    }
}

#[test]
fn test_and_keys_option() {
    match parse(&["--and-keys", "DOWN,ENTER", "exec"]) {
        ParseResult::Run(args) => {
            assert_eq!(args.and_keys, Some("DOWN,ENTER".to_string()));
            assert_eq!(args.command, Some(Command::Exec));
        }
        other => panic!("Expected Run, got {:?}", other),
    }
}

#[test]
fn test_and_type_option() {
    match parse(&["--and-type", "hello", "exec"]) {
        ParseResult::Run(args) => {
            assert_eq!(args.and_type, Some("hello".to_string()));
            assert_eq!(args.command, Some(Command::Exec));
        }
        other => panic!("Expected Run, got {:?}", other),
    }
}

#[test]
fn test_and_confirm_option() {
    match parse(&["--and-confirm", "YES", "exec"]) {
        ParseResult::Run(args) => {
            assert_eq!(args.and_confirm, Some("YES".to_string()));
            assert_eq!(args.command, Some(Command::Exec));
        }
        other => panic!("Expected Run, got {:?}", other),
    }
}

#[test]
fn test_combined_flags() {
    match parse(&[
        "--no-colors",
        "--path=/tmp/labs",
        "--and-exit",
        "--and-type",
        "beta",
        "exec",
    ]) {
        ParseResult::Run(args) => {
            assert!(args.no_colors);
            assert_eq!(args.path, Some("/tmp/labs".to_string()));
            assert!(args.and_exit);
            assert_eq!(args.and_type, Some("beta".to_string()));
            assert_eq!(args.command, Some(Command::Exec));
        }
        other => panic!("Expected Run, got {:?}", other),
    }
}

#[test]
fn test_help_text_contains_required_content() {
    let help = help_text();
    assert!(
        help.contains("ephemeral workspace manager"),
        "Help text must contain 'ephemeral workspace manager'"
    );
    assert!(
        help.contains("lab"),
        "Help text must reference 'lab'"
    );
    assert!(
        help.contains("LAB_PATH"),
        "Help text must reference LAB_PATH"
    );
    assert!(
        help.contains("LAB_PROJECTS"),
        "Help text must reference LAB_PROJECTS"
    );
}

#[test]
fn test_version_text_format() {
    let version = version_text();
    assert!(version.starts_with("lab "));
    // Should match pattern "lab X.Y.Z"
    let parts: Vec<&str> = version.split(' ').collect();
    assert_eq!(parts.len(), 2);
    let ver_parts: Vec<&str> = parts[1].split('.').collect();
    assert!(ver_parts.len() >= 2, "Version should have at least major.minor");
}

#[test]
fn test_and_exit_alone_is_not_no_args() {
    // --and-exit without a command should still be Run, not Help
    match parse(&["--and-exit"]) {
        ParseResult::Run(args) => {
            assert!(args.and_exit);
        }
        other => panic!("Expected Run with and_exit, got {:?}", other),
    }
}

#[test]
fn test_path_alone_is_not_no_args() {
    // --path alone opens the selector with no initial query; it must not
    // count as "no arguments" and give help.
    match parse(&["--path=/tmp/labs"]) {
        ParseResult::Run(args) => {
            assert_eq!(args.path, Some("/tmp/labs".to_string()));
        }
        other => panic!("Expected Run, got {:?}", other),
    }
}

#[test]
fn test_worktree_command() {
    match parse(&["worktree", "feature-name"]) {
        ParseResult::Run(args) => {
            assert_eq!(args.command, Some(Command::Worktree));
            assert_eq!(args.args, vec!["feature-name"]);
        }
        other => panic!("Expected Run, got {:?}", other),
    }
}

#[test]
fn test_install_command() {
    match parse(&["install"]) {
        ParseResult::Run(args) => {
            assert_eq!(args.command, Some(Command::Install));
            assert!(args.args.is_empty());
        }
        other => panic!("Expected Run, got {:?}", other),
    }
}
