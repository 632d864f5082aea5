use lab::cli::{parse_args, ParseResult};
use lab::dispatch::{dispatch_exec, ExecRoute};
use lab::commands::clone::{clone_commands, generate_clone_directory_name, CloneError};
use lab::commands::install::{decide_install, install_block, restart_hint, InstallDecision};
use lab::commands::worktree::{dot_commands, resolve_dot_path, DotError};
use lab::commands::cd::{create_commands_for, initial_input};
use lab::entries::{has_date_prefix, is_listed_entry};
use lab::tui::{run_mode, RunMode, RunOptions};
use lab::labs::{default_labs_path, resolve_labs_path};
use lab::line_edit::{insert_char_at, remove_char_range};
use lab::script::{script_delete, script_mkdir_cd, script_mkdir_init_cd, script_worktree};
use lab::shell::Shell;
use lab::tui::app::{
    default_graduate_destination, delete_selection_for, filter_entries, graduate_project_name, inside_base, parse_u16,
    resolve_dimension, App, Entry, TerminalSize,
};
use lab::tui::input::{handle_key, KeyCode, KeyEvent, KeyModifiers};
use lab::tui::render::{format_relative_time, render_snapshot, text_width, truncate_text_from_start};
use lab::util::{dated_name, quote_path};

fn entry(name: &str) -> Entry {
    Entry {
        name: name.to_string(),
        path: format!("/tmp/labs/{name}"),
        is_symlink: false,
        mtime_secs: 0,
    }
}

fn app_with(names: &[&str], height: u16, input: Option<&str>) -> App {
    App::new(
        "/tmp/labs",
        names.iter().map(|n| entry(n)).collect(),
        input,
        TerminalSize::new(80, height),
    )
}

fn selection_shown(app: &App) -> bool {
    let total = app.total_items();
    let in_range = if total == 0 {
        app.cursor_pos == 0
    } else {
        app.cursor_pos < total
    };
    in_range
        && app.scroll_offset <= app.cursor_pos
        && app.cursor_pos < app.scroll_offset + app.visible_result_limit()
}

fn key(code: KeyCode) -> KeyEvent {
    KeyEvent::new(code, KeyModifiers::none())
}

fn ctrl(c: char) -> KeyEvent {
    KeyEvent::new(KeyCode::Char(c), KeyModifiers::control())
}

#[test]
fn test_quote_path_reads_back_through_the_shell_rules() {
    // `'"'"'` closes the single quotes, adds a quote inside double quotes,
    // and reopens them.
    assert_eq!(quote_path("a'b"), "'a'\"'\"'b'");
    assert_eq!(quote_path("$HOME `x` \\n"), "'$HOME `x` \\n'");
}

#[test]
fn test_backspace_after_insert_restores_text_and_cursor() {
    let text = "hello";
    let inserted = insert_char_at(text, 2, 'X');
    assert_eq!(inserted, "heXllo");
    assert_eq!(remove_char_range(&inserted, 2, 3), "hello");

    let mut app = app_with(&["alpha", "beta"], 24, Some("be"));
    app.move_input_back();
    let before = (app.input.clone(), app.input_cursor_pos);
    app.insert_char('t');
    assert_eq!(app.input, "bte");
    app.backspace();
    assert_eq!((app.input.clone(), app.input_cursor_pos), before);
}

#[test]
fn test_insert_past_end_appends() {
    assert_eq!(insert_char_at("ab", 10, 'c'), "abc");
}

#[test]
fn test_moves_keep_selection_shown() {
    let names: Vec<String> = (0..30).map(|i| format!("entry-{i:02}")).collect();
    let refs: Vec<&str> = names.iter().map(|s| s.as_str()).collect();
    let mut app = app_with(&refs, 10, None);
    assert!(selection_shown(&app));
    for step in 0..200 {
        match step % 7 {
            0 | 1 | 2 => app.move_down(),
            3 => app.page_down(),
            4 => app.move_up(),
            5 => app.page_up(),
            _ => {
                if step % 3 == 0 {
                    app.move_to_bottom();
                } else {
                    app.move_to_top();
                }
            }
        }
        assert!(selection_shown(&app), "step {step}: cursor {} scroll {}", app.cursor_pos, app.scroll_offset);
    }
}

#[test]
fn test_keys_keep_selection_shown() {
    let names: Vec<String> = (0..12).map(|i| format!("2025-01-{:02}-lab{i}", i + 1)).collect();
    let refs: Vec<&str> = names.iter().map(|s| s.as_str()).collect();
    let mut app = app_with(&refs, 8, None);
    let keys = [
        key(KeyCode::End),
        key(KeyCode::Char('l')),
        key(KeyCode::Char('a')),
        key(KeyCode::PageDown),
        key(KeyCode::Char('b')),
        key(KeyCode::Char('1')),
        key(KeyCode::Up),
        ctrl('w'),
        key(KeyCode::PageDown),
        key(KeyCode::Backspace),
        ctrl('n'),
        ctrl('p'),
        key(KeyCode::Home),
        ctrl('d'),
        key(KeyCode::Down),
        ctrl('d'),
        key(KeyCode::Esc),
    ];
    for k in keys {
        let _ = handle_key(&mut app, k);
        assert!(selection_shown(&app), "after {k:?}: cursor {} scroll {}", app.cursor_pos, app.scroll_offset);
    }
}

#[test]
fn test_refresh_clamps_selection_into_view() {
    let mut app = app_with(&["alpha", "beta", "gamma", "delta"], 24, None);
    app.cursor_pos = 3;
    app.scroll_offset = 3;
    app.input = "ga".to_string();
    app.input_cursor_pos = 2;
    app.refresh_filtered();
    // "gamma" and the create-new row remain.
    assert_eq!(app.total_items(), 2);
    assert_eq!(app.cursor_pos, 1);
    assert!(selection_shown(&app));
}

#[test]
fn test_toggle_twice_restores_marks() {
    let mut app = app_with(&["alpha", "beta"], 24, None);
    app.move_down();
    app.toggle_delete_mark();
    assert!(app.marks.contains(&1));
    app.toggle_delete_mark();
    assert!(app.marks.is_empty());
    assert_eq!(app.cursor_pos, 1);
}

#[test]
fn test_empty_query_matches_every_entry_in_order() {
    let entries = vec![entry("zeta"), entry("alpha"), entry("Mid")];
    let results = filter_entries(&entries, "");
    let got: Vec<(usize, Vec<usize>)> = results.iter().map(|r| (r.index, r.positions.clone())).collect();
    assert_eq!(got, vec![(0, vec![]), (1, vec![]), (2, vec![])]);
}

#[test]
fn test_match_positions_spell_the_query_case_insensitively() {
    let entries = vec![entry("Beta"), entry("alphabet"), entry("gamma")];
    let results = filter_entries(&entries, "BET");
    let got: Vec<(usize, Vec<usize>)> = results.iter().map(|r| (r.index, r.positions.clone())).collect();
    assert_eq!(got, vec![(0, vec![0, 1, 2]), (1, vec![5, 6, 7])]);
    assert!(filter_entries(&entries, "tb").is_empty());
}

#[test]
fn test_dated_names_carry_a_date_prefix() {
    let name = dated_name("2025-01-15", "my lab");
    assert_eq!(name, "2025-01-15-my lab");
    assert!(has_date_prefix(&name));
    assert!(!has_date_prefix(&dated_name("20250115", "x")));
}

#[test]
fn test_every_lab_script_ends_in_the_lab() {
    let path = "/tmp/labs/2025-01-15-x";
    for cmds in [
        script_mkdir_cd(path),
        script_mkdir_init_cd(path),
        script_worktree(path, Some("/repo"), "/cwd"),
        script_worktree(path, None, "/cwd"),
    ] {
        let n = cmds.len();
        assert_eq!(cmds[n - 3], "touch '/tmp/labs/2025-01-15-x'");
        assert_eq!(cmds[n - 2], "echo '/tmp/labs/2025-01-15-x'");
        assert_eq!(cmds[n - 1], "cd '/tmp/labs/2025-01-15-x'");
    }
}

#[test]
fn test_script_worktree_without_repo_names_the_working_directory() {
    let cmds = script_worktree("/tmp/labs/2025-01-15-feature", None, "/home/me/project");
    assert_eq!(cmds.len(), 6);
    assert!(cmds[1].contains("from /home/me/project."), "{}", cmds[1]);
    assert!(cmds[2].starts_with("/usr/bin/env sh -c 'if git rev-parse"));
    assert!(cmds[2].contains("git -C \"$repo\" worktree add --detach '/tmp/labs/2025-01-15-feature'"));
}

#[test]
fn test_create_commands_use_a_worktree_in_a_git_labs_directory() {
    let cmds = create_commands_for("/labs/2026-04-13-feature", "/labs", true);
    assert_eq!(cmds[0], "mkdir -p '/labs/2026-04-13-feature'");
    assert!(cmds[1].contains("Using git worktree"));
    assert!(cmds[2].contains("git -C '/labs' rev-parse --show-toplevel"));
    assert!(cmds[2].contains("worktree add --detach '/labs/2026-04-13-feature'"));
    let plain = create_commands_for("/labs/2026-04-13-feature", "/labs", false);
    assert_eq!(plain, script_mkdir_init_cd("/labs/2026-04-13-feature"));
}

#[test]
fn test_create_commands_make_a_new_repository_outside_git() {
    let cmds = create_commands_for("/labs/2026-04-13-feature", "/labs", false);
    assert_eq!(
        cmds,
        vec![
            "mkdir -p '/labs/2026-04-13-feature'".to_string(),
            "git init -q '/labs/2026-04-13-feature'".to_string(),
            "touch '/labs/2026-04-13-feature'".to_string(),
            "echo '/labs/2026-04-13-feature'".to_string(),
            "cd '/labs/2026-04-13-feature'".to_string(),
        ]
    );
    assert!(cmds.iter().all(|c| !c.contains("worktree add")));
}

#[test]
fn test_script_delete_exact_lines() {
    let cmds = script_delete("/labs", &vec!["a b".to_string(), "it's".to_string()]);
    assert_eq!(
        cmds,
        vec![
            "cd '/labs'".to_string(),
            "test -d 'a b' && rm -rf 'a b'".to_string(),
            "test -d 'it'\"'\"'s' && rm -rf 'it'\"'\"'s'".to_string(),
            "cd \"$OLDPWD\" 2>/dev/null || cd '/labs'".to_string(),
        ]
    );
}

#[test]
fn test_clone_errors() {
    assert_eq!(clone_commands(None, None, "/labs", "2025-11-30"), Err(CloneError::MissingUri));
    assert_eq!(clone_commands(Some(""), Some("x"), "/labs", "2025-11-30"), Err(CloneError::MissingUri));
    assert_eq!(clone_commands(Some("nope"), Some("x"), "/labs", "2025-11-30"), Err(CloneError::Unparseable));
    let cmds = clone_commands(Some("git@github.com:tobi/lab.git"), None, "/labs", "2025-11-30").unwrap();
    assert_eq!(cmds[0], "mkdir -p '/labs/2025-11-30-tobi-lab'");
}

#[test]
fn test_clone_directory_name_exact() {
    assert_eq!(
        generate_clone_directory_name("https://github.com/tobi/lab.git", None, "2025-11-30"),
        Some("2025-11-30-tobi-lab".to_string())
    );
    assert_eq!(
        generate_clone_directory_name("https://github.com/user/repo", Some("myproject"), "2025-11-30"),
        Some("2025-11-30-myproject".to_string())
    );
    assert_eq!(generate_clone_directory_name("not-a-uri", None, "2025-11-30"), None);
}

#[test]
fn test_dot_without_name_is_an_error() {
    let none: Vec<String> = Vec::new();
    assert_eq!(
        dot_commands(".", &[], "/labs", Some("/cwd"), "2025-11-30", &none),
        Err(DotError::MissingName)
    );
    assert_eq!(
        dot_commands(".", &["   ".to_string()], "/labs", Some("/cwd"), "2025-11-30", &none),
        Err(DotError::MissingName)
    );
    let cmds = dot_commands(
        ".",
        &["my".to_string(), "name".to_string()],
        "/nonexistent-labs",
        Some("/nonexistent-cwd"),
        "2025-11-30",
        &vec!["2025-11-30-my-name".to_string()],
    )
    .unwrap();
    assert_eq!(cmds[0], "mkdir -p '/nonexistent-labs/2025-11-30-my-name-2'");
}

#[test]
fn test_resolve_dot_path_uses_working_directory() {
    assert_eq!(resolve_dot_path(".", Some("/home/me/work")), "/home/me/work");
}

#[test]
fn test_install_decisions() {
    let snippet = "lab() { :; }\n";
    assert_eq!(
        decide_install(true, Some("x\n# lab shell integration\n"), false, snippet),
        InstallDecision::AlreadyInstalled
    );
    assert_eq!(decide_install(true, None, false, snippet), InstallDecision::Unreadable);
    assert_eq!(decide_install(true, Some("x\n"), true, snippet), InstallDecision::ReadOnly);
    assert_eq!(
        decide_install(false, None, false, snippet),
        InstallDecision::Append("\n# lab shell integration\nlab() { :; }\n".to_string())
    );
    assert_eq!(install_block("s"), "\n# lab shell integration\ns");
    assert_eq!(restart_hint(Shell::PowerShell, "/p"), "Restart your shell or run: . $PROFILE");
    assert_eq!(restart_hint(Shell::Zsh, "/h/.zshrc"), "Restart your shell or run: source /h/.zshrc");
}

#[test]
fn test_labs_path_resolution_order() {
    assert_eq!(resolve_labs_path(Some("~/x"), Some("/env"), Some("/home/me")), "/home/me/x");
    assert_eq!(resolve_labs_path(None, Some("/env/labs"), Some("/home/me")), "/env/labs");
    assert_eq!(resolve_labs_path(None, Some(""), Some("/home/me")), "/home/me/src/labs");
    assert_eq!(resolve_labs_path(None, None, None), "~/src/labs");
    assert_eq!(default_labs_path(Some("/home/me/")), "/home/me/src/labs");
}

#[test]
fn test_initial_input_prefers_and_type() {
    let args = vec!["my".to_string(), "query".to_string()];
    assert_eq!(initial_input(&args, None), "my query");
    assert_eq!(initial_input(&args, Some("typed")), "typed");
}

#[test]
fn test_resolve_dimension_rejects_out_of_range_override() {
    assert_eq!(parse_u16("65535"), Some(65535));
    assert_eq!(parse_u16("65536"), None);
    assert_eq!(parse_u16("+12"), Some(12));
    assert_eq!(resolve_dimension(Some("70000"), 100, 80), 100);
}

#[test]
fn test_relative_time_units_and_clock_skew() {
    assert_eq!(format_relative_time(1_000, 1_000 + 7_199), "1h ago");
    assert_eq!(format_relative_time(0, 3 * 604_800), "3w ago");
    assert_eq!(format_relative_time(2_000, 1_000), "just now");
}

#[test]
fn test_truncate_keeps_the_end() {
    assert_eq!(truncate_text_from_start("abcdef", 3), "def");
    assert_eq!(truncate_text_from_start("abc", 3), "abc");
    assert_eq!(truncate_text_from_start("a\u{1f4c1}b", 2), "b");
    assert_eq!(text_width("\u{1f4c1}x"), 3);
}

#[test]
fn test_snapshot_lines_span_the_screen() {
    let app = app_with(&["2025-11-29-project", "beta"], 10, Some("e"));
    let rendered = render_snapshot(&app, false, 0);
    assert!(rendered.starts_with("\x1b[H\x1b[J"));
    assert!(rendered.ends_with('\n'));
    let body = &rendered["\x1b[H\x1b[J".len()..];
    let lines: Vec<&str> = body.lines().collect();
    assert_eq!(lines.len(), 10);
    for line in lines {
        assert_eq!(text_width(line), 80, "{line:?}");
    }
}

#[test]
fn test_graduate_names_and_destinations() {
    assert_eq!(graduate_project_name("2025-06-01-my-experiment"), "my-experiment");
    assert_eq!(graduate_project_name("2025-06-01-"), "2025-06-01-");
    assert_eq!(graduate_project_name("plain"), "plain");
    let (dest, hint, root) = default_graduate_destination("/tmp/labs", "2025-06-01-x", None);
    assert_eq!(dest, "/tmp/x");
    assert_eq!(hint, "parent of $LAB_PATH");
    assert_eq!(root, "/tmp");
}

#[test]
fn test_inside_base_uses_whole_components() {
    assert!(inside_base("/a", "/a/b"));
    assert!(!inside_base("/a", "/ab"));
    assert!(!inside_base("/a", "/a"));
    assert!(!inside_base("/a/b", "/a"));
}

fn strings(v: &[&str]) -> Vec<String> {
    v.iter().map(|s| s.to_string()).collect()
}

#[test]
fn test_url_shorthand_routes_like_clone() {
    let uri = "https://github.com/user/repo";
    let short = dispatch_exec(&strings(&[uri, "name"]));
    let long = dispatch_exec(&strings(&["clone", uri, "name"]));
    let via_cd = dispatch_exec(&strings(&["cd", uri, "name"]));
    assert_eq!(short, long);
    assert_eq!(via_cd, long);
    assert_eq!(
        long,
        ExecRoute::Clone { uri: Some(uri.to_string()), custom_name: Some("name".to_string()) }
    );
    // A dot path wins over the URI shape.
    assert!(matches!(dispatch_exec(&strings(&[".x.git"])), ExecRoute::Dot { .. }));
    assert_eq!(dispatch_exec(&strings(&["some", "query"])), ExecRoute::Selector(strings(&["some", "query"])));
}

#[test]
fn test_help_anywhere_wins() {
    for args in [
        vec!["--path", "--help"],
        vec!["clone", "x", "-h"],
        vec!["--no-colors", "--version", "--help"],
    ] {
        assert!(matches!(parse_args(strings(&args)), ParseResult::Help(0)), "{args:?}");
    }
}

#[test]
fn test_run_mode_decisions() {
    use_run_mode_cases();
}

fn use_run_mode_cases() {
    let opts = |and_exit: bool, and_keys: Option<&'static str>, use_test_source: bool| RunOptions {
        and_exit,
        and_keys,
        use_test_source,
    };
    assert_eq!(run_mode(opts(false, None, false), false, true), RunMode::NeedsTerminal);
    assert_eq!(run_mode(opts(false, None, false), true, true), RunMode::Interactive);
    assert_eq!(run_mode(opts(true, None, true), false, false), RunMode::DrawOnce);
    assert_eq!(run_mode(opts(true, Some("DOWN"), true), false, false), RunMode::Scripted { draw_after: true });
    assert_eq!(run_mode(opts(false, None, true), false, false), RunMode::Scripted { draw_after: false });
}

#[test]
fn test_listed_entries_are_visible_directories() {
    assert!(is_listed_entry("2025-01-01-x", true));
    assert!(!is_listed_entry(".git", true));
    assert!(!is_listed_entry("notes.txt", false));
    assert!(is_listed_entry("", true));
}

#[test]
fn test_delete_selection_requires_every_target_inside_the_labs() {
    let names = || vec!["a".to_string(), "b".to_string()];
    let inside = vec![Some("/labs/a".to_string()), Some("/labs/b".to_string())];
    let sel = delete_selection_for(Some("/labs".to_string()), &inside, names()).expect("selection");
    assert_eq!(sel.base_path, "/labs");
    assert_eq!(sel.basenames, names());
    assert!(delete_selection_for(None, &inside, names()).is_none());
    assert!(delete_selection_for(Some("/labs".to_string()), &vec![], vec![]).is_none());
    let outside = vec![Some("/labs/a".to_string()), Some("/elsewhere/b".to_string())];
    assert!(delete_selection_for(Some("/labs".to_string()), &outside, names()).is_none());
    let unknown = vec![Some("/labs/a".to_string()), None];
    assert!(delete_selection_for(Some("/labs".to_string()), &unknown, names()).is_none());
    let the_base = vec![Some("/labs".to_string()), Some("/labs/b".to_string())];
    assert!(delete_selection_for(Some("/labs".to_string()), &the_base, names()).is_none());
}
