use lab::dialogs::GraduateDialog;
use lab::tui::app::{App, Entry, MatchResult, Mode, TerminalSize};
use lab::tui::render::{format_relative_time, prefix_width, render_snapshot_with_colors, text_width};

/// The clock reading the screens are drawn at, in seconds since the epoch.
const NOW: u64 = 1_700_000_000;

fn make_entry(name: &str, is_symlink: bool, mtime_secs: u64) -> Entry {
    Entry {
        name: name.to_string(),
        path: format!("/tmp/{name}"),
        is_symlink,
        mtime_secs,
    }
}

fn snapshot(app: &App, colors_enabled: bool) -> String {
    render_snapshot_with_colors(
        app,
        app.terminal_size.width,
        app.terminal_size.height,
        colors_enabled,
        NOW,
    )
}

fn make_app(entries: Vec<Entry>, width: u16, height: u16, input: Option<&str>) -> App {
    App::new(
        "/tmp/labs",
        entries,
        input,
        TerminalSize::new(width, height),
    )
}

#[test]
fn test_render_snapshot_includes_full_layout() {
    let mut app = make_app(
        vec![make_entry("2025-11-29-project", false, NOW)],
        60,
        8,
        None,
    );
    app.filtered = vec![MatchResult {
        index: 0,
        score_text: format!("{:.1}", 5.0),
        positions: Vec::new(),
    }];

    let rendered = snapshot(&app, false);
    let lines = rendered.lines().collect::<Vec<_>>();

    assert_eq!(lines.len(), 8);
    assert!(lines[0].contains("🏠"));
    assert!(lines[0].contains("Lab Directory Selection"));
    assert!(lines[0].ends_with("/tmp/labs"));
    assert_eq!(lines[1], "─".repeat(60));
    assert!(lines[2].starts_with("Search: "));
    assert!(lines[3].starts_with("→ 📁 "));
    assert_eq!(lines[6], "─".repeat(60));
    assert!(lines[7].contains("Enter: Select"));
}

#[test]
fn test_render_snapshot_shows_reverse_video_cursor() {
    let app = make_app(Vec::new(), 40, 8, Some("lab"));
    let rendered = snapshot(&app, true);

    assert!(rendered.contains("lab\x1b[7m \x1b[0m"));
}

#[test]
fn test_selected_line_uses_background_and_dimmed_date_prefix() {
    let mut app = make_app(
        vec![make_entry("2025-11-29-project", false, NOW)],
        80,
        8,
        None,
    );
    app.filtered = vec![MatchResult {
        index: 0,
        score_text: format!("{:.1}", 4.2),
        positions: Vec::new(),
    }];

    let rendered = snapshot(&app, true);
    let selected_line = rendered.lines().nth(3).expect("selected line");

    assert!(selected_line.contains("\x1b[48;5;238m"));
    assert!(selected_line.contains("2025-11-29-"));
    assert!(selected_line.contains("38;5;245"));
    assert!(selected_line.contains("just now, 4.2"));
}

#[test]
fn test_matched_characters_render_bold_yellow() {
    let mut app = make_app(
        vec![make_entry("2025-11-15-beta", false, NOW)],
        80,
        8,
        None,
    );
    app.filtered = vec![MatchResult {
        index: 0,
        score_text: format!("{:.1}", 5.7),
        positions: vec![11, 12, 13],
    }];

    let rendered = snapshot(&app, true);
    let selected_line = rendered.lines().nth(3).expect("selected line");

    assert!(selected_line.contains("\x1b[1;33;48;5;238mbet\x1b[0m"));
}

#[test]
fn test_symlink_entries_render_link_icon() {
    let mut app = make_app(
        vec![make_entry("linked-project", true, NOW)],
        60,
        8,
        None,
    );
    app.filtered = vec![MatchResult {
        index: 0,
        score_text: format!("{:.1}", 3.0),
        positions: Vec::new(),
    }];

    let rendered = snapshot(&app, false);
    assert!(rendered.lines().nth(3).unwrap_or_default().contains("🔗"));
}

#[test]
fn test_delete_mode_footer_uses_danger_background_and_mark_count() {
    let mut app = make_app(
        vec![make_entry("alpha", false, NOW)],
        80,
        8,
        None,
    );
    app.filtered = vec![MatchResult {
        index: 0,
        score_text: format!("{:.1}", 3.0),
        positions: Vec::new(),
    }];
    app.marks.insert(0);

    let rendered = snapshot(&app, true);
    let footer = rendered.lines().nth(7).expect("footer line");

    assert!(footer
        .contains("DELETE MODE | 1 marked | Ctrl-D: Toggle | Enter: Confirm | Esc: Cancel"));
    assert!(footer.contains("\x1b[1;48;5;52m"));
}

#[test]
fn test_marked_entry_uses_trash_icon_and_danger_background() {
    let mut app = make_app(
        vec![make_entry("2025-11-29-project", false, NOW)],
        80,
        8,
        None,
    );
    app.filtered = vec![MatchResult {
        index: 0,
        score_text: format!("{:.1}", 3.0),
        positions: Vec::new(),
    }];
    app.marks.insert(0);

    let rendered = snapshot(&app, true);
    let line = rendered.lines().nth(3).expect("entry line");

    assert!(line.contains("🗑️"));
    assert!(line.contains("\x1b[48;5;52m"));
}

#[test]
fn test_delete_confirmation_dialog_renders_marked_names_and_prompt() {
    let mut app = make_app(
        vec![
            make_entry("alpha", false, NOW),
            make_entry("beta", false, NOW),
        ],
        80,
        8,
        None,
    );
    app.filtered = vec![
        MatchResult {
            index: 0,
            score_text: format!("{:.1}", 3.0),
            positions: Vec::new(),
        },
        MatchResult {
            index: 1,
            score_text: format!("{:.1}", 2.0),
            positions: Vec::new(),
        },
    ];
    app.marks.insert(0);
    app.marks.insert(1);
    app.begin_delete_confirmation();
    if let Some(dialog) = app.delete_confirmation.as_mut() {
        dialog.input = "YES".to_string();
        dialog.cursor_pos = 3;
    }

    let rendered = snapshot(&app, true);
    let lines = rendered.lines().collect::<Vec<_>>();

    assert!(lines[0].contains("Delete 2 directories?"));
    assert!(lines.iter().any(|line| line.contains("🗑️ alpha")));
    assert!(lines.iter().any(|line| line.contains("🗑️ beta")));
    assert!(lines
        .iter()
        .any(|line| line.contains("Type YES to confirm: ")));
    assert!(rendered.contains("YES\x1b[7m \x1b[0m"));
}

#[test]
fn test_rename_dialog_renders_title_current_name_and_prefilled_input() {
    let mut app = make_app(
        vec![make_entry("2025-11-29-project", false, NOW)],
        80,
        8,
        None,
    );
    app.filtered = vec![MatchResult {
        index: 0,
        score_text: format!("{:.1}", 3.0),
        positions: Vec::new(),
    }];
    app.begin_rename();

    let rendered = snapshot(&app, true);
    let lines = rendered.lines().collect::<Vec<_>>();

    assert!(lines[0].contains("✏️"));
    assert!(lines[0].contains("Rename directory"));
    assert!(lines
        .iter()
        .any(|line| line.contains("📁 2025-11-29-project")));
    assert!(lines.iter().any(|line| line.contains("New name: ")));
    assert!(rendered.contains("2025-11-29-project\x1b[7m \x1b[0m"));
    assert!(lines
        .last()
        .is_some_and(|line| line.contains("Enter: Confirm  Esc: Cancel")));
}

#[test]
fn test_rename_dialog_renders_validation_error() {
    let mut app = make_app(
        vec![make_entry("alpha", false, NOW)],
        80,
        10,
        None,
    );
    app.filtered = vec![MatchResult {
        index: 0,
        score_text: format!("{:.1}", 3.0),
        positions: Vec::new(),
    }];
    app.begin_rename();
    if let Some(dialog) = app.rename_dialog.as_mut() {
        dialog.input.clear();
        dialog.cursor_pos = 0;
        dialog.set_error("Name cannot be empty");
    }

    let rendered = snapshot(&app, true);

    assert!(rendered.contains("Name cannot be empty"));
}

#[test]
fn test_graduate_dialog_renders_title_destination_and_prefilled_input() {
    let mut app = make_app(
        vec![make_entry("2025-11-29-project", false, NOW)],
        90,
        10,
        None,
    );
    app.mode = Mode::Graduate;
    app.graduate_dialog = Some(GraduateDialog::new(
        "2025-11-29-project",
        "/tmp/projects/project",
        "$LAB_PROJECTS",
        "/tmp/projects",
    ));

    let rendered = snapshot(&app, true);
    let lines = rendered.lines().collect::<Vec<_>>();

    assert!(lines[0].contains("🚀"));
    assert!(lines[0].contains("Graduate lab to project"));
    assert!(lines
        .iter()
        .any(|line| line.contains("📁 2025-11-29-project")));
    assert!(lines
        .iter()
        .any(|line| line.contains("Destination ($LAB_PROJECTS: /tmp/projects)")));
    assert!(lines.iter().any(|line| line.contains("Move to: ")));
    assert!(rendered.contains("/tmp/projects/project\x1b[7m \x1b[0m"));
    assert!(lines
        .iter()
        .any(|line| line.contains("A symlink will be left in the labs directory")));
}

#[test]
fn test_graduate_dialog_renders_validation_error() {
    let mut app = make_app(
        vec![make_entry("alpha", false, NOW)],
        90,
        10,
        None,
    );
    app.mode = Mode::Graduate;
    let mut dialog = GraduateDialog::new(
        "alpha",
        "/tmp/projects/alpha",
        "parent of $LAB_PATH",
        "/tmp/projects",
    );
    dialog.set_error("Destination cannot be empty");
    app.graduate_dialog = Some(dialog);

    let rendered = snapshot(&app, true);

    assert!(rendered.contains("Destination cannot be empty"));
}

#[test]
fn test_metadata_truncates_from_left_when_space_is_limited() {
    let name = "2025-11-29-medium-length-project";
    let width = (prefix_width() + text_width(name) + 4) as u16;
    let mut app = make_app(
        vec![make_entry(name, false, NOW)],
        width,
        8,
        None,
    );
    app.filtered = vec![MatchResult {
        index: 0,
        score_text: format!("{:.1}", 3.0),
        positions: Vec::new(),
    }];

    let rendered = snapshot(&app, false);
    let line = rendered.lines().nth(3).expect("entry line");

    assert!(line.contains(name));
    assert!(line.ends_with("3.0"));
    assert!(!line.contains("just now, 3.0"));
}

#[test]
fn test_truncated_names_hide_metadata() {
    let name = "2025-11-29-extremely-long-project-name-that-needs-truncation";
    let mut app = make_app(
        vec![make_entry(name, false, NOW)],
        24,
        8,
        None,
    );
    app.filtered = vec![MatchResult {
        index: 0,
        score_text: format!("{:.1}", 3.0),
        positions: Vec::new(),
    }];

    let rendered = snapshot(&app, false);
    let line = rendered.lines().nth(3).expect("entry line");

    assert!(line.contains("…"));
    assert!(!line.contains("3.0"));
}

#[test]
fn test_truncated_selected_line_keeps_background_on_ellipsis() {
    let name = "2025-11-29-extremely-long-project-name-that-needs-truncation";
    let mut app = make_app(
        vec![make_entry(name, false, NOW)],
        24,
        8,
        None,
    );
    app.filtered = vec![MatchResult {
        index: 0,
        score_text: format!("{:.1}", 3.0),
        positions: Vec::new(),
    }];

    let rendered = snapshot(&app, true);
    let line = rendered.lines().nth(3).expect("entry line");

    let bg_start = line
        .rfind("\x1b[48;5;238m")
        .expect("selected background segment");

    assert!(line[bg_start..].contains("…"));
}

#[test]
fn test_render_snapshot_without_colors_omits_sgr_but_keeps_cursor_control() {
    let mut app = make_app(
        vec![make_entry("2025-11-29-project", false, NOW)],
        60,
        8,
        None,
    );
    app.filtered = vec![MatchResult {
        index: 0,
        score_text: format!("{:.1}", 5.0),
        positions: Vec::new(),
    }];

    let rendered = snapshot(&app, false);

    assert!(rendered.starts_with("\x1b[H\x1b[J"));
    assert!(!rendered.contains("\x1b[0m"));
    assert!(!rendered.contains("\x1b[1m"));
    assert!(!rendered.contains("\x1b[7m"));
    assert!(!rendered.contains("\x1b[33m"));
    assert!(!rendered.contains("\x1b[38;5;"));
    assert!(!rendered.contains("\x1b[48;5;"));
}

#[test]
fn test_format_relative_time_thresholds() {
    let now = NOW;

    assert_eq!(
        format_relative_time(now - 59, now),
        "just now"
    );
    assert_eq!(
        format_relative_time(now - 60, now),
        "1m ago"
    );
    assert_eq!(
        format_relative_time(now - 3_600, now),
        "1h ago"
    );
    assert_eq!(
        format_relative_time(now - 86_400, now),
        "1d ago"
    );
    assert_eq!(
        format_relative_time(now - 604_800, now),
        "1w ago"
    );
}
