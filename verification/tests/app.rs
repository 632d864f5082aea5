use std::collections::HashSet;
use std::path::Path;

use lab::tui::app::{
    default_graduate_destination, resolve_dimension, App, Entry, Mode, Selection, TerminalSize,
};

/// Make the directory `path`; it goes away with the temporary directory
/// that holds it.
fn make_dir_at(path: &Path) {
    let name = path.file_name().unwrap();
    let d = tempfile::Builder::new()
        .prefix(name)
        .rand_bytes(0)
        .tempdir_in(path.parent().unwrap())
        .unwrap();
    let _ = d.keep();
}

fn make_entry(name: &str, _score: f64) -> Entry {
    Entry {
        name: name.to_string(),
        path: format!("/tmp/{name}"),
        is_symlink: false,
        mtime_secs: 0,
    }
}

fn make_app(input: Option<&str>) -> App {
    let mut app = App::new(
        "/tmp/labs",
        vec![
            make_entry("2025-01-01-alpha", 2.0),
            make_entry("beta", 1.0),
            make_entry("gamma", 0.5),
        ],
        input,
        TerminalSize::new(80, 24),
    );
    app.today = today();
    app
}

/// Today's local date, as the program reads it.
fn today() -> String {
    chrono::Local::now().format("%Y-%m-%d").to_string()
}

fn make_scrolling_app(entry_count: usize, height: u16) -> App {
    App::new(
        "/tmp/labs",
        (0..entry_count)
            .map(|index| {
                make_entry(
                    &format!("entry-{index:02}"),
                    entry_count as f64 - index as f64,
                )
            })
            .collect(),
        None,
        TerminalSize::new(80, height),
    )
}

#[test]
fn test_app_prefills_input_from_and_type() {
    let app = make_app(Some("beta"));
    assert_eq!(app.input, "beta");
    assert_eq!(app.input_cursor_pos, 4);
}

#[test]
fn test_create_new_name_normalizes_spaces_only_when_emitting() {
    let app = make_app(Some("new project"));
    let new_name = app.create_new_name().expect("create-new name");
    assert!(new_name.ends_with("new-project"));
    assert_eq!(app.input, "new project");
}

#[test]
fn test_create_new_name_collapses_consecutive_spaces_to_single_dash() {
    let app = make_app(Some("new  project"));
    let new_name = app.create_new_name().expect("create-new name");
    assert!(new_name.ends_with("new-project"));
}

#[test]
fn test_insert_and_backspace_update_query_and_reset_selection() {
    let mut app = make_app(None);
    app.cursor_pos = 2;
    app.insert_char('b');
    app.insert_char('e');
    app.backspace();

    assert_eq!(app.input, "b");
    assert_eq!(app.cursor_pos, 0);
    assert_eq!(app.scroll_offset, 0);
}

#[test]
fn test_move_down_clamps_to_total_items() {
    let mut app = make_app(None);
    for _ in 0..10 {
        app.move_down();
    }

    assert_eq!(app.cursor_pos, app.total_items() - 1);
}

#[test]
fn test_move_up_clamps_to_zero() {
    let mut app = make_app(None);
    app.move_down();
    app.move_up();
    app.move_up();

    assert_eq!(app.cursor_pos, 0);
    assert_eq!(app.scroll_offset, 0);
}

#[test]
fn test_move_to_top_and_bottom_clamp_to_bounds() {
    let mut app = make_scrolling_app(8, 8);

    app.move_to_bottom();
    assert_eq!(app.cursor_pos, 7);
    assert_eq!(app.scroll_offset, 5);

    app.move_to_top();
    assert_eq!(app.cursor_pos, 0);
    assert_eq!(app.scroll_offset, 0);
}

#[test]
fn test_page_navigation_uses_visible_result_limit() {
    let mut app = make_scrolling_app(20, 10);

    app.page_down();
    assert_eq!(app.cursor_pos, app.visible_result_limit());
    app.page_up();
    assert_eq!(app.cursor_pos, 0);
}

#[test]
fn test_page_navigation_clamps_at_bounds() {
    let mut app = make_scrolling_app(5, 8);

    app.page_up();
    assert_eq!(app.cursor_pos, 0);

    app.move_to_bottom();
    app.page_down();
    assert_eq!(app.cursor_pos, app.total_items() - 1);
}

#[test]
fn test_visible_result_limit_matches_header_body_footer_layout() {
    let app = App::new(
        "/tmp/labs",
        vec![make_entry("alpha", 1.0)],
        None,
        TerminalSize::new(80, 10),
    );

    assert_eq!(app.visible_result_limit(), 5);

    let tiny = App::new(
        "/tmp/labs",
        vec![make_entry("alpha", 1.0)],
        None,
        TerminalSize::new(80, 6),
    );

    assert_eq!(tiny.visible_result_limit(), 3);
}

#[test]
fn test_scroll_offset_tracks_cursor_visibility() {
    let mut app = make_scrolling_app(8, 8);

    app.move_down();
    app.move_down();
    assert_eq!(app.cursor_pos, 2);
    assert_eq!(app.scroll_offset, 0);

    app.move_down();
    assert_eq!(app.cursor_pos, 3);
    assert_eq!(app.scroll_offset, 1);

    app.move_down();
    assert_eq!(app.cursor_pos, 4);
    assert_eq!(app.scroll_offset, 2);

    app.move_up();
    app.move_up();
    app.move_up();
    assert_eq!(app.cursor_pos, 1);
    assert_eq!(app.scroll_offset, 1);

    app.move_up();
    assert_eq!(app.cursor_pos, 0);
    assert_eq!(app.scroll_offset, 0);
}

#[test]
fn test_current_selection_returns_create_path_for_virtual_row() {
    let mut app = App::new(
        "/tmp/labs",
        Vec::new(),
        Some("feature work"),
        TerminalSize::new(80, 24),
    );
    app.today = today();
    app.cursor_pos = 0;

    let selection = app.current_selection().expect("selection");
    assert_eq!(
        selection,
        Selection::Create(format!(
            "/tmp/labs/{}-feature-work",
            chrono::Local::now().format("%Y-%m-%d")
        ))
    );
}

#[test]
fn test_resolve_dimension_prefers_positive_override() {
    assert_eq!(resolve_dimension(Some("120"), 80, 24), 120);
    assert_eq!(resolve_dimension(Some("0"), 80, 24), 80);
    assert_eq!(resolve_dimension(Some("not-a-number"), 80, 24), 80);
}

#[test]
fn test_resolve_dimension_keeps_detected_size_when_narrower_than_default() {
    assert_eq!(resolve_dimension(None, 40, 80), 40);
    assert_eq!(resolve_dimension(None, 10, 24), 10);
}

#[test]
fn test_resolve_dimension_falls_back_to_default_when_detection_is_zero() {
    assert_eq!(resolve_dimension(None, 0, 80), 80);
    assert_eq!(resolve_dimension(None, 0, 24), 24);
}

#[test]
fn test_fifty_downs_on_five_item_list_clamps_to_last_entry() {
    let mut app = make_scrolling_app(5, 24);
    for _ in 0..50 {
        app.move_down();
    }

    assert_eq!(app.cursor_pos, 4);
    assert_eq!(app.scroll_offset, 0);
}

#[test]
fn test_kill_to_end_only_resets_selection_when_input_changes() {
    let mut app = make_app(Some("beta"));
    app.cursor_pos = 2;
    app.scroll_offset = 1;

    app.move_input_to_end();
    app.kill_to_end();
    assert_eq!(app.input, "beta");
    assert_eq!(app.cursor_pos, 2);
    assert_eq!(app.scroll_offset, 1);

    app.move_input_to_start();
    app.kill_to_end();
    assert!(app.input.is_empty());
    assert_eq!(app.cursor_pos, 0);
    assert_eq!(app.scroll_offset, 0);
}

#[test]
fn test_toggle_delete_mark_marks_and_unmarks_current_entry() {
    let mut app = make_app(None);

    app.move_down();
    app.toggle_delete_mark();
    assert_eq!(app.marks, HashSet::from([1]));
    assert!(app.is_delete_mode());

    app.toggle_delete_mark();
    assert!(app.marks.is_empty());
    assert_eq!(app.mode, Mode::Normal);
}

#[test]
fn test_begin_delete_confirmation_and_submit_yes_returns_selection() {
    let dir = tempfile::tempdir().expect("tempdir");
    make_dir_at(&dir.path().join("alpha"));
    let entry = Entry {
        name: "alpha".to_string(),
        path: dir.path().join("alpha").to_string_lossy().into_owned(),
        is_symlink: false,
        mtime_secs: 0,
    };
    let mut app = App::new(dir.path().to_str().unwrap(), vec![entry], None, TerminalSize::new(80, 24));

    app.toggle_delete_mark();
    app.begin_delete_confirmation();
    assert!(app.is_confirming_delete());

    for character in ['Y', 'E', 'S'] {
        app.insert_char(character);
    }

    let selection = app.submit_delete_confirmation().expect("delete selection");
    assert_eq!(
        selection.base_path,
        dir.path()
            .canonicalize()
            .expect("base realpath")
            .to_string_lossy()
            .into_owned()
    );
    assert_eq!(selection.basenames, vec!["alpha".to_string()]);
    assert!(app.marks.is_empty());
    assert_eq!(app.mode, Mode::Normal);
}

#[test]
fn test_submit_delete_confirmation_non_yes_cancels_and_clears_marks() {
    let dir = tempfile::tempdir().expect("tempdir");
    make_dir_at(&dir.path().join("alpha"));
    let entry = Entry {
        name: "alpha".to_string(),
        path: dir.path().join("alpha").to_string_lossy().into_owned(),
        is_symlink: false,
        mtime_secs: 0,
    };
    let mut app = App::new(dir.path().to_str().unwrap(), vec![entry], None, TerminalSize::new(80, 24));

    app.toggle_delete_mark();
    app.begin_delete_confirmation();
    for character in ['y', 'e', 's'] {
        app.insert_char(character);
    }

    assert!(app.submit_delete_confirmation().is_none());
    assert!(app.marks.is_empty());
    assert_eq!(app.mode, Mode::Normal);
}

#[test]
fn test_submit_delete_confirmation_rejects_targets_outside_base_path() {
    let base = tempfile::tempdir().expect("base tempdir");
    let outside = tempfile::tempdir().expect("outside tempdir");
    let entry = Entry {
        name: "outside-link".to_string(),
        path: outside.path().to_string_lossy().into_owned(),
        is_symlink: true,
        mtime_secs: 0,
    };
    let mut app = App::new(base.path().to_str().unwrap(), vec![entry], None, TerminalSize::new(80, 24));

    app.toggle_delete_mark();
    app.begin_delete_confirmation();
    for character in ['Y', 'E', 'S'] {
        app.insert_char(character);
    }

    assert!(app.submit_delete_confirmation().is_none());
    assert!(app.marks.is_empty());
    assert_eq!(app.mode, Mode::Normal);
}

#[test]
fn test_begin_rename_prefills_current_name_and_clears_delete_marks() {
    let mut app = make_app(None);
    app.move_down();
    app.toggle_delete_mark();

    app.begin_rename();

    assert!(app.marks.is_empty());
    assert!(app.is_renaming());
    let dialog = app.rename_dialog.as_ref().expect("rename dialog");
    assert_eq!(dialog.current_name, "beta");
    assert_eq!(dialog.input, "beta");
    assert_eq!(dialog.cursor_pos, 4);
}

#[test]
fn test_begin_rename_on_create_new_row_does_nothing() {
    let mut app = App::new(
        "/tmp/labs",
        Vec::new(),
        Some("new project"),
        TerminalSize::new(80, 24),
    );

    app.begin_rename();

    assert!(!app.is_renaming());
    assert!(app.rename_dialog.is_none());
}

#[test]
fn test_begin_graduate_prefills_stripped_destination_in_parent_of_labs_path() {
    let dir = tempfile::tempdir().expect("tempdir");
    let entry = Entry {
        name: "2025-06-01-my-experiment".to_string(),
        path: dir.path().join("2025-06-01-my-experiment").to_string_lossy().into_owned(),
        is_symlink: false,
        mtime_secs: 0,
    };
    let mut app = App::new(dir.path().to_str().unwrap(), vec![entry], None, TerminalSize::new(80, 24));

    app.begin_graduate();

    assert!(app.is_graduating());
    let dialog = app.graduate_dialog.as_ref().expect("graduate dialog");
    assert_eq!(dialog.current_name, "2025-06-01-my-experiment");
    assert_eq!(
        dialog.input,
        dir.path()
            .parent()
            .expect("parent")
            .join("my-experiment")
            .to_string_lossy()
    );
    assert_eq!(dialog.destination_hint, "parent of $LAB_PATH");
    assert_eq!(
        dialog.destination_root,
        dir.path().parent().expect("parent").to_string_lossy()
    );
}

#[test]
fn test_begin_graduate_without_date_prefix_keeps_full_name() {
    let dir = tempfile::tempdir().expect("tempdir");
    let entry = Entry {
        name: "plain-project".to_string(),
        path: dir.path().join("plain-project").to_string_lossy().into_owned(),
        is_symlink: false,
        mtime_secs: 0,
    };
    let mut app = App::new(dir.path().to_str().unwrap(), vec![entry], None, TerminalSize::new(80, 24));

    app.begin_graduate();

    let dialog = app.graduate_dialog.as_ref().expect("graduate dialog");
    assert!(dialog.input.ends_with("/plain-project"));
}

#[test]
fn test_default_graduate_destination_uses_lab_projects_override() {
    let labs_path = "/tmp/labs";
    let (destination, hint, root) = default_graduate_destination(
        labs_path,
        "2025-06-01-my-experiment",
        Some("/tmp/projects"),
    );

    assert_eq!(destination, "/tmp/projects/my-experiment");
    assert_eq!(hint, "$LAB_PROJECTS");
    assert_eq!(root, "/tmp/projects");
}

#[test]
fn test_submit_rename_same_name_exits_dialog_without_selection() {
    let mut app = make_app(None);
    app.begin_rename();

    let result = app.submit_rename().expect("rename result");

    assert!(result.is_none());
    assert!(!app.is_renaming());
    assert!(app.rename_dialog.is_none());
}

#[test]
fn test_submit_rename_rejects_empty_name_and_stays_in_dialog() {
    let mut app = make_app(None);
    app.begin_rename();
    app.move_input_to_start();
    app.kill_to_end();

    let error = app.submit_rename().expect_err("rename error");

    assert_eq!(error, "Name cannot be empty");
    assert!(app.is_renaming());
    assert_eq!(
        app.rename_dialog
            .as_ref()
            .and_then(|dialog| dialog.error.clone()),
        Some("Name cannot be empty".to_string())
    );
}

#[test]
fn test_submit_rename_normalizes_spaces_to_dashes() {
    let dir = tempfile::tempdir().expect("tempdir");
    let entry = Entry {
        name: "alpha".to_string(),
        path: dir.path().join("alpha").to_string_lossy().into_owned(),
        is_symlink: false,
        mtime_secs: 0,
    };
    let mut app = App::new(dir.path().to_str().unwrap(), vec![entry], None, TerminalSize::new(80, 24));
    app.begin_rename();
    app.move_input_to_start();
    app.kill_to_end();
    for character in "new  name".chars() {
        app.insert_char(character);
    }

    let selection = app
        .submit_rename()
        .expect("rename result")
        .expect("rename selection");

    assert_eq!(selection.old_name, "alpha");
    assert_eq!(selection.new_name, "new-name");
    assert_eq!(selection.base_path, dir.path().to_str().unwrap());
    assert!(!app.is_renaming());
}

#[test]
fn test_submit_rename_rejects_existing_directory_name() {
    let dir = tempfile::tempdir().expect("tempdir");
    make_dir_at(&dir.path().join("alpha"));
    make_dir_at(&dir.path().join("beta"));
    let mut app = App::new(
        dir.path().to_str().unwrap(),
        vec![
            Entry {
                name: "alpha".to_string(),
                path: dir.path().join("alpha").to_string_lossy().into_owned(),
                is_symlink: false,
                mtime_secs: 0,
            },
            Entry {
                name: "beta".to_string(),
                path: dir.path().join("beta").to_string_lossy().into_owned(),
                is_symlink: false,
                mtime_secs: 0,
            },
        ],
        None,
        TerminalSize::new(80, 24),
    );
    app.begin_rename();
    app.move_input_to_start();
    app.kill_to_end();
    for character in "beta".chars() {
        app.insert_char(character);
    }

    let error = app.submit_rename().expect_err("rename error");

    assert_eq!(error, "Directory exists: beta");
    assert!(app.is_renaming());
    assert_eq!(
        app.rename_dialog
            .as_ref()
            .and_then(|dialog| dialog.error.clone()),
        Some("Directory exists: beta".to_string())
    );
}

#[test]
fn test_begin_graduate_on_create_new_row_does_nothing() {
    let mut app = App::new(
        "/tmp/labs",
        Vec::new(),
        Some("new project"),
        TerminalSize::new(80, 24),
    );

    app.begin_graduate();

    assert!(!app.is_graduating());
    assert!(app.graduate_dialog.is_none());
}

#[test]
fn test_submit_graduate_rejects_empty_destination_and_stays_in_dialog() {
    let dir = tempfile::tempdir().expect("tempdir");
    let entry = Entry {
        name: "2025-06-01-alpha".to_string(),
        path: dir.path().join("2025-06-01-alpha").to_string_lossy().into_owned(),
        is_symlink: false,
        mtime_secs: 0,
    };
    let mut app = App::new(dir.path().to_str().unwrap(), vec![entry], None, TerminalSize::new(80, 24));
    app.begin_graduate();
    if let Some(dialog) = app.graduate_dialog.as_mut() {
        dialog.input = "   ".to_string();
        dialog.cursor_pos = 3;
    }

    let error = app.submit_graduate().expect_err("graduate error");

    assert_eq!(error, "Destination cannot be empty");
    assert!(app.is_graduating());
    assert_eq!(
        app.graduate_dialog
            .as_ref()
            .and_then(|dialog| dialog.error.clone()),
        Some("Destination cannot be empty".to_string())
    );
}

#[test]
fn test_submit_graduate_rejects_existing_destination() {
    let dir = tempfile::tempdir().expect("tempdir");
    let entry_path = dir.path().join("2025-06-01-alpha");
    make_dir_at(&entry_path);
    let dest_dir = dir.path().join("projects");
    make_dir_at(&dest_dir);
    let dest_path = dest_dir.join("alpha");
    make_dir_at(&dest_path);

    let entry = Entry {
        name: "2025-06-01-alpha".to_string(),
        path: entry_path.to_string_lossy().into_owned(),
        is_symlink: false,
        mtime_secs: 0,
    };
    let mut app = App::new(dir.path().to_str().unwrap(), vec![entry], None, TerminalSize::new(80, 24));
    app.begin_graduate();
    if let Some(dialog) = app.graduate_dialog.as_mut() {
        dialog.input = dest_path.to_string_lossy().into_owned();
        dialog.cursor_pos = dialog.input.chars().count();
    }

    let error = app.submit_graduate().expect_err("graduate error");

    assert_eq!(
        error,
        format!("Destination already exists: {}", dest_path.display())
    );
    assert!(app.is_graduating());
}

#[test]
fn test_submit_graduate_rejects_missing_parent_directory() {
    let dir = tempfile::tempdir().expect("tempdir");
    let entry = Entry {
        name: "2025-06-01-alpha".to_string(),
        path: dir.path().join("2025-06-01-alpha").to_string_lossy().into_owned(),
        is_symlink: false,
        mtime_secs: 0,
    };
    let mut app = App::new(dir.path().to_str().unwrap(), vec![entry], None, TerminalSize::new(80, 24));
    app.begin_graduate();
    let missing_parent = dir.path().join("missing-parent").join("alpha");
    if let Some(dialog) = app.graduate_dialog.as_mut() {
        dialog.input = missing_parent.to_string_lossy().into_owned();
        dialog.cursor_pos = dialog.input.chars().count();
    }

    let error = app.submit_graduate().expect_err("graduate error");

    assert_eq!(
        error,
        format!(
            "Parent directory does not exist: {}",
            missing_parent.parent().expect("parent").display()
        )
    );
    assert!(app.is_graduating());
}

#[test]
fn test_submit_graduate_returns_selection_and_closes_dialog() {
    let dir = tempfile::tempdir().expect("tempdir");
    let entry_path = dir.path().join("2025-06-01-my-experiment");
    make_dir_at(&entry_path);
    let projects_dir = dir.path().join("projects");
    make_dir_at(&projects_dir);
    let destination = projects_dir.join("graduated-project");

    let entry = Entry {
        name: "2025-06-01-my-experiment".to_string(),
        path: entry_path.to_string_lossy().into_owned(),
        is_symlink: false,
        mtime_secs: 0,
    };
    let mut app = App::new(dir.path().to_str().unwrap(), vec![entry], None, TerminalSize::new(80, 24));
    app.begin_graduate();
    if let Some(dialog) = app.graduate_dialog.as_mut() {
        dialog.input = destination.to_string_lossy().into_owned();
        dialog.cursor_pos = dialog.input.chars().count();
    }

    let selection = app
        .submit_graduate()
        .expect("graduate result")
        .expect("graduate selection");

    assert_eq!(selection.source, entry_path.to_string_lossy());
    assert_eq!(selection.dest, destination.to_string_lossy());
    assert_eq!(selection.basename, "2025-06-01-my-experiment");
    assert_eq!(selection.base_path, dir.path().to_str().unwrap());
    assert!(!app.is_graduating());
    assert!(app.graduate_dialog.is_none());
}

#[test]
fn test_delete_paths_name_the_labs_path_and_the_marked_entries_in_order() {
    let entries = vec![
        Entry {
            name: "alpha".to_string(),
            path: "/tmp/labs/alpha".to_string(),
            is_symlink: false,
            mtime_secs: 0,
        },
        Entry {
            name: "beta".to_string(),
            path: "/tmp/labs/beta".to_string(),
            is_symlink: false,
            mtime_secs: 0,
        },
    ];
    let mut app = App::new("/tmp/labs", entries, None, TerminalSize::new(80, 24));
    app.cursor_pos = 1;
    app.toggle_delete_mark();
    app.cursor_pos = 0;
    app.toggle_delete_mark();
    let (labs, paths, names) = app.delete_paths();
    assert_eq!(labs, "/tmp/labs");
    assert_eq!(paths, vec!["/tmp/labs/alpha".to_string(), "/tmp/labs/beta".to_string()]);
    assert_eq!(names, vec!["alpha".to_string(), "beta".to_string()]);
}
