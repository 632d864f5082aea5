use std::path::Path;

use lab::tui::app::{App, Entry, TerminalSize};
use lab::tui::input::{handle_key, KeyCode, KeyEvent, KeyModifiers};
use lab::tui::TuiOutcome;

/// Make the directory `path`; it goes away with the temporary directory
/// that holds it.
fn make_dir_at(path: &Path) {
    let name = path.file_name().unwrap();
    let d = tempfile::Builder::new()
        .prefix(name)
        .rand_bytes(0)
        .tempdir_in(path.parent().unwrap())
        .unwrap();
    let _ = d.keep();
}

fn make_entry(name: &str, _score: f64) -> Entry {
    Entry {
        name: name.to_string(),
        path: format!("/tmp/{name}"),
        is_symlink: false,
        mtime_secs: 0,
    }
}

fn make_app(initial_input: Option<&str>) -> App {
    let mut app = App::new(
        "/tmp/labs",
        vec![
            make_entry("2025-11-01-alpha", 2.0),
            make_entry("2025-11-15-beta", 1.5),
            make_entry("2025-11-20-gamma", 1.0),
        ],
        initial_input,
        TerminalSize::new(80, 24),
    );
    app.today = chrono::Local::now().format("%Y-%m-%d").to_string();
    app
}

fn make_scrolling_app(entry_count: usize, height: u16) -> App {
    App::new(
        "/tmp/labs",
        (0..entry_count)
            .map(|index| {
                make_entry(
                    &format!("entry-{index:02}"),
                    entry_count as f64 - index as f64,
                )
            })
            .collect(),
        None,
        TerminalSize::new(80, height),
    )
}

fn make_delete_ready_app() -> App {
    let dir = tempfile::tempdir().expect("tempdir");
    let labs_path = dir.path().to_path_buf();
    make_dir_at(&labs_path.join("alpha"));
    make_dir_at(&labs_path.join("beta"));
    std::mem::forget(dir);

    App::new(
        labs_path.to_str().unwrap(),
        vec![
            Entry {
                name: "alpha".to_string(),
                path: labs_path.join("alpha").to_string_lossy().into_owned(),
                is_symlink: false,
                mtime_secs: 0,
            },
            Entry {
                name: "beta".to_string(),
                path: labs_path.join("beta").to_string_lossy().into_owned(),
                is_symlink: false,
                mtime_secs: 0,
            },
        ],
        None,
        TerminalSize::new(80, 24),
    )
}

fn make_app_with_create_new_selected() -> App {
    let mut app = make_app(Some("alp"));
    assert_eq!(app.filtered.len(), 1);
    app.move_down();
    assert_eq!(app.current_entry_index(), None);
    app
}

#[test]
fn test_printable_chars_insert_at_cursor_and_refilter() {
    let mut app = make_app(Some("bt"));
    app.cursor_pos = 2;
    app.move_input_back();

    let outcome = handle_key(
        &mut app,
        KeyEvent::new(KeyCode::Char('e'), KeyModifiers::none()),
    );

    assert!(outcome.is_none());
    assert_eq!(app.input, "bet");
    assert_eq!(app.input_cursor_pos, 2);
    assert_eq!(app.cursor_pos, 0);
    assert_eq!(app.filtered.len(), 1);
    assert_eq!(app.entries[app.filtered[0].index].name, "2025-11-15-beta");
    assert_eq!(app.filtered[0].positions, vec![11, 12, 13]);
}

#[test]
fn test_disallowed_chars_are_silently_ignored() {
    let mut app = make_app(Some("be"));
    app.cursor_pos = 1;
    let filtered_before = app
        .filtered
        .iter()
        .map(|result| (result.index, result.positions.clone()))
        .collect::<Vec<_>>();

    let outcome = handle_key(
        &mut app,
        KeyEvent::new(KeyCode::Char('/'), KeyModifiers::none()),
    );

    assert!(outcome.is_none());
    assert_eq!(app.input, "be");
    assert_eq!(app.input_cursor_pos, 2);
    assert_eq!(app.cursor_pos, 1);
    assert_eq!(
        app.filtered
            .iter()
            .map(|result| (result.index, result.positions.clone()))
            .collect::<Vec<_>>(),
        filtered_before
    );
}

#[test]
fn test_enter_selects_current_filtered_entry() {
    let mut app = make_app(Some("bet"));

    let outcome = handle_key(&mut app, KeyEvent::new(KeyCode::Enter, KeyModifiers::none()));

    assert_eq!(
        outcome,
        Some(TuiOutcome::Selected("/tmp/2025-11-15-beta".to_string()))
    );
}

#[test]
fn test_escape_cancels_without_stdout_message_flag() {
    let mut app = make_app(None);

    let outcome = handle_key(&mut app, KeyEvent::new(KeyCode::Esc, KeyModifiers::none()));

    assert_eq!(outcome, Some(TuiOutcome::Cancelled));
}

#[test]
fn test_ctrl_c_cancels_without_stdout_message_flag() {
    let mut app = make_app(None);

    let outcome = handle_key(
        &mut app,
        KeyEvent::new(KeyCode::Char('c'), KeyModifiers::control()),
    );

    assert_eq!(outcome, Some(TuiOutcome::Cancelled));
}

#[test]
fn test_ctrl_d_toggles_delete_mark_on_current_entry() {
    let mut app = make_app(None);

    assert!(handle_key(
        &mut app,
        KeyEvent::new(KeyCode::Char('d'), KeyModifiers::control()),
    )
    .is_none());
    assert_eq!(app.marks.len(), 1);
    assert!(app.marks.contains(&0));

    assert!(handle_key(
        &mut app,
        KeyEvent::new(KeyCode::Char('d'), KeyModifiers::control()),
    )
    .is_none());
    assert!(app.marks.is_empty());
}

#[test]
fn test_ctrl_d_on_create_new_row_does_nothing() {
    let mut app = App::new(
        "/tmp/labs",
        Vec::new(),
        Some("new project"),
        TerminalSize::new(80, 24),
    );

    assert_eq!(app.total_items(), 1);
    assert!(handle_key(
        &mut app,
        KeyEvent::new(KeyCode::Char('d'), KeyModifiers::control()),
    )
    .is_none());
    assert!(app.marks.is_empty());
}

#[test]
fn test_ctrl_d_on_create_new_row_after_real_entries_does_nothing() {
    let mut app = make_app_with_create_new_selected();

    assert!(handle_key(
        &mut app,
        KeyEvent::new(KeyCode::Char('d'), KeyModifiers::control()),
    )
    .is_none());
    assert!(app.marks.is_empty());
    assert!(!app.is_delete_mode());
}

#[test]
fn test_ctrl_r_opens_rename_dialog_with_prefilled_name() {
    let mut app = make_app(None);
    app.move_down();

    let outcome = handle_key(
        &mut app,
        KeyEvent::new(KeyCode::Char('r'), KeyModifiers::control()),
    );

    assert!(outcome.is_none());
    assert!(app.is_renaming());
    let dialog = app.rename_dialog.as_ref().expect("rename dialog");
    assert_eq!(dialog.current_name, "2025-11-15-beta");
    assert_eq!(dialog.input, "2025-11-15-beta");
    assert_eq!(dialog.cursor_pos, 15);
}

#[test]
fn test_ctrl_r_on_create_new_row_does_nothing() {
    let mut app = App::new(
        "/tmp/labs",
        Vec::new(),
        Some("new project"),
        TerminalSize::new(80, 24),
    );

    let outcome = handle_key(
        &mut app,
        KeyEvent::new(KeyCode::Char('r'), KeyModifiers::control()),
    );

    assert!(outcome.is_none());
    assert!(!app.is_renaming());
}

#[test]
fn test_ctrl_r_on_create_new_row_after_real_entries_does_nothing() {
    let mut app = make_app_with_create_new_selected();

    let outcome = handle_key(
        &mut app,
        KeyEvent::new(KeyCode::Char('r'), KeyModifiers::control()),
    );

    assert!(outcome.is_none());
    assert!(!app.is_renaming());
}

#[test]
fn test_ctrl_g_opens_graduate_dialog_with_prefilled_destination() {
    let mut app = make_app(None);
    app.move_down();

    let outcome = handle_key(
        &mut app,
        KeyEvent::new(KeyCode::Char('g'), KeyModifiers::control()),
    );

    assert!(outcome.is_none());
    assert!(app.is_graduating());
    let dialog = app.graduate_dialog.as_ref().expect("graduate dialog");
    assert_eq!(dialog.current_name, "2025-11-15-beta");
    assert!(dialog.input.ends_with("/beta"));
}

#[test]
fn test_ctrl_g_on_create_new_row_does_nothing() {
    let mut app = App::new(
        "/tmp/labs",
        Vec::new(),
        Some("new project"),
        TerminalSize::new(80, 24),
    );

    let outcome = handle_key(
        &mut app,
        KeyEvent::new(KeyCode::Char('g'), KeyModifiers::control()),
    );

    assert!(outcome.is_none());
    assert!(!app.is_graduating());
}

#[test]
fn test_ctrl_g_on_create_new_row_after_real_entries_does_nothing() {
    let mut app = make_app_with_create_new_selected();

    let outcome = handle_key(
        &mut app,
        KeyEvent::new(KeyCode::Char('g'), KeyModifiers::control()),
    );

    assert!(outcome.is_none());
    assert!(!app.is_graduating());
}

#[test]
fn test_ctrl_t_returns_plain_mkdir_outcome_using_current_input() {
    let mut app = make_app(Some("alp"));
    let expected_path = Path::new(&app.labs_path)
        .join(app.create_new_name().expect("create-new name"))
        .to_string_lossy()
        .into_owned();

    let outcome = handle_key(
        &mut app,
        KeyEvent::new(KeyCode::Char('t'), KeyModifiers::control()),
    );

    assert_eq!(outcome, Some(TuiOutcome::Mkdir(expected_path)));
}

#[test]
fn test_ctrl_t_names_the_lab_with_the_given_date() {
    let mut app = make_app(Some("my  new   lab"));
    app.today = "2026-04-13".to_string();
    let before_input = app.input.clone();
    let outcome = handle_key(
        &mut app,
        KeyEvent::new(KeyCode::Char('t'), KeyModifiers::control()),
    );
    assert_eq!(
        outcome,
        Some(TuiOutcome::Mkdir("/tmp/labs/2026-04-13-my-new-lab".to_string()))
    );
    assert_eq!(app.input, before_input);
}

#[test]
fn test_ctrl_t_with_empty_query_does_nothing() {
    let mut app = make_app(None);
    let outcome = handle_key(
        &mut app,
        KeyEvent::new(KeyCode::Char('t'), KeyModifiers::control()),
    );
    assert_eq!(outcome, None);
}

#[test]
fn test_rename_enter_with_same_name_closes_dialog_without_outcome() {
    let mut app = make_app(None);
    app.begin_rename();

    let outcome = handle_key(&mut app, KeyEvent::new(KeyCode::Enter, KeyModifiers::none()));

    assert!(outcome.is_none());
    assert!(!app.is_renaming());
}

#[test]
fn test_rename_escape_and_ctrl_c_cancel_dialog_without_exiting_selector() {
    for key in [
        KeyEvent::new(KeyCode::Esc, KeyModifiers::none()),
        KeyEvent::new(KeyCode::Char('c'), KeyModifiers::control()),
    ] {
        let mut app = make_app(None);
        app.begin_rename();

        let outcome = handle_key(&mut app, key);

        assert!(outcome.is_none());
        assert!(!app.is_renaming());
    }
}

#[test]
fn test_rename_enter_with_changes_returns_rename_outcome() {
    let mut app = make_app(None);
    app.move_down();
    app.begin_rename();
    app.move_input_to_end();
    assert!(handle_key(
        &mut app,
        KeyEvent::new(KeyCode::Char('x'), KeyModifiers::none()),
    )
    .is_none());

    let outcome = handle_key(&mut app, KeyEvent::new(KeyCode::Enter, KeyModifiers::none()));

    assert_eq!(
        outcome,
        Some(TuiOutcome::Rename(lab::tui::app::RenameSelection {
            base_path: "/tmp/labs".to_string(),
            old_name: "2025-11-15-beta".to_string(),
            new_name: "2025-11-15-betax".to_string(),
        }))
    );
}

#[test]
fn test_rename_validation_error_stays_in_dialog() {
    let mut app = make_app(None);
    app.begin_rename();
    assert!(handle_key(
        &mut app,
        KeyEvent::new(KeyCode::Char('a'), KeyModifiers::control()),
    )
    .is_none());
    assert!(handle_key(
        &mut app,
        KeyEvent::new(KeyCode::Char('k'), KeyModifiers::control()),
    )
    .is_none());

    let outcome = handle_key(&mut app, KeyEvent::new(KeyCode::Enter, KeyModifiers::none()));

    assert!(outcome.is_none());
    assert!(app.is_renaming());
    assert_eq!(
        app.rename_dialog
            .as_ref()
            .and_then(|dialog| dialog.error.clone()),
        Some("Name cannot be empty".to_string())
    );
}

#[test]
fn test_graduate_enter_with_valid_destination_returns_graduate_outcome() {
    let dir = tempfile::tempdir().expect("tempdir");
    let entry_path = dir.path().join("2025-11-15-beta");
    make_dir_at(&entry_path);
    let entry = Entry {
        name: "2025-11-15-beta".to_string(),
        path: entry_path.to_string_lossy().into_owned(),
        is_symlink: false,
        mtime_secs: 0,
    };
    let mut app = App::new(dir.path().to_str().unwrap(), vec![entry], None, TerminalSize::new(80, 24));
    app.begin_graduate();
    let destination = dir.path().join("projects").join("graduated-beta");
    make_dir_at(destination.parent().expect("parent"));
    if let Some(dialog) = app.graduate_dialog.as_mut() {
        dialog.input = destination.to_string_lossy().into_owned();
        dialog.cursor_pos = dialog.input.chars().count();
    }

    let outcome = handle_key(&mut app, KeyEvent::new(KeyCode::Enter, KeyModifiers::none()));

    assert_eq!(
        outcome,
        Some(TuiOutcome::Graduate(lab::tui::app::GraduateSelection {
            source: entry_path.to_string_lossy().into_owned(),
            dest: destination.to_string_lossy().into_owned(),
            basename: "2025-11-15-beta".to_string(),
            base_path: dir.path().to_string_lossy().into_owned(),
        }))
    );
}

#[test]
fn test_graduate_validation_error_stays_in_dialog() {
    let mut app = make_app(None);
    app.begin_graduate();
    assert!(handle_key(
        &mut app,
        KeyEvent::new(KeyCode::Char('a'), KeyModifiers::control()),
    )
    .is_none());
    assert!(handle_key(
        &mut app,
        KeyEvent::new(KeyCode::Char('k'), KeyModifiers::control()),
    )
    .is_none());

    let outcome = handle_key(&mut app, KeyEvent::new(KeyCode::Enter, KeyModifiers::none()));

    assert!(outcome.is_none());
    assert!(app.is_graduating());
    assert_eq!(
        app.graduate_dialog
            .as_ref()
            .and_then(|dialog| dialog.error.clone()),
        Some("Destination cannot be empty".to_string())
    );
}

#[test]
fn test_graduate_escape_and_ctrl_c_cancel_dialog_without_exiting_selector() {
    for key in [
        KeyEvent::new(KeyCode::Esc, KeyModifiers::none()),
        KeyEvent::new(KeyCode::Char('c'), KeyModifiers::control()),
    ] {
        let mut app = make_app(None);
        app.begin_graduate();

        let outcome = handle_key(&mut app, key);

        assert!(outcome.is_none());
        assert!(!app.is_graduating());
    }
}

#[test]
fn test_graduate_line_editing_uses_ctrl_bindings() {
    let mut app = make_app(None);
    app.begin_graduate();

    assert!(handle_key(
        &mut app,
        KeyEvent::new(KeyCode::Char('a'), KeyModifiers::control()),
    )
    .is_none());
    assert!(handle_key(
        &mut app,
        KeyEvent::new(KeyCode::Char('k'), KeyModifiers::control()),
    )
    .is_none());
    for character in "/tmp/new project".chars() {
        assert!(handle_key(
            &mut app,
            KeyEvent::new(KeyCode::Char(character), KeyModifiers::none()),
        )
        .is_none());
    }
    assert!(handle_key(
        &mut app,
        KeyEvent::new(KeyCode::Char('w'), KeyModifiers::control()),
    )
    .is_none());
    assert!(handle_key(
        &mut app,
        KeyEvent::new(KeyCode::Char('~'), KeyModifiers::none()),
    )
    .is_none());

    let dialog = app.graduate_dialog.as_ref().expect("graduate dialog");
    assert_eq!(dialog.input, "/tmp/new ~");
    assert_eq!(dialog.cursor_pos, 10);
}

#[test]
fn test_rename_line_editing_uses_ctrl_bindings() {
    let mut app = make_app(None);
    app.begin_rename();

    assert!(handle_key(
        &mut app,
        KeyEvent::new(KeyCode::Char('a'), KeyModifiers::control()),
    )
    .is_none());
    assert!(handle_key(
        &mut app,
        KeyEvent::new(KeyCode::Char('k'), KeyModifiers::control()),
    )
    .is_none());
    for character in "new name".chars() {
        assert!(handle_key(
            &mut app,
            KeyEvent::new(KeyCode::Char(character), KeyModifiers::none()),
        )
        .is_none());
    }
    assert!(handle_key(
        &mut app,
        KeyEvent::new(KeyCode::Char('w'), KeyModifiers::control()),
    )
    .is_none());
    assert!(handle_key(
        &mut app,
        KeyEvent::new(KeyCode::Char('/'), KeyModifiers::none()),
    )
    .is_none());

    let dialog = app.rename_dialog.as_ref().expect("rename dialog");
    assert_eq!(dialog.input, "new /");
    assert_eq!(dialog.cursor_pos, 5);
}

#[test]
fn test_escape_in_delete_mode_clears_marks_without_exiting_immediately() {
    let mut app = make_app(None);
    app.toggle_delete_mark();

    let outcome = handle_key(&mut app, KeyEvent::new(KeyCode::Esc, KeyModifiers::none()));

    assert!(outcome.is_none());
    assert!(app.marks.is_empty());
    assert!(!app.is_delete_mode());
}

#[test]
fn test_enter_in_delete_mode_opens_confirmation_and_yes_returns_delete_outcome() {
    let mut app = make_delete_ready_app();

    assert!(handle_key(
        &mut app,
        KeyEvent::new(KeyCode::Char('d'), KeyModifiers::control()),
    )
    .is_none());
    assert!(handle_key(&mut app, KeyEvent::new(KeyCode::Enter, KeyModifiers::none())).is_none());
    assert!(app.is_confirming_delete());

    for character in ['Y', 'E', 'S'] {
        assert!(handle_key(
            &mut app,
            KeyEvent::new(KeyCode::Char(character), KeyModifiers::none()),
        )
        .is_none());
    }

    let outcome = handle_key(&mut app, KeyEvent::new(KeyCode::Enter, KeyModifiers::none()));
    assert_eq!(
        outcome,
        Some(TuiOutcome::Delete(lab::tui::app::DeleteSelection {
            base_path: Path::new(&app.labs_path)
                .canonicalize()
                .expect("base realpath")
                .to_string_lossy()
                .into_owned(),
            basenames: vec!["alpha".to_string()],
        }))
    );
}

#[test]
fn test_delete_confirmation_line_editing_uses_ctrl_bindings() {
    let mut app = make_delete_ready_app();
    app.toggle_delete_mark();
    app.begin_delete_confirmation();

    for character in "YEXX".chars() {
        assert!(handle_key(
            &mut app,
            KeyEvent::new(KeyCode::Char(character), KeyModifiers::none()),
        )
        .is_none());
    }
    assert!(handle_key(
        &mut app,
        KeyEvent::new(KeyCode::Char('a'), KeyModifiers::control()),
    )
    .is_none());
    assert!(handle_key(
        &mut app,
        KeyEvent::new(KeyCode::Char('f'), KeyModifiers::control()),
    )
    .is_none());
    assert!(handle_key(
        &mut app,
        KeyEvent::new(KeyCode::Char('k'), KeyModifiers::control()),
    )
    .is_none());

    if let Some(dialog) = app.delete_confirmation.as_ref() {
        assert_eq!(dialog.input, "Y");
        assert_eq!(dialog.cursor_pos, 1);
    } else {
        panic!("delete confirmation should remain active");
    }
}

#[test]
fn test_escape_in_delete_confirmation_clears_marks_and_stays_in_selector() {
    let mut app = make_app(None);
    app.toggle_delete_mark();
    app.begin_delete_confirmation();

    let outcome = handle_key(&mut app, KeyEvent::new(KeyCode::Esc, KeyModifiers::none()));

    assert!(outcome.is_none());
    assert!(app.marks.is_empty());
    assert!(!app.is_confirming_delete());
}

#[test]
fn test_down_bindings_move_selection_down() {
    let down_keys = [
        KeyEvent::new(KeyCode::Down, KeyModifiers::none()),
        KeyEvent::new(KeyCode::Char('n'), KeyModifiers::control()),
        KeyEvent::new(KeyCode::Char('j'), KeyModifiers::control()),
    ];

    for key in down_keys {
        let mut app = make_app(None);
        let outcome = handle_key(&mut app, key);

        assert!(outcome.is_none());
        assert_eq!(app.cursor_pos, 1);
    }
}

#[test]
fn test_up_bindings_move_selection_up() {
    let up_keys = [
        KeyEvent::new(KeyCode::Up, KeyModifiers::none()),
        KeyEvent::new(KeyCode::Char('p'), KeyModifiers::control()),
    ];

    for key in up_keys {
        let mut app = make_app(None);
        app.move_down();
        app.move_down();

        let outcome = handle_key(&mut app, key);

        assert!(outcome.is_none());
        assert_eq!(app.cursor_pos, 1);
    }
}

#[test]
fn test_home_end_and_page_keys_use_navigation_methods() {
    let mut app = make_scrolling_app(8, 8);

    assert!(handle_key(&mut app, KeyEvent::new(KeyCode::End, KeyModifiers::none())).is_none());
    assert_eq!(app.cursor_pos, app.total_items() - 1);
    assert_eq!(app.scroll_offset, 5);

    assert!(handle_key(&mut app, KeyEvent::new(KeyCode::Home, KeyModifiers::none())).is_none());
    assert_eq!(app.cursor_pos, 0);
    assert_eq!(app.scroll_offset, 0);

    assert!(handle_key(
        &mut app,
        KeyEvent::new(KeyCode::PageDown, KeyModifiers::none())
    )
    .is_none());
    assert_eq!(app.cursor_pos, app.visible_result_limit());
    assert_eq!(app.scroll_offset, 1);

    assert!(handle_key(&mut app, KeyEvent::new(KeyCode::PageUp, KeyModifiers::none())).is_none());
    assert_eq!(app.cursor_pos, 0);
    assert_eq!(app.scroll_offset, 0);
}

#[test]
fn test_ctrl_a_e_b_and_f_move_input_cursor_within_bounds() {
    let mut app = make_app(Some("beta"));

    assert!(handle_key(
        &mut app,
        KeyEvent::new(KeyCode::Char('a'), KeyModifiers::control()),
    )
    .is_none());
    assert_eq!(app.input_cursor_pos, 0);

    assert!(handle_key(
        &mut app,
        KeyEvent::new(KeyCode::Char('b'), KeyModifiers::control()),
    )
    .is_none());
    assert_eq!(app.input_cursor_pos, 0);

    assert!(handle_key(
        &mut app,
        KeyEvent::new(KeyCode::Char('f'), KeyModifiers::control()),
    )
    .is_none());
    assert_eq!(app.input_cursor_pos, 1);

    assert!(handle_key(
        &mut app,
        KeyEvent::new(KeyCode::Char('e'), KeyModifiers::control()),
    )
    .is_none());
    assert_eq!(app.input_cursor_pos, 4);

    assert!(handle_key(
        &mut app,
        KeyEvent::new(KeyCode::Char('f'), KeyModifiers::control()),
    )
    .is_none());
    assert_eq!(app.input_cursor_pos, 4);
}

#[test]
fn test_backspace_re_evaluates_matches_after_deleting_before_cursor() {
    let mut app = make_app(Some("betaa"));
    app.cursor_pos = 2;
    app.scroll_offset = 1;

    let outcome = handle_key(
        &mut app,
        KeyEvent::new(KeyCode::Backspace, KeyModifiers::none()),
    );

    assert!(outcome.is_none());
    assert_eq!(app.input, "beta");
    assert_eq!(app.input_cursor_pos, 4);
    assert_eq!(app.cursor_pos, 0);
    assert_eq!(app.scroll_offset, 0);
    assert_eq!(app.filtered.len(), 1);
    assert_eq!(app.entries[app.filtered[0].index].name, "2025-11-15-beta");
}

#[test]
fn test_ctrl_k_kills_to_end_and_re_evaluates_matches() {
    let mut app = make_app(Some("alphabeta"));
    app.cursor_pos = 2;
    app.scroll_offset = 1;
    app.input_cursor_pos = 5;

    let outcome = handle_key(
        &mut app,
        KeyEvent::new(KeyCode::Char('k'), KeyModifiers::control()),
    );

    assert!(outcome.is_none());
    assert_eq!(app.input, "alpha");
    assert_eq!(app.input_cursor_pos, 5);
    assert_eq!(app.cursor_pos, 0);
    assert_eq!(app.scroll_offset, 0);
    assert_eq!(app.filtered.len(), 1);
    assert_eq!(app.entries[app.filtered[0].index].name, "2025-11-01-alpha");
}

#[test]
fn test_ctrl_w_deletes_previous_word_but_keeps_boundary_characters() {
    let mut app = make_app(Some("hello-world"));
    app.cursor_pos = 2;
    app.scroll_offset = 1;

    let outcome = handle_key(
        &mut app,
        KeyEvent::new(KeyCode::Char('w'), KeyModifiers::control()),
    );

    assert!(outcome.is_none());
    assert_eq!(app.input, "hello-");
    assert_eq!(app.input_cursor_pos, 6);
    assert_eq!(app.cursor_pos, 0);
    assert_eq!(app.scroll_offset, 0);
}

#[test]
fn test_ctrl_k_without_buffer_change_keeps_selection_position() {
    let mut app = make_app(Some("beta"));
    app.cursor_pos = 2;
    app.move_input_to_end();

    let outcome = handle_key(
        &mut app,
        KeyEvent::new(KeyCode::Char('k'), KeyModifiers::control()),
    );

    assert!(outcome.is_none());
    assert_eq!(app.input, "beta");
    assert_eq!(app.cursor_pos, 2);
}

#[test]
fn test_ctrl_h_aliases_backspace_behavior() {
    let mut app = make_app(Some("betaa"));

    let outcome = handle_key(
        &mut app,
        KeyEvent::new(KeyCode::Char('h'), KeyModifiers::control()),
    );

    assert!(outcome.is_none());
    assert_eq!(app.input, "beta");
    assert_eq!(app.input_cursor_pos, 4);
    assert_eq!(app.filtered.len(), 1);
    assert_eq!(app.entries[app.filtered[0].index].name, "2025-11-15-beta");
}
