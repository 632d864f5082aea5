//! Key handling for the selector.
//!
//! Each key updates the [`App`] state and may finish the selector with a
//! [`TuiOutcome`]. What a key does depends on the open dialog, if any.

use vstd::prelude::*;
use crate::line_edit::EditOp;
use crate::text::joined;
use crate::tui::app::{selection_shown, App, Mode, Selection};
use crate::tui::TuiOutcome;
use crate::words::collapse_spaces;

verus! {

/// A key, as the terminal reports it.
#[derive(Debug, Clone, Copy, PartialEq, Eq, Structural)]
pub enum KeyCode {
    /// Backspace.
    Backspace,
    /// Enter.
    Enter,
    /// Left arrow.
    Left,
    /// Right arrow.
    Right,
    /// Up arrow.
    Up,
    /// Down arrow.
    Down,
    /// Home.
    Home,
    /// End.
    End,
    /// Page up.
    PageUp,
    /// Page down.
    PageDown,
    /// Tab.
    Tab,
    /// Shift-tab.
    BackTab,
    /// Delete.
    Delete,
    /// Escape.
    Esc,
    /// A character.
    Char(char),
    /// Any other key.
    Other,
}

/// Modifier keys held with a key.
#[derive(Debug, Clone, Copy, PartialEq, Eq, Structural)]
pub struct KeyModifiers {
    /// Control is held.
    pub control: bool,
    /// Shift is held.
    pub shift: bool,
}

impl KeyModifiers {
    /// No modifier.
    pub fn none() -> (r: Self)
        ensures
            !r.control && !r.shift,
    {
        KeyModifiers { control: false, shift: false }
    }

    /// Control alone.
    pub fn control() -> (r: Self)
        ensures
            r.control && !r.shift,
    {
        KeyModifiers { control: true, shift: false }
    }

    /// Shift alone.
    pub fn shift() -> (r: Self)
        ensures
            !r.control && r.shift,
    {
        KeyModifiers { control: false, shift: true }
    }
}

/// A key press.
#[derive(Debug, Clone, Copy, PartialEq, Eq, Structural)]
pub struct KeyEvent {
    /// The key.
    pub code: KeyCode,
    /// The modifiers held with it.
    pub modifiers: KeyModifiers,
}

impl KeyEvent {
    /// A key press with the given modifiers.
    pub fn new(code: KeyCode, modifiers: KeyModifiers) -> (r: Self)
        ensures
            r.code == code,
            r.modifiers == modifiers,
    {
        KeyEvent { code, modifiers }
    }
}

/// The letter of a control chord, ignoring case.
pub open spec fn control_letter(c: char) -> char {
    if 'A' <= c && c <= 'Z' {
        (c as int + 32) as char
    } else {
        c
    }
}

/// What the selector finishes with for a selection.
pub open spec fn spec_selection_outcome(selection: Option<Selection>) -> TuiOutcome {
    match selection {
        Some(Selection::Existing(path)) => TuiOutcome::Selected(path),
        Some(Selection::Create(path)) => TuiOutcome::Create(path),
        None => TuiOutcome::Cancelled,
    }
}

/// What the selector finishes with for a selection.
pub fn selection_outcome(selection: Option<Selection>) -> (r: TuiOutcome)
    ensures
        r == spec_selection_outcome(selection),
{
    match selection {
        Some(Selection::Existing(path)) => TuiOutcome::Selected(path),
        Some(Selection::Create(path)) => TuiOutcome::Create(path),
        None => TuiOutcome::Cancelled,
    }
}

/// `out` asks for a plain new directory named after the input and dated
/// `a.today`, or is nothing when the input is empty.
pub open spec fn mkdir_outcome(a: App, out: Option<TuiOutcome>) -> bool {
    &&& (a.input@.len() == 0 ==> out is None)
    &&& (a.input@.len() > 0 ==> (out matches Some(TuiOutcome::Mkdir(p)) && p@ == joined(
        a.labs_path@,
        a.new_name(),
    )))
}

/// `b` is `a` after `op` on the line being edited, and the selector goes on.
pub open spec fn edit_key(a: App, b: App, out: Option<TuiOutcome>, op: EditOp) -> bool {
    a.edited(b, op) && out is None
}

/// Nothing changes and the selector goes on.
pub open spec fn ignored(a: App, b: App, out: Option<TuiOutcome>) -> bool {
    b == a && out is None
}

/// A control chord in normal mode.
pub open spec fn normal_control_key(a: App, c: char, b: App, out: Option<TuiOutcome>) -> bool {
    let l = control_letter(c);
    if l == 'a' {
        edit_key(a, b, out, EditOp::ToStart)
    } else if l == 'b' {
        edit_key(a, b, out, EditOp::Back)
    } else if l == 'c' {
        if !a.marks@.is_empty() {
            a.marks_cleared(b) && out is None
        } else {
            b == a && out == Some(TuiOutcome::Cancelled)
        }
    } else if l == 'd' {
        a.toggled(b) && out is None
    } else if l == 'e' {
        edit_key(a, b, out, EditOp::ToEnd)
    } else if l == 'f' {
        edit_key(a, b, out, EditOp::Forward)
    } else if l == 'g' {
        a.graduate_begun(b) && out is None
    } else if l == 'h' {
        edit_key(a, b, out, EditOp::Backspace)
    } else if l == 'j' || l == 'n' {
        a.moved_to(b, a.down_target()) && out is None
    } else if l == 'k' {
        edit_key(a, b, out, EditOp::KillToEnd)
    } else if l == 'p' {
        a.moved_to(b, a.up_target()) && out is None
    } else if l == 'r' {
        a.rename_begun(b) && out is None
    } else if l == 't' {
        b == a && mkdir_outcome(a, out)
    } else if l == 'w' {
        edit_key(a, b, out, EditOp::DeleteWord)
    } else {
        ignored(a, b, out)
    }
}

/// A key in normal mode.
pub open spec fn normal_key(a: App, key: KeyEvent, b: App, out: Option<TuiOutcome>) -> bool {
    match key.code {
        KeyCode::Enter => if !a.marks@.is_empty() {
            a.delete_begun(b) && out is None
        } else {
            b == a && exists|sel: Option<Selection>|
                a.selects(sel) && out == Some(spec_selection_outcome(sel))
        },
        KeyCode::Esc => if !a.marks@.is_empty() {
            a.marks_cleared(b) && out is None
        } else {
            b == a && out == Some(TuiOutcome::Cancelled)
        },
        KeyCode::Backspace => edit_key(a, b, out, EditOp::Backspace),
        KeyCode::Up => a.moved_to(b, a.up_target()) && out is None,
        KeyCode::Down => a.moved_to(b, a.down_target()) && out is None,
        KeyCode::Home => b == (App { cursor_pos: 0, scroll_offset: 0, ..a }) && out is None,
        KeyCode::End => a.moved_to(b, a.bottom_target()) && out is None,
        KeyCode::PageUp => a.moved_to(b, a.page_up_target()) && out is None,
        KeyCode::PageDown => a.moved_to(b, a.page_down_target()) && out is None,
        KeyCode::Char(c) => if key.modifiers.control {
            normal_control_key(a, c, b, out)
        } else {
            edit_key(a, b, out, EditOp::Insert(c))
        },
        _ => ignored(a, b, out),
    }
}

/// A control chord that edits the line of an open dialog; `cancel` is what
/// `c` does.
pub open spec fn dialog_control_key(a: App, c: char, b: App, out: Option<TuiOutcome>, cancelled: bool) -> bool {
    let l = control_letter(c);
    if l == 'a' {
        edit_key(a, b, out, EditOp::ToStart)
    } else if l == 'b' {
        edit_key(a, b, out, EditOp::Back)
    } else if l == 'c' {
        cancelled && out is None
    } else if l == 'e' {
        edit_key(a, b, out, EditOp::ToEnd)
    } else if l == 'f' {
        edit_key(a, b, out, EditOp::Forward)
    } else if l == 'h' {
        edit_key(a, b, out, EditOp::Backspace)
    } else if l == 'k' {
        edit_key(a, b, out, EditOp::KillToEnd)
    } else if l == 'w' {
        edit_key(a, b, out, EditOp::DeleteWord)
    } else {
        ignored(a, b, out)
    }
}

/// A key while the rename dialog is open.
pub open spec fn rename_key(a: App, key: KeyEvent, b: App, out: Option<TuiOutcome>) -> bool {
    let cancelled = b == (App { mode: Mode::Normal, rename_dialog: None, ..a });
    match key.code {
        KeyCode::Enter => exists|r: Result<Option<crate::tui::app::RenameSelection>, String>|
            a.rename_submitted(b, r) && out == match r {
                Ok(Some(sel)) => Some(TuiOutcome::Rename(sel)),
                _ => None,
            },
        KeyCode::Esc => cancelled && out is None,
        KeyCode::Backspace => edit_key(a, b, out, EditOp::Backspace),
        KeyCode::Char(c) => if key.modifiers.control {
            dialog_control_key(a, c, b, out, cancelled)
        } else {
            edit_key(a, b, out, EditOp::Insert(c))
        },
        _ => ignored(a, b, out),
    }
}

/// A key while the graduate dialog is open.
pub open spec fn graduate_key(a: App, key: KeyEvent, b: App, out: Option<TuiOutcome>) -> bool {
    let cancelled = b == (App { mode: Mode::Normal, graduate_dialog: None, ..a });
    match key.code {
        KeyCode::Enter => exists|r: Result<Option<crate::tui::app::GraduateSelection>, String>|
            a.graduate_submitted(b, r) && out == match r {
                Ok(Some(sel)) => Some(TuiOutcome::Graduate(sel)),
                _ => None,
            },
        KeyCode::Esc => cancelled && out is None,
        KeyCode::Backspace => edit_key(a, b, out, EditOp::Backspace),
        KeyCode::Char(c) => if key.modifiers.control {
            dialog_control_key(a, c, b, out, cancelled)
        } else {
            edit_key(a, b, out, EditOp::Insert(c))
        },
        _ => ignored(a, b, out),
    }
}

/// A key while the delete confirmation is open.
pub open spec fn delete_confirmation_key(a: App, key: KeyEvent, b: App, out: Option<TuiOutcome>) -> bool {
    match key.code {
        KeyCode::Enter => exists|r: Option<crate::tui::app::DeleteSelection>|
            a.delete_submitted(b, r) && out == match r {
                Some(sel) => Some(TuiOutcome::Delete(sel)),
                None => None,
            },
        KeyCode::Esc => a.marks_cleared(b) && out is None,
        KeyCode::Backspace => edit_key(a, b, out, EditOp::Backspace),
        KeyCode::Left => edit_key(a, b, out, EditOp::Back),
        KeyCode::Right => edit_key(a, b, out, EditOp::Forward),
        KeyCode::Home => edit_key(a, b, out, EditOp::ToStart),
        KeyCode::End => edit_key(a, b, out, EditOp::ToEnd),
        KeyCode::Char(c) => if key.modifiers.control {
            dialog_control_key(a, c, b, out, a.marks_cleared(b))
        } else {
            edit_key(a, b, out, EditOp::Insert(c))
        },
        _ => ignored(a, b, out),
    }
}

/// What a key does to the selector, by mode.
pub open spec fn key_handled(a: App, key: KeyEvent, b: App, out: Option<TuiOutcome>) -> bool {
    match a.mode {
        Mode::Rename => rename_key(a, key, b, out),
        Mode::Graduate => graduate_key(a, key, b, out),
        Mode::DeleteConfirm => delete_confirmation_key(a, key, b, out),
        Mode::Normal => normal_key(a, key, b, out),
    }
}

/// Handle a single key event for the selector.
pub fn handle_key(app: &mut App, key: KeyEvent) -> (out: Option<TuiOutcome>)
    requires
        old(app).wf(),
        old(app).has_room(),
    ensures
        final(app).wf(),
        key_handled(*old(app), key, *final(app), out),
{
    if app.is_renaming() {
        return handle_rename_key(app, key);
    }
    if app.is_graduating() {
        return handle_graduate_key(app, key);
    }
    if app.is_confirming_delete() {
        return handle_delete_confirmation_key(app, key);
    }
    match key.code {
        KeyCode::Enter => {
            if app.is_delete_mode() {
                app.begin_delete_confirmation();
                None
            } else {
                let selection = app.current_selection();
                Some(selection_outcome(selection))
            }
        },
        KeyCode::Esc => {
            if app.is_delete_mode() {
                app.clear_delete_marks();
                None
            } else {
                Some(TuiOutcome::Cancelled)
            }
        },
        KeyCode::Backspace => {
            app.backspace();
            None
        },
        KeyCode::Up => {
            app.move_up();
            None
        },
        KeyCode::Down => {
            app.move_down();
            None
        },
        KeyCode::Home => {
            app.move_to_top();
            None
        },
        KeyCode::End => {
            app.move_to_bottom();
            None
        },
        KeyCode::PageUp => {
            app.page_up();
            None
        },
        KeyCode::PageDown => {
            app.page_down();
            None
        },
        KeyCode::Char(character) => {
            if key.modifiers.control {
                handle_control_key(app, character)
            } else {
                app.insert_char(character);
                None
            }
        },
        _ => None,
    }
}

fn handle_rename_key(app: &mut App, key: KeyEvent) -> (out: Option<TuiOutcome>)
    requires
        old(app).wf(),
        old(app).has_room(),
        old(app).mode == Mode::Rename,
    ensures
        final(app).wf(),
        rename_key(*old(app), key, *final(app), out),
{
    match key.code {
        KeyCode::Enter => {
            let r = app.submit_rename();
            match r {
                Ok(Some(selection)) => Some(TuiOutcome::Rename(selection)),
                _ => None,
            }
        },
        KeyCode::Esc => {
            app.cancel_rename();
            None
        },
        KeyCode::Backspace => {
            app.backspace();
            None
        },
        KeyCode::Char(character) => {
            if key.modifiers.control {
                handle_rename_control_key(app, character)
            } else {
                app.insert_char(character);
                None
            }
        },
        _ => None,
    }
}

fn handle_graduate_key(app: &mut App, key: KeyEvent) -> (out: Option<TuiOutcome>)
    requires
        old(app).wf(),
        old(app).has_room(),
        old(app).mode == Mode::Graduate,
    ensures
        final(app).wf(),
        graduate_key(*old(app), key, *final(app), out),
{
    match key.code {
        KeyCode::Enter => {
            let r = app.submit_graduate();
            match r {
                Ok(Some(selection)) => Some(TuiOutcome::Graduate(selection)),
                _ => None,
            }
        },
        KeyCode::Esc => {
            app.cancel_graduate();
            None
        },
        KeyCode::Backspace => {
            app.backspace();
            None
        },
        KeyCode::Char(character) => {
            if key.modifiers.control {
                handle_graduate_control_key(app, character)
            } else {
                app.insert_char(character);
                None
            }
        },
        _ => None,
    }
}

fn handle_delete_confirmation_key(app: &mut App, key: KeyEvent) -> (out: Option<TuiOutcome>)
    requires
        old(app).wf(),
        old(app).has_room(),
        old(app).mode == Mode::DeleteConfirm,
    ensures
        final(app).wf(),
        delete_confirmation_key(*old(app), key, *final(app), out),
{
    match key.code {
        KeyCode::Enter => {
            let r = app.submit_delete_confirmation();
            match r {
                Some(selection) => Some(TuiOutcome::Delete(selection)),
                None => None,
            }
        },
        KeyCode::Esc => {
            app.clear_delete_marks();
            None
        },
        KeyCode::Backspace => {
            app.backspace();
            None
        },
        KeyCode::Left => {
            app.move_input_back();
            None
        },
        KeyCode::Right => {
            app.move_input_forward();
            None
        },
        KeyCode::Home => {
            app.move_input_to_start();
            None
        },
        KeyCode::End => {
            app.move_input_to_end();
            None
        },
        KeyCode::Char(character) => {
            if key.modifiers.control {
                handle_delete_confirmation_control_key(app, character)
            } else {
                app.insert_char(character);
                None
            }
        },
        _ => None,
    }
}

fn handle_control_key(app: &mut App, character: char) -> (out: Option<TuiOutcome>)
    requires
        old(app).wf(),
        old(app).mode == Mode::Normal,
    ensures
        final(app).wf(),
        normal_control_key(*old(app), character, *final(app), out),
{
    match character {
        'a' | 'A' => {
            app.move_input_to_start();
            None
        },
        'b' | 'B' => {
            app.move_input_back();
            None
        },
        'c' | 'C' => {
            if app.is_delete_mode() {
                app.clear_delete_marks();
                None
            } else {
                Some(TuiOutcome::Cancelled)
            }
        },
        'd' | 'D' => {
            app.toggle_delete_mark();
            None
        },
        'e' | 'E' => {
            app.move_input_to_end();
            None
        },
        'f' | 'F' => {
            app.move_input_forward();
            None
        },
        'g' | 'G' => {
            app.begin_graduate();
            None
        },
        'h' | 'H' => {
            app.backspace();
            None
        },
        'j' | 'J' | 'n' | 'N' => {
            app.move_down();
            None
        },
        'k' | 'K' => {
            app.kill_to_end();
            None
        },
        'p' | 'P' => {
            app.move_up();
            None
        },
        'r' | 'R' => {
            app.begin_rename();
            None
        },
        't' | 'T' => {
            match app.create_new_name() {
                Some(name) => Some(
                    TuiOutcome::Mkdir(crate::text::join_path(app.labs_path.as_str(), name.as_str())),
                ),
                None => None,
            }
        },
        'w' | 'W' => {
            app.delete_word_backward();
            None
        },
        _ => None,
    }
}

fn handle_rename_control_key(app: &mut App, character: char) -> (out: Option<TuiOutcome>)
    requires
        old(app).wf(),
        old(app).mode == Mode::Rename,
    ensures
        final(app).wf(),
        dialog_control_key(
            *old(app),
            character,
            *final(app),
            out,
            *final(app) == (App { mode: Mode::Normal, rename_dialog: None, ..*old(app) }),
        ),
{
    match character {
        'a' | 'A' => app.move_input_to_start(),
        'b' | 'B' => app.move_input_back(),
        'c' | 'C' => app.cancel_rename(),
        'e' | 'E' => app.move_input_to_end(),
        'f' | 'F' => app.move_input_forward(),
        'h' | 'H' => app.backspace(),
        'k' | 'K' => app.kill_to_end(),
        'w' | 'W' => app.delete_word_backward(),
        _ => {},
    }
    None
}

fn handle_graduate_control_key(app: &mut App, character: char) -> (out: Option<TuiOutcome>)
    requires
        old(app).wf(),
        old(app).mode == Mode::Graduate,
    ensures
        final(app).wf(),
        dialog_control_key(
            *old(app),
            character,
            *final(app),
            out,
            *final(app) == (App { mode: Mode::Normal, graduate_dialog: None, ..*old(app) }),
        ),
{
    match character {
        'a' | 'A' => app.move_input_to_start(),
        'b' | 'B' => app.move_input_back(),
        'c' | 'C' => app.cancel_graduate(),
        'e' | 'E' => app.move_input_to_end(),
        'f' | 'F' => app.move_input_forward(),
        'h' | 'H' => app.backspace(),
        'k' | 'K' => app.kill_to_end(),
        'w' | 'W' => app.delete_word_backward(),
        _ => {},
    }
    None
}

fn handle_delete_confirmation_control_key(app: &mut App, character: char) -> (out: Option<TuiOutcome>)
    requires
        old(app).wf(),
        old(app).mode == Mode::DeleteConfirm,
    ensures
        final(app).wf(),
        dialog_control_key(
            *old(app),
            character,
            *final(app),
            out,
            old(app).marks_cleared(*final(app)),
        ),
{
    match character {
        'a' | 'A' => app.move_input_to_start(),
        'b' | 'B' => app.move_input_back(),
        'c' | 'C' => app.clear_delete_marks(),
        'e' | 'E' => app.move_input_to_end(),
        'f' | 'F' => app.move_input_forward(),
        'h' | 'H' => app.backspace(),
        'k' | 'K' => app.kill_to_end(),
        'w' | 'W' => app.delete_word_backward(),
        _ => {},
    }
    None
}

/// Whatever key is pressed, the selection stays on a real row and in view.
pub proof fn law_keys_keep_selection_shown(a: App, key: KeyEvent, b: App, out: Option<TuiOutcome>)
    requires
        a.wf(),
        b.wf(),
        selection_shown(a),
        key_handled(a, key, b, out),
    ensures
        selection_shown(b),
{
}

/// Ctrl-T in the search view asks for a plain new directory in the labs
/// directory, named with today's date and the query (whitespace runs
/// turned into dashes), and leaves the selector unchanged; with an empty
/// query it does nothing.
pub proof fn law_ctrl_t_makes_plain_dir(a: App, key: KeyEvent, b: App, out: Option<TuiOutcome>)
    requires
        a.mode == Mode::Normal,
        key.code == KeyCode::Char('t') || key.code == KeyCode::Char('T'),
        key.modifiers.control,
        key_handled(a, key, b, out),
    ensures
        b == a,
        a.input@.len() == 0 ==> out is None,
        a.input@.len() > 0 ==> (out matches Some(TuiOutcome::Mkdir(p)) && p@ == joined(
            a.labs_path@,
            a.today@ + seq!['-'] + collapse_spaces(a.input@),
        )),
{
    assert(control_letter('T') == 't');
}

} // verus!
