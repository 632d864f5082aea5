//! Dialog state and line-editing support for the modal dialogs.

use vstd::prelude::*;
use crate::line_edit::{
    char_count, edit_cursor, edit_text, find_word_start, insert_char_at, is_control,
    is_control_char, is_space, is_whitespace_char, law_backspace_undoes_insert, remove_char_range,
    removed_range, EditOp,
};
use crate::text::{is_alnum, is_ascii_alnum, owned};
use crate::words::{join_dash, join_words_with_dash, words};

verus! {

/// Characters the delete confirmation accepts: anything but control characters.
pub open spec fn spec_is_printable(c: char) -> bool {
    !is_control(c)
}

/// Characters a rename accepts.
pub open spec fn spec_allowed_rename_char(c: char) -> bool {
    is_alnum(c) || c == '-' || c == '_' || c == '.' || c == '/' || is_space(c)
}

/// Characters a graduate destination accepts.
pub open spec fn spec_allowed_graduate_char(c: char) -> bool {
    spec_allowed_rename_char(c) || c == '~'
}

fn is_printable(c: char) -> (r: bool)
    ensures
        r == spec_is_printable(c),
{
    !is_control_char(c)
}

fn is_allowed_rename_char(c: char) -> (r: bool)
    ensures
        r == spec_allowed_rename_char(c),
{
    is_ascii_alnum(c) || c == '-' || c == '_' || c == '.' || c == '/' || is_whitespace_char(c)
}

fn is_allowed_graduate_char(c: char) -> (r: bool)
    ensures
        r == spec_allowed_graduate_char(c),
{
    is_allowed_rename_char(c) || c == '~'
}

/// Whether an edit clears a dialog's validation error: any change to the
/// text, and backspace, kill and word deletion even when nothing changes.
pub open spec fn edit_clears_error(op: EditOp, accepted: bool) -> bool {
    match op {
        EditOp::Insert(_) => accepted,
        EditOp::Backspace => true,
        EditOp::KillToEnd => true,
        EditOp::DeleteWord => true,
        _ => false,
    }
}

/// Deletes the word before `cursor`; shared by the three dialogs.
fn delete_word_before(input: &String, cursor: usize) -> (r: (String, usize))
    requires
        0 < cursor <= input@.len(),
    ensures
        r.0@ == edit_text(input@, cursor as int, EditOp::DeleteWord, true),
        r.1 == edit_cursor(input@, cursor as int, EditOp::DeleteWord, true),
{
    let start = find_word_start(input.as_str(), cursor);
    (remove_char_range(input.as_str(), start, cursor), start)
}

/// Kills from `cursor` to the end; shared by the three dialogs.
fn kill_after(input: &String, cursor: usize) -> (r: String)
    ensures
        r@ == edit_text(input@, cursor as int, EditOp::KillToEnd, true),
{
    let n = char_count(input.as_str());
    if cursor < n {
        let r = remove_char_range(input.as_str(), cursor, n);
        proof {
            assert(removed_range(input@, cursor as int, n as int) =~= input@.take(cursor as int));
        }
        r
    } else {
        input.clone()
    }
}

/// Editable state for the delete confirmation dialog.
#[derive(Debug, Clone, PartialEq, Eq)]
pub struct DeleteConfirmation {
    /// Current confirmation input.
    pub input: String,
    /// Cursor position within the confirmation input, in chars.
    pub cursor_pos: usize,
}

impl Default for DeleteConfirmation {
    fn default() -> (r: Self)
        ensures
            r.input@ == Seq::<char>::empty(),
            r.cursor_pos == 0,
    {
        DeleteConfirmation { input: String::new(), cursor_pos: 0 }
    }
}

impl DeleteConfirmation {
    /// `next` is this dialog after `op`.
    pub open spec fn edited(self, next: Self, op: EditOp) -> bool {
        let acc = match op {
            EditOp::Insert(c) => spec_is_printable(c),
            _ => true,
        };
        &&& next.input@ == edit_text(self.input@, self.cursor_pos as int, op, acc)
        &&& next.cursor_pos == edit_cursor(self.input@, self.cursor_pos as int, op, acc)
    }

    /// Apply one line-editing operation.
    pub fn apply(&mut self, op: EditOp)
        requires
            old(self).cursor_pos <= old(self).input@.len(),
            op is Insert ==> old(self).cursor_pos < usize::MAX,
        ensures
            old(self).edited(*final(self), op),
    {
        match op {
            EditOp::Insert(c) => self.insert_char(c),
            EditOp::Backspace => self.backspace(),
            EditOp::ToStart => self.move_to_start(),
            EditOp::ToEnd => self.move_to_end(),
            EditOp::Back => self.move_back(),
            EditOp::Forward => self.move_forward(),
            EditOp::KillToEnd => self.kill_to_end(),
            EditOp::DeleteWord => self.delete_word_backward(),
        }
    }

    /// Create a blank delete confirmation input.
    pub fn new() -> (r: Self)
        ensures
            r.input@ == Seq::<char>::empty(),
            r.cursor_pos == 0,
    {
        DeleteConfirmation { input: String::new(), cursor_pos: 0 }
    }

    /// Whether the current input exactly confirms deletion.
    pub fn is_confirmed(&self) -> (r: bool)
        ensures
            r == (self.input@ == "YES"@),
    {
        self.input == owned("YES")
    }

    /// Insert a printable character at the cursor.
    pub fn insert_char(&mut self, character: char)
        requires
            old(self).cursor_pos < usize::MAX,
        ensures
            old(self).edited(*final(self), EditOp::Insert(character)),
    {
        if !is_printable(character) {
            return;
        }
        self.input = insert_char_at(self.input.as_str(), self.cursor_pos, character);
        self.cursor_pos = self.cursor_pos + 1;
    }

    /// Delete the character before the cursor.
    pub fn backspace(&mut self)
        requires
            old(self).cursor_pos <= old(self).input@.len(),
        ensures
            old(self).edited(*final(self), EditOp::Backspace),
    {
        if self.cursor_pos == 0 {
            return;
        }
        self.cursor_pos = self.cursor_pos - 1;
        self.input = remove_char_range(self.input.as_str(), self.cursor_pos, self.cursor_pos + 1);
    }

    /// Move the cursor to the start of the input.
    pub fn move_to_start(&mut self)
        ensures
            old(self).edited(*final(self), EditOp::ToStart),
            final(self).input == old(self).input,
    {
        self.cursor_pos = 0;
    }

    /// Move the cursor to the end of the input.
    pub fn move_to_end(&mut self)
        ensures
            old(self).edited(*final(self), EditOp::ToEnd),
            final(self).input == old(self).input,
    {
        self.cursor_pos = char_count(self.input.as_str());
    }

    /// Move the cursor backward by one character.
    pub fn move_back(&mut self)
        ensures
            old(self).edited(*final(self), EditOp::Back),
            final(self).input == old(self).input,
    {
        if self.cursor_pos > 0 {
            self.cursor_pos = self.cursor_pos - 1;
        }
    }

    /// Move the cursor forward by one character, stopping at the end.
    pub fn move_forward(&mut self)
        ensures
            old(self).edited(*final(self), EditOp::Forward),
            final(self).input == old(self).input,
    {
        let n = char_count(self.input.as_str());
        self.cursor_pos = if self.cursor_pos < n {
            self.cursor_pos + 1
        } else {
            n
        };
    }

    /// Delete everything from the cursor to the end of the input.
    pub fn kill_to_end(&mut self)
        ensures
            old(self).edited(*final(self), EditOp::KillToEnd),
    {
        self.input = kill_after(&self.input, self.cursor_pos);
    }

    /// Delete the previous word from the input.
    pub fn delete_word_backward(&mut self)
        requires
            old(self).cursor_pos <= old(self).input@.len(),
        ensures
            old(self).edited(*final(self), EditOp::DeleteWord),
    {
        if self.cursor_pos == 0 {
            return;
        }
        let (input, cursor) = delete_word_before(&self.input, self.cursor_pos);
        self.input = input;
        self.cursor_pos = cursor;
    }
}

/// Editable state for the rename dialog.
#[derive(Debug, Clone, PartialEq, Eq)]
pub struct RenameDialog {
    /// The currently selected entry basename before editing.
    pub current_name: String,
    /// Current editable rename input.
    pub input: String,
    /// Cursor position within the rename input, in chars.
    pub cursor_pos: usize,
    /// Current validation error, if any.
    pub error: Option<String>,
}

impl RenameDialog {
    /// `next` is this dialog after `op`.
    pub open spec fn edited(self, next: Self, op: EditOp) -> bool {
        let acc = match op {
            EditOp::Insert(c) => spec_allowed_rename_char(c),
            _ => true,
        };
        &&& next.current_name == self.current_name
        &&& next.input@ == edit_text(self.input@, self.cursor_pos as int, op, acc)
        &&& next.cursor_pos == edit_cursor(self.input@, self.cursor_pos as int, op, acc)
        &&& next.error == if edit_clears_error(op, acc) {
            None
        } else {
            self.error
        }
    }

    /// Apply one line-editing operation.
    pub fn apply(&mut self, op: EditOp)
        requires
            old(self).cursor_pos <= old(self).input@.len(),
            op is Insert ==> old(self).cursor_pos < usize::MAX,
        ensures
            old(self).edited(*final(self), op),
    {
        match op {
            EditOp::Insert(c) => self.insert_char(c),
            EditOp::Backspace => self.backspace(),
            EditOp::ToStart => self.move_to_start(),
            EditOp::ToEnd => self.move_to_end(),
            EditOp::Back => self.move_back(),
            EditOp::Forward => self.move_forward(),
            EditOp::KillToEnd => self.kill_to_end(),
            EditOp::DeleteWord => self.delete_word_backward(),
        }
    }

    /// Create a rename dialog pre-filled with the current entry basename.
    pub fn new(current_name: &str) -> (r: Self)
        ensures
            r.current_name@ == current_name@,
            r.input@ == current_name@,
            r.cursor_pos == current_name@.len(),
            r.error is None,
    {
        RenameDialog {
            current_name: owned(current_name),
            input: owned(current_name),
            cursor_pos: char_count(current_name),
            error: None,
        }
    }

    /// Insert an allowed rename character at the cursor.
    pub fn insert_char(&mut self, character: char)
        requires
            old(self).cursor_pos < usize::MAX,
        ensures
            old(self).edited(*final(self), EditOp::Insert(character)),
    {
        if !is_allowed_rename_char(character) {
            return;
        }
        self.input = insert_char_at(self.input.as_str(), self.cursor_pos, character);
        self.cursor_pos = self.cursor_pos + 1;
        self.clear_error();
    }

    /// Delete the character before the cursor.
    pub fn backspace(&mut self)
        requires
            old(self).cursor_pos <= old(self).input@.len(),
        ensures
            old(self).edited(*final(self), EditOp::Backspace),
    {
        if self.cursor_pos > 0 {
            self.cursor_pos = self.cursor_pos - 1;
            self.input = remove_char_range(
                self.input.as_str(),
                self.cursor_pos,
                self.cursor_pos + 1,
            );
        }
        self.clear_error();
    }

    /// Move the cursor to the start of the input.
    pub fn move_to_start(&mut self)
        ensures
            *final(self) == (RenameDialog { cursor_pos: 0, ..*old(self) }),
            old(self).edited(*final(self), EditOp::ToStart),
    {
        self.cursor_pos = 0;
    }

    /// Move the cursor to the end of the input.
    pub fn move_to_end(&mut self)
        ensures
            *final(self) == (RenameDialog { cursor_pos: final(self).cursor_pos, ..*old(self) }),
            old(self).edited(*final(self), EditOp::ToEnd),
    {
        self.cursor_pos = char_count(self.input.as_str());
    }

    /// Move the cursor backward by one character.
    pub fn move_back(&mut self)
        ensures
            *final(self) == (RenameDialog { cursor_pos: final(self).cursor_pos, ..*old(self) }),
            old(self).edited(*final(self), EditOp::Back),
    {
        if self.cursor_pos > 0 {
            self.cursor_pos = self.cursor_pos - 1;
        }
    }

    /// Move the cursor forward by one character, stopping at the end.
    pub fn move_forward(&mut self)
        ensures
            *final(self) == (RenameDialog { cursor_pos: final(self).cursor_pos, ..*old(self) }),
            old(self).edited(*final(self), EditOp::Forward),
    {
        let n = char_count(self.input.as_str());
        self.cursor_pos = if self.cursor_pos < n {
            self.cursor_pos + 1
        } else {
            n
        };
    }

    /// Delete everything from the cursor to the end of the input.
    pub fn kill_to_end(&mut self)
        ensures
            old(self).edited(*final(self), EditOp::KillToEnd),
    {
        self.input = kill_after(&self.input, self.cursor_pos);
        self.clear_error();
    }

    /// Delete the previous word from the input.
    pub fn delete_word_backward(&mut self)
        requires
            old(self).cursor_pos <= old(self).input@.len(),
        ensures
            old(self).edited(*final(self), EditOp::DeleteWord),
    {
        if self.cursor_pos > 0 {
            let (input, cursor) = delete_word_before(&self.input, self.cursor_pos);
            self.input = input;
            self.cursor_pos = cursor;
        }
        self.clear_error();
    }

    /// Set the current validation error.
    pub fn set_error(&mut self, error: &str)
        ensures
            *final(self) == (RenameDialog { error: final(self).error, ..*old(self) }),
            final(self).error matches Some(e) && e@ == error@,
    {
        self.error = Some(owned(error));
    }

    /// Clear the current validation error.
    pub fn clear_error(&mut self)
        ensures
            *final(self) == (RenameDialog { error: None, ..*old(self) }),
    {
        self.error = None;
    }

    /// The normalized rename target: the whitespace-separated words of the
    /// input joined with `-`.
    pub fn normalized_name(&self) -> (r: String)
        ensures
            r@ == join_dash(words(self.input@)),
    {
        join_words_with_dash(self.input.as_str())
    }
}

/// Editable state for the graduate dialog.
#[derive(Debug, Clone, PartialEq, Eq)]
pub struct GraduateDialog {
    /// The currently selected entry basename before graduation.
    pub current_name: String,
    /// Current editable destination input.
    pub input: String,
    /// Cursor position within the destination input, in chars.
    pub cursor_pos: usize,
    /// Current validation error, if any.
    pub error: Option<String>,
    /// Hint describing how the default destination root was chosen.
    pub destination_hint: String,
    /// Display form of the default destination root.
    pub destination_root: String,
}

impl GraduateDialog {
    /// `next` is this dialog after `op`.
    pub open spec fn edited(self, next: Self, op: EditOp) -> bool {
        let acc = match op {
            EditOp::Insert(c) => spec_allowed_graduate_char(c),
            _ => true,
        };
        &&& next.current_name == self.current_name
        &&& next.destination_hint == self.destination_hint
        &&& next.destination_root == self.destination_root
        &&& next.input@ == edit_text(self.input@, self.cursor_pos as int, op, acc)
        &&& next.cursor_pos == edit_cursor(self.input@, self.cursor_pos as int, op, acc)
        &&& next.error == if edit_clears_error(op, acc) {
            None
        } else {
            self.error
        }
    }

    /// Apply one line-editing operation.
    pub fn apply(&mut self, op: EditOp)
        requires
            old(self).cursor_pos <= old(self).input@.len(),
            op is Insert ==> old(self).cursor_pos < usize::MAX,
        ensures
            old(self).edited(*final(self), op),
    {
        match op {
            EditOp::Insert(c) => self.insert_char(c),
            EditOp::Backspace => self.backspace(),
            EditOp::ToStart => self.move_to_start(),
            EditOp::ToEnd => self.move_to_end(),
            EditOp::Back => self.move_back(),
            EditOp::Forward => self.move_forward(),
            EditOp::KillToEnd => self.kill_to_end(),
            EditOp::DeleteWord => self.delete_word_backward(),
        }
    }

    /// Create a graduate dialog pre-filled with the default destination path.
    pub fn new(
        current_name: &str,
        input: &str,
        destination_hint: &str,
        destination_root: &str,
    ) -> (r: Self)
        ensures
            r.current_name@ == current_name@,
            r.input@ == input@,
            r.cursor_pos == input@.len(),
            r.error is None,
            r.destination_hint@ == destination_hint@,
            r.destination_root@ == destination_root@,
    {
        GraduateDialog {
            current_name: owned(current_name),
            input: owned(input),
            cursor_pos: char_count(input),
            error: None,
            destination_hint: owned(destination_hint),
            destination_root: owned(destination_root),
        }
    }

    /// Insert an allowed destination character at the cursor.
    pub fn insert_char(&mut self, character: char)
        requires
            old(self).cursor_pos < usize::MAX,
        ensures
            old(self).edited(*final(self), EditOp::Insert(character)),
    {
        if !is_allowed_graduate_char(character) {
            return;
        }
        self.input = insert_char_at(self.input.as_str(), self.cursor_pos, character);
        self.cursor_pos = self.cursor_pos + 1;
        self.clear_error();
    }

    /// Delete the character before the cursor.
    pub fn backspace(&mut self)
        requires
            old(self).cursor_pos <= old(self).input@.len(),
        ensures
            old(self).edited(*final(self), EditOp::Backspace),
    {
        if self.cursor_pos > 0 {
            self.cursor_pos = self.cursor_pos - 1;
            self.input = remove_char_range(
                self.input.as_str(),
                self.cursor_pos,
                self.cursor_pos + 1,
            );
        }
        self.clear_error();
    }

    /// Move the cursor to the start of the input.
    pub fn move_to_start(&mut self)
        ensures
            *final(self) == (GraduateDialog { cursor_pos: 0, ..*old(self) }),
            old(self).edited(*final(self), EditOp::ToStart),
    {
        self.cursor_pos = 0;
    }

    /// Move the cursor to the end of the input.
    pub fn move_to_end(&mut self)
        ensures
            *final(self) == (GraduateDialog { cursor_pos: final(self).cursor_pos, ..*old(self) }),
            old(self).edited(*final(self), EditOp::ToEnd),
    {
        self.cursor_pos = char_count(self.input.as_str());
    }

    /// Move the cursor backward by one character.
    pub fn move_back(&mut self)
        ensures
            *final(self) == (GraduateDialog { cursor_pos: final(self).cursor_pos, ..*old(self) }),
            old(self).edited(*final(self), EditOp::Back),
    {
        if self.cursor_pos > 0 {
            self.cursor_pos = self.cursor_pos - 1;
        }
    }

    /// Move the cursor forward by one character, stopping at the end.
    pub fn move_forward(&mut self)
        ensures
            *final(self) == (GraduateDialog { cursor_pos: final(self).cursor_pos, ..*old(self) }),
            old(self).edited(*final(self), EditOp::Forward),
    {
        let n = char_count(self.input.as_str());
        self.cursor_pos = if self.cursor_pos < n {
            self.cursor_pos + 1
        } else {
            n
        };
    }

    /// Delete everything from the cursor to the end of the input.
    pub fn kill_to_end(&mut self)
        ensures
            old(self).edited(*final(self), EditOp::KillToEnd),
    {
        self.input = kill_after(&self.input, self.cursor_pos);
        self.clear_error();
    }

    /// Delete the previous word from the input.
    pub fn delete_word_backward(&mut self)
        requires
            old(self).cursor_pos <= old(self).input@.len(),
        ensures
            old(self).edited(*final(self), EditOp::DeleteWord),
    {
        if self.cursor_pos > 0 {
            let (input, cursor) = delete_word_before(&self.input, self.cursor_pos);
            self.input = input;
            self.cursor_pos = cursor;
        }
        self.clear_error();
    }

    /// Set the current validation error.
    pub fn set_error(&mut self, error: &str)
        ensures
            *final(self) == (GraduateDialog { error: final(self).error, ..*old(self) }),
            final(self).error matches Some(e) && e@ == error@,
    {
        self.error = Some(owned(error));
    }

    /// Clear the current validation error.
    pub fn clear_error(&mut self)
        ensures
            *final(self) == (GraduateDialog { error: None, ..*old(self) }),
    {
        self.error = None;
    }
}

/// In the delete confirmation, typing a printable character and then
/// pressing backspace gives back the input and its cursor position.
pub proof fn law_confirmation_backspace_undoes_insert(
    a: DeleteConfirmation,
    b: DeleteConfirmation,
    c: DeleteConfirmation,
    ch: char,
)
    requires
        a.cursor_pos <= a.input@.len(),
        spec_is_printable(ch),
        a.edited(b, EditOp::Insert(ch)),
        b.edited(c, EditOp::Backspace),
    ensures
        c.input@ == a.input@,
        c.cursor_pos == a.cursor_pos,
{
    law_backspace_undoes_insert(a.input@, a.cursor_pos as int, ch);
}

/// In the delete confirmation, backspace with the cursor at the start
/// changes nothing.
pub proof fn law_confirmation_backspace_at_start_keeps_input(a: DeleteConfirmation, b: DeleteConfirmation)
    requires
        a.cursor_pos == 0,
        a.edited(b, EditOp::Backspace),
    ensures
        b.input@ == a.input@,
        b.cursor_pos == 0,
{
}

} // verus!
