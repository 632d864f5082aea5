//! Line-editing operations on text modelled as character sequences.
//!
//! Cursor positions count characters, not bytes.

use vstd::prelude::*;
use crate::text::{chars_of, is_alnum, is_ascii_alnum, string_of};

verus! {

/// Unicode `White_Space`, as `char::is_whitespace` documents it.
pub open spec fn is_space(c: char) -> bool {
    ('\u{9}' <= c <= '\u{d}') || c == ' ' || c == '\u{85}' || c == '\u{a0}' || c == '\u{1680}'
        || ('\u{2000}' <= c <= '\u{200a}') || c == '\u{2028}' || c == '\u{2029}' || c
        == '\u{202f}' || c == '\u{205f}' || c == '\u{3000}'
}

/// Unicode general category `Cc`, as `char::is_control` documents it.
pub open spec fn is_control(c: char) -> bool {
    c <= '\u{1f}' || ('\u{7f}' <= c <= '\u{9f}')
}

/// Tests for Unicode whitespace.
pub fn is_whitespace_char(c: char) -> (r: bool)
    ensures
        r == is_space(c),
{
    ('\u{9}' <= c && c <= '\u{d}') || c == ' ' || c == '\u{85}' || c == '\u{a0}' || c
        == '\u{1680}' || ('\u{2000}' <= c && c <= '\u{200a}') || c == '\u{2028}' || c
        == '\u{2029}' || c == '\u{202f}' || c == '\u{205f}' || c == '\u{3000}'
}

/// Tests for a control character.
pub fn is_control_char(c: char) -> (r: bool)
    ensures
        r == is_control(c),
{
    c <= '\u{1f}' || ('\u{7f}' <= c && c <= '\u{9f}')
}

/// `pos` clamped to the length of `s`.
pub open spec fn clamp(s: Seq<char>, pos: int) -> int {
    if pos < s.len() {
        pos
    } else {
        s.len() as int
    }
}

/// `s` with `c` inserted before character `pos` (at the end if `pos` is past it).
pub open spec fn inserted(s: Seq<char>, pos: int, c: char) -> Seq<char> {
    s.take(clamp(s, pos)) + seq![c] + s.skip(clamp(s, pos))
}

/// `s` with the characters in `[from, to)` removed.
pub open spec fn removed_range(s: Seq<char>, from: int, to: int) -> Seq<char> {
    s.take(from) + s.skip(to)
}

/// Steps back from `i` over characters whose alphanumeric-ness is `alnum`.
pub open spec fn skip_back(s: Seq<char>, i: int, alnum: bool) -> int
    decreases i,
{
    if i > 0 && i <= s.len() && is_alnum(s[i - 1]) == alnum {
        skip_back(s, i - 1, alnum)
    } else {
        i
    }
}

/// Start of the word before `i`: first the separators, then the word itself.
pub open spec fn word_start(s: Seq<char>, i: int) -> int {
    skip_back(s, skip_back(s, i, false), true)
}

pub proof fn lemma_skip_back_bounds(s: Seq<char>, i: int, alnum: bool)
    requires
        0 <= i <= s.len(),
    ensures
        0 <= skip_back(s, i, alnum) <= i,
    decreases i,
{
    if i > 0 && is_alnum(s[i - 1]) == alnum {
        lemma_skip_back_bounds(s, i - 1, alnum);
    }
}

/// A line-editing operation on a text and its cursor.
#[derive(Debug, Clone, Copy)]
pub enum EditOp {
    /// Insert a character at the cursor.
    Insert(char),
    /// Delete the character before the cursor.
    Backspace,
    /// Move the cursor to the start.
    ToStart,
    /// Move the cursor to the end.
    ToEnd,
    /// Move the cursor back one character.
    Back,
    /// Move the cursor forward one character.
    Forward,
    /// Delete from the cursor to the end.
    KillToEnd,
    /// Delete the word before the cursor.
    DeleteWord,
}

/// The text after `op` at cursor `p`; `accepted` says whether an inserted
/// character is taken.
pub open spec fn edit_text(s: Seq<char>, p: int, op: EditOp, accepted: bool) -> Seq<char> {
    match op {
        EditOp::Insert(c) => if accepted {
            inserted(s, p, c)
        } else {
            s
        },
        EditOp::Backspace => if p > 0 {
            removed_range(s, p - 1, p)
        } else {
            s
        },
        EditOp::KillToEnd => if p < s.len() {
            s.take(p)
        } else {
            s
        },
        EditOp::DeleteWord => if p > 0 {
            removed_range(s, word_start(s, p), p)
        } else {
            s
        },
        _ => s,
    }
}

/// The cursor after `op` at cursor `p` in `s`.
pub open spec fn edit_cursor(s: Seq<char>, p: int, op: EditOp, accepted: bool) -> int {
    match op {
        EditOp::Insert(_) => if accepted {
            p + 1
        } else {
            p
        },
        EditOp::Backspace => if p > 0 {
            p - 1
        } else {
            p
        },
        EditOp::ToStart => 0,
        EditOp::ToEnd => s.len() as int,
        EditOp::Back => if p > 0 {
            p - 1
        } else {
            p
        },
        EditOp::Forward => if p < s.len() {
            p + 1
        } else {
            s.len() as int
        },
        EditOp::KillToEnd => p,
        EditOp::DeleteWord => if p > 0 {
            word_start(s, p)
        } else {
            p
        },
    }
}

/// Whether `op` at cursor `p` rewrites the text rather than only moving the cursor.
pub open spec fn edit_rewrites(s: Seq<char>, p: int, op: EditOp, accepted: bool) -> bool {
    match op {
        EditOp::Insert(_) => accepted,
        EditOp::Backspace => p > 0,
        EditOp::KillToEnd => p < s.len(),
        EditOp::DeleteWord => p > 0,
        _ => false,
    }
}

/// An edit leaves the cursor within the edited text.
pub proof fn law_edit_keeps_cursor_in_text(s: Seq<char>, p: int, op: EditOp, accepted: bool)
    requires
        0 <= p <= s.len(),
    ensures
        0 <= edit_cursor(s, p, op, accepted) <= edit_text(s, p, op, accepted).len(),
{
    lemma_skip_back_bounds(s, p, false);
    lemma_skip_back_bounds(s, skip_back(s, p, false), true);
}

/// Typing a character and then pressing backspace gives back the text and
/// the cursor position from before.
pub proof fn law_backspace_undoes_insert(s: Seq<char>, p: int, c: char)
    requires
        0 <= p <= s.len(),
    ensures
        edit_text(edit_text(s, p, EditOp::Insert(c), true), edit_cursor(s, p, EditOp::Insert(c), true), EditOp::Backspace, true) == s,
        edit_cursor(edit_text(s, p, EditOp::Insert(c), true), edit_cursor(s, p, EditOp::Insert(c), true), EditOp::Backspace, true) == p,
{
    let t = inserted(s, p, c);
    assert(t.take(p) =~= s.take(p));
    assert(t.skip(p + 1) =~= s.skip(p));
    assert(removed_range(t, p, p + 1) =~= s);
}

/// Text with `c` inserted at character position `pos` (clamped to the end).
pub fn insert_char_at(text: &str, pos: usize, c: char) -> (r: String)
    ensures
        r@ == inserted(text@, pos as int, c),
{
    let v = chars_of(text);
    let p = if pos < v.len() {
        pos
    } else {
        v.len()
    };
    let mut w: Vec<char> = Vec::new();
    let mut i: usize = 0;
    while i < p
        invariant
            p <= v@.len(),
            i <= p,
            w@ == v@.take(i as int),
        decreases p - i,
    {
        w.push(v[i]);
        proof {
            assert(w@ =~= v@.take(i + 1));
        }
        i = i + 1;
    }
    w.push(c);
    while i < v.len()
        invariant
            p <= i <= v@.len(),
            w@ == v@.take(p as int) + seq![c] + v@.subrange(p as int, i as int),
        decreases v@.len() - i,
    {
        w.push(v[i]);
        proof {
            assert(w@ =~= v@.take(p as int) + seq![c] + v@.subrange(p as int, i + 1));
        }
        i = i + 1;
    }
    proof {
        assert(w@ =~= inserted(text@, pos as int, c));
    }
    string_of(&w)
}

/// Text with the characters in `[from, to)` removed.
pub fn remove_char_range(text: &str, from: usize, to: usize) -> (r: String)
    requires
        from <= to <= text@.len(),
    ensures
        r@ == removed_range(text@, from as int, to as int),
{
    let v = chars_of(text);
    let mut w: Vec<char> = Vec::new();
    let mut i: usize = 0;
    while i < from
        invariant
            from <= to <= v@.len(),
            i <= from,
            w@ == v@.take(i as int),
        decreases from - i,
    {
        w.push(v[i]);
        proof {
            assert(w@ =~= v@.take(i + 1));
        }
        i = i + 1;
    }
    i = to;
    while i < v.len()
        invariant
            from <= to <= i <= v@.len(),
            w@ == v@.take(from as int) + v@.subrange(to as int, i as int),
        decreases v@.len() - i,
    {
        w.push(v[i]);
        proof {
            assert(w@ =~= v@.take(from as int) + v@.subrange(to as int, i + 1));
        }
        i = i + 1;
    }
    proof {
        assert(w@ =~= removed_range(text@, from as int, to as int));
    }
    string_of(&w)
}

/// Position where deleting the previous word from `pos` stops.
pub fn find_word_start(text: &str, pos: usize) -> (r: usize)
    requires
        pos <= text@.len(),
    ensures
        r == word_start(text@, pos as int),
        r <= pos,
{
    let v = chars_of(text);
    let mut i = pos;
    while i > 0 && !is_ascii_alnum(v[i - 1])
        invariant
            i <= pos <= v@.len(),
            skip_back(v@, pos as int, false) == skip_back(v@, i as int, false),
        decreases i,
    {
        i = i - 1;
    }
    let mid = i;
    while i > 0 && is_ascii_alnum(v[i - 1])
        invariant
            i <= mid <= pos <= v@.len(),
            mid == skip_back(v@, pos as int, false),
            skip_back(v@, mid as int, true) == skip_back(v@, i as int, true),
        decreases i,
    {
        i = i - 1;
    }
    i
}

/// Characters of a string, counted.
pub fn char_count(text: &str) -> (n: usize)
    ensures
        n == text@.len(),
{
    chars_of(text).len()
}

} // verus!
