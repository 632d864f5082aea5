//! Application state for the selector.
//!
//! Holds the loaded entries, the current filter results, the search input,
//! the selection and scroll position, the mode, the delete marks, the open
//! dialog, and the terminal size. Matching keeps the entries in their
//! loaded order; ranking the results by score is left to the caller.

use vstd::prelude::*;
use std::collections::HashSet;
use crate::dialogs::{DeleteConfirmation, GraduateDialog, RenameDialog};
use crate::fuzzy::{as_ints, greedy_positions, match_name};
use crate::line_edit::{
    char_count, edit_cursor, edit_rewrites, edit_text, find_word_start, insert_char_at,
    law_backspace_undoes_insert, law_edit_keeps_cursor_in_text, remove_char_range, removed_range, EditOp,
};
use crate::sys::{ascii_lowercase, lowered};
use crate::sys::to_lowercase;
use crate::entries::{has_date_prefix, spec_has_date_prefix};
use crate::sys::{
    canonicalize, home_dir, parent_of, parent_path, read_home, CanonicalPath, HomeDir, path_exists, path_is_dir, path_starts_with,
    same_path, same_path_of, starts_with_path_of,
};
use crate::words::{collapse_spaces, collapse_whitespace, join_dash, words};
use crate::text::{
    all_digits, chars_of, contains_char, decimal_value, is_alnum, is_ascii_alnum, is_digit, lemma_decimal_grows, join_path, joined, lemma_lex_total,
    lemma_lex_trans, lex_le, opt_str, opt_string, owned, push_str, slice_vec, str_le, string_of, trim_text,
    trimmed,
};

verus! {

broadcast use vstd::std_specs::hash::group_hash_axioms;

/// Terminal dimensions used by the selector.
#[derive(Debug, Clone, Copy, PartialEq, Eq, Structural)]
pub struct TerminalSize {
    /// Terminal width in columns.
    pub width: u16,
    /// Terminal height in rows.
    pub height: u16,
}

impl TerminalSize {
    /// Create a new terminal size, clamping both dimensions to at least 1.
    pub fn new(width: u16, height: u16) -> (r: Self)
        ensures
            r.width == if width == 0 { 1 } else { width },
            r.height == if height == 0 { 1 } else { height },
    {
        TerminalSize {
            width: if width == 0 {
                1
            } else {
                width
            },
            height: if height == 0 {
                1
            } else {
                height
            },
        }
    }
}

/// Selector mode.
#[derive(Debug, Clone, Copy, PartialEq, Eq, Structural)]
pub enum Mode {
    /// Normal entry-selection mode.
    Normal,
    /// Delete confirmation dialog.
    DeleteConfirm,
    /// Rename dialog.
    Rename,
    /// Graduate dialog.
    Graduate,
}

/// Selection derived from the current cursor position.
#[derive(Debug, Clone, PartialEq, Eq)]
pub enum Selection {
    /// Existing entry selected.
    Existing(String),
    /// Virtual "create new" row selected.
    Create(String),
}

/// Confirmed batch delete selection.
#[derive(Debug, Clone, PartialEq, Eq)]
pub struct DeleteSelection {
    /// Canonical base path containing the marked entries.
    pub base_path: String,
    /// Basenames to delete relative to `base_path`.
    pub basenames: Vec<String>,
}

/// Confirmed rename selection.
#[derive(Debug, Clone, PartialEq, Eq)]
pub struct RenameSelection {
    /// Base labs path containing the entry being renamed.
    pub base_path: String,
    /// Basename before the rename.
    pub old_name: String,
    /// New basename after normalization and validation.
    pub new_name: String,
}

/// Confirmed graduate selection.
#[derive(Debug, Clone, PartialEq, Eq)]
pub struct GraduateSelection {
    /// Source directory to move.
    pub source: String,
    /// Destination project directory after graduation.
    pub dest: String,
    /// Basename of the lab inside the labs directory.
    pub basename: String,
    /// Base labs path containing the source entry.
    pub base_path: String,
}

/// A directory entry of the labs directory, as the selector reads it.
#[derive(Debug, Clone, PartialEq, Eq)]
pub struct Entry {
    /// The directory name (basename only).
    pub name: String,
    /// The full path to the directory (resolved for symlinks).
    pub path: String,
    /// Whether this entry is a symbolic link.
    pub is_symlink: bool,
    /// Last modification time, in whole seconds since the Unix epoch.
    pub mtime_secs: u64,
}

/// One filter result: which entry matched, and where the query matched it.
#[derive(Debug, Clone, PartialEq, Eq)]
pub struct MatchResult {
    /// Index of the entry in the entries vec.
    pub index: usize,
    /// Positions in the entry name where query characters matched.
    pub positions: Vec<usize>,
    /// The match score as shown, to one decimal place; empty until the
    /// results have been ranked.
    pub score_text: String,
}

/// Rows below the header and above the footer: at least three.
pub open spec fn spec_visible_limit(height: u16) -> int {
    if height >= 8 {
        height - 5
    } else {
        3
    }
}

/// The scroll offset that keeps `cursor` within a window of `visible` rows.
pub open spec fn scrolled_to(cursor: int, scroll: int, visible: int) -> int {
    if cursor < scroll {
        cursor
    } else if cursor >= scroll + visible {
        cursor - visible + 1
    } else {
        scroll
    }
}

/// `cursor` clamped to the last of `total` rows.
pub open spec fn clamped(cursor: int, total: int) -> int {
    if total == 0 {
        0
    } else if cursor < total - 1 {
        cursor
    } else {
        total - 1
    }
}


/// A filter result as plain values: the entry index and the match positions.
pub open spec fn match_view(r: MatchResult) -> (int, Seq<int>) {
    (r.index as int, as_ints(r.positions@))
}

/// The filter results as plain values.
pub open spec fn filter_view(v: Seq<MatchResult>) -> Seq<(int, Seq<int>)> {
    v.map_values(|r: MatchResult| match_view(r))
}

/// The entries among the first `n` whose lowercased name the lowercased
/// query `q` matches, in entry order, with their positions.
pub open spec fn matches_upto(entries: Seq<Entry>, q: Seq<char>, n: int) -> Seq<(int, Seq<int>)>
    decreases n,
{
    if n <= 0 {
        Seq::empty()
    } else {
        let prev = matches_upto(entries, q, n - 1);
        match greedy_positions(lowered(entries[n - 1].name@), q, 0) {
            Some(p) => prev.push((n - 1, p)),
            None => prev,
        }
    }
}

/// The entries that `query` matches, in entry order, with their positions.
pub open spec fn spec_filter(entries: Seq<Entry>, query: Seq<char>) -> Seq<(int, Seq<int>)> {
    matches_upto(entries, lowered(query), entries.len() as int)
}

/// Matches every entry against `query`, keeping entry order.
pub fn filter_entries(entries: &Vec<Entry>, query: &str) -> (r: Vec<MatchResult>)
    ensures
        filter_view(r@) == spec_filter(entries@, query@),
        r@.len() <= entries@.len(),
        forall|k: int| 0 <= k < r@.len() ==> r@[k].index < entries@.len(),
{
    let q = to_lowercase(query);
    let qv = chars_of(q.as_str());
    let mut out: Vec<MatchResult> = Vec::new();
    let mut i: usize = 0;
    while i < entries.len()
        invariant
            i <= entries@.len(),
            qv@ == lowered(query@),
            filter_view(out@) == matches_upto(entries@, qv@, i as int),
            out@.len() <= i,
            forall|k: int| 0 <= k < out@.len() ==> out@[k].index < i,
        decreases entries@.len() - i,
    {
        let m = match_name(entries[i].name.as_str(), qv.as_slice());
        match m {
            Some(p) => {
                let ghost pv = as_ints(p@);
                out.push(MatchResult { index: i, positions: p, score_text: String::new() });
                proof {
                    assert(filter_view(out@) =~= filter_view(out@.drop_last()).push((i as int, pv)));
                }
            },
            None => {},
        }
        i = i + 1;
    }
    out
}

/// `next` is `from` with the results recomputed and the selection clamped
/// and scrolled into view.
pub open spec fn refreshed(from: App, next: App) -> bool {
    let total = spec_filter(from.entries@, from.input@).len() + if from.input@.len() > 0 {
        1int
    } else {
        0int
    };
    let cursor = clamped(from.cursor_pos as int, total);
    &&& next == (App {
        filtered: next.filtered,
        cursor_pos: cursor as usize,
        scroll_offset: scrolled_to(cursor, from.scroll_offset as int, from.visible()) as usize,
        ..from
    })
    &&& filter_view(next.filtered@) == spec_filter(from.entries@, from.input@)
}

/// Characters the search input accepts.
pub open spec fn spec_allowed_input_char(c: char) -> bool {
    is_alnum(c) || c == '-' || c == '_' || c == '.' || c == ' '
}

/// Whether the search input accepts `character`.
pub fn is_allowed_input_char(character: char) -> (r: bool)
    ensures
        r == spec_allowed_input_char(character),
{
    is_ascii_alnum(character) || character == '-' || character == '_' || character == '.'
        || character == ' '
}

/// The marked indices among the results, in result order.
pub open spec fn marked_in_results(filtered: Seq<MatchResult>, marks: Set<usize>) -> Seq<usize>
    decreases filtered.len(),
{
    if filtered.len() == 0 {
        Seq::empty()
    } else {
        let prev = marked_in_results(filtered.drop_last(), marks);
        if marks.contains(filtered.last().index) {
            prev.push(filtered.last().index)
        } else {
            prev
        }
    }
}

/// The entry indices that appear among the results.
pub open spec fn shown_indices(filtered: Seq<MatchResult>) -> Set<usize> {
    Set::new(|i: usize| exists|k: int| 0 <= k < filtered.len() && #[trigger] filtered[k].index == i)
}

/// The name of entry `i`.
pub open spec fn name_of(entries: Seq<Entry>, i: usize) -> Seq<char> {
    entries[i as int].name@
}

/// The indices in `r` name entries in non-decreasing name order.
pub open spec fn name_sorted(entries: Seq<Entry>, r: Seq<usize>) -> bool {
    forall|a: int, b: int|
        0 <= a < b < r.len() ==> lex_le(#[trigger] name_of(entries, r[a]), #[trigger] name_of(entries, r[b]))
}

/// The names of the entries at `indices`.
pub open spec fn names_at(entries: Seq<Entry>, indices: Seq<usize>) -> Seq<Seq<char>> {
    indices.map_values(|i: usize| entries[i as int].name@)
}

/// The texts of a sequence of strings.
pub open spec fn string_views(v: Seq<String>) -> Seq<Seq<char>> {
    v.map_values(|s: String| s@)
}

/// Every target is known and lies strictly inside `base`.
pub open spec fn all_inside(base: Seq<char>, targets: Seq<Option<String>>) -> bool {
    forall|k: int| 0 <= k < targets.len() ==> (#[trigger] targets[k] matches Some(t) && spec_inside_base(base, t@))
}

/// The paths of the entries at `indices`.
pub open spec fn paths_at(entries: Seq<Entry>, indices: Seq<usize>) -> Seq<Seq<char>> {
    indices.map_values(|i: usize| entries[i as int].path@)
}

/// Every target resolved and lies strictly inside `base`.
pub open spec fn all_resolved_inside(base: Seq<char>, targets: Seq<CanonicalPath>) -> bool {
    forall|k: int|
        0 <= k < targets.len() ==> (#[trigger] targets[k].resolved() matches Some(t) && spec_inside_base(base, t))
}

/// `r` is what deleting the entries at `paths` gives, when `base` is the
/// resolution of the labs path `labs` and `targets` those of `paths`, in
/// order: a selection in the resolved labs path exactly when there is
/// something to delete, the labs path resolved, and every target resolved
/// to a path strictly inside it.
pub open spec fn delete_decided(
    r: Option<DeleteSelection>,
    labs: Seq<char>,
    paths: Seq<Seq<char>>,
    base: CanonicalPath,
    targets: Seq<CanonicalPath>,
) -> bool {
    &&& base.given() == labs
    &&& targets.len() == paths.len()
    &&& forall|k: int| 0 <= k < targets.len() ==> #[trigger] targets[k].given() == paths[k]
    &&& (r is Some <==> (paths.len() > 0 && base.resolved() is Some && all_resolved_inside(
        base.resolved()->0,
        targets,
    )))
    &&& (r matches Some(sel) ==> sel.base_path@ == base.resolved()->0)
}

/// The deletion of `names`, given the canonical labs path `base` and the
/// canonical path of each named entry: nothing unless there are names,
/// the labs path is known, and every target is known and lies strictly
/// inside it.
pub fn delete_selection_for(base: Option<String>, targets: &Vec<Option<String>>, names: Vec<String>) -> (r: Option<DeleteSelection>)
    requires
        targets@.len() == names@.len(),
    ensures
        r is Some <==> (names@.len() > 0 && base is Some && all_inside(base->0@, targets@)),
        r matches Some(sel) ==> sel.base_path@ == base->0@ && sel.basenames@ == names@,
{
    if names.len() == 0 {
        return None;
    }
    let ghost given = base;
    let base_path = match base {
        Some(b) => b,
        None => return None,
    };
    proof {
        assert(given->0@ == base_path@);
    }
    let mut k: usize = 0;
    while k < targets.len()
        invariant
            k <= targets@.len(),
            given == base,
            given is Some,
            given->0@ == base_path@,
            names@.len() > 0,
            forall|j: int| 0 <= j < k ==> (#[trigger] targets@[j] matches Some(t) && spec_inside_base(base_path@, t@)),
        decreases targets@.len() - k,
    {
        match &targets[k] {
            Some(t) => {
                if !inside_base(base_path.as_str(), t.as_str()) {
                    proof {
                        assert(!(targets@[k as int] matches Some(t) && spec_inside_base(base_path@, t@)));
                        assert(!all_inside(given->0@, targets@));
                    }
                    return None;
                }
            },
            None => {
                proof {
                    assert(!(targets@[k as int] matches Some(t) && spec_inside_base(base_path@, t@)));
                    assert(!all_inside(given->0@, targets@));
                }
                return None;
            },
        }
        k = k + 1;
    }
    proof {
        assert(all_inside(base_path@, targets@));
    }
    Some(DeleteSelection { base_path, basenames: names })
}

/// Whether `target` lies strictly inside `base`, comparing whole path components.
pub open spec fn spec_inside_base(base: Seq<char>, target: Seq<char>) -> bool {
    !same_path_of(target, base) && starts_with_path_of(target, base)
}

/// Whether `target` lies strictly inside `base`.
pub fn inside_base(base: &str, target: &str) -> (r: bool)
    ensures
        r == spec_inside_base(base@, target@),
{
    !same_path(target, base) && path_starts_with(target, base)
}

/// Inserts `j` into `rest`, keeping it sorted by entry name; `j` goes after
/// the entries whose names sort before or equal to its own.
fn insert_by_name(rest: &mut Vec<usize>, j: usize, entries: &Vec<Entry>)
    requires
        j < entries@.len(),
        forall|k: int| 0 <= k < old(rest)@.len() ==> old(rest)@[k] < entries@.len(),
        name_sorted(entries@, old(rest)@),
        old(rest)@.no_duplicates(),
        !old(rest)@.contains(j),
    ensures
        forall|k: int| 0 <= k < final(rest)@.len() ==> final(rest)@[k] < entries@.len(),
        name_sorted(entries@, final(rest)@),
        final(rest)@.no_duplicates(),
        final(rest)@.to_set() == old(rest)@.to_set().insert(j),
        final(rest)@.len() == old(rest)@.len() + 1,
{
    let mut pos = rest.len();
    while pos > 0 && !str_le(entries[rest[pos - 1]].name.as_str(), entries[j].name.as_str())
        invariant
            pos <= rest@.len(),
            rest@ == old(rest)@,
            j < entries@.len(),
            forall|k: int| 0 <= k < rest@.len() ==> rest@[k] < entries@.len(),
            forall|q: int|
                pos <= q < rest@.len() ==> !lex_le(name_of(entries@, rest@[q]), name_of(entries@, j)),
        decreases pos,
    {
        pos = pos - 1;
    }
    let ghost before = rest@;
    rest.insert(pos, j);
    proof {
        let after = rest@;
        assert(after =~= before.insert(pos as int, j));
        assert forall|a: int, b: int| 0 <= a < b < after.len() implies lex_le(
            #[trigger] name_of(entries@, after[a]),
            #[trigger] name_of(entries@, after[b]),
        ) by {
            if b < pos {
                assert(after[a] == before[a] && after[b] == before[b]);
            } else if a > pos {
                assert(after[a] == before[a - 1] && after[b] == before[b - 1]);
            } else if a < pos && b == pos {
                assert(after[b] == j);
                assert(lex_le(name_of(entries@, before[pos - 1]), name_of(entries@, j)));
                if a < pos - 1 {
                    assert(lex_le(name_of(entries@, before[a]), name_of(entries@, before[pos - 1])));
                    lemma_lex_trans(
                        name_of(entries@, before[a]),
                        name_of(entries@, before[pos - 1]),
                        name_of(entries@, j),
                    );
                }
            } else if a < pos && b > pos {
                assert(after[a] == before[a] && after[b] == before[b - 1]);
            } else {
                assert(a == pos && after[a] == j && after[b] == before[b - 1]);
                lemma_lex_total(name_of(entries@, before[b - 1]), name_of(entries@, j));
            }
        }
        assert forall|x: usize| after.to_set().contains(x) <==> before.to_set().insert(j).contains(x) by {
            if after.contains(x) {
                let k = choose|k: int| 0 <= k < after.len() && after[k] == x;
                if k < pos {
                    assert(before[k] == x);
                } else if k > pos {
                    assert(before[k - 1] == x);
                }
            }
            if before.contains(x) {
                let k = choose|k: int| 0 <= k < before.len() && before[k] == x;
                if k < pos {
                    assert(after[k] == x);
                } else {
                    assert(after[k + 1] == x);
                }
            }
            if x == j {
                assert(after[pos as int] == j);
            }
        }
        assert(after.to_set() =~= before.to_set().insert(j));
        assert forall|a: int, b: int| 0 <= a < b < after.len() implies after[a] != after[b] by {
            if b < pos {
            } else if a > pos {
                assert(after[a] == before[a - 1] && after[b] == before[b - 1]);
            } else if a < pos && b == pos {
                assert(before.contains(before[a]));
            } else if a < pos && b > pos {
                assert(after[b] == before[b - 1]);
            } else {
                assert(after[a] == j && after[b] == before[b - 1]);
                assert(before.contains(before[b - 1]));
            }
        }
    }
}

/// The project name an entry graduates to: its name without a date prefix.
pub open spec fn spec_project_name(name: Seq<char>) -> Seq<char> {
    if spec_has_date_prefix(name) && name.len() > 11 {
        name.skip(11)
    } else {
        name
    }
}

/// The project name an entry graduates to.
pub fn graduate_project_name(entry_name: &str) -> (r: String)
    ensures
        r@ == spec_project_name(entry_name@),
{
    let v = chars_of(entry_name);
    if has_date_prefix(entry_name) && v.len() > 11 {
        string_of(slice_vec(v.as_slice(), 11, v.len()).as_slice())
    } else {
        owned(entry_name)
    }
}

/// Whether `p` is `~` or starts with `~/`.
pub open spec fn is_tilde_path(p: Seq<char>) -> bool {
    p == seq!['~'] || (p.len() >= 2 && p[0] == '~' && p[1] == '/')
}

/// `p` with a leading `~` replaced by the home directory, when there is one.
pub open spec fn tilde_expanded(p: Seq<char>, home: Option<Seq<char>>) -> Seq<char> {
    if is_tilde_path(p) && home is Some {
        home.unwrap() + p.skip(1)
    } else {
        p
    }
}

/// Replaces a leading `~` of `path` with `home`.
pub fn expand_tilde_with(path: &str, home: Option<&str>) -> (r: String)
    ensures
        r@ == tilde_expanded(path@, opt_str(home)),
{
    let v = chars_of(path);
    let tilde = (v.len() == 1 && v[0] == '~') || (v.len() >= 2 && v[0] == '~' && v[1] == '/');
    proof {
        if v@.len() == 1 && v@[0] == '~' {
            assert(path@ =~= seq!['~']);
        }
    }
    match home {
        Some(h) => {
            if tilde {
                let mut r = owned(h);
                let rest = string_of(slice_vec(v.as_slice(), 1, v.len()).as_slice());
                push_str(&mut r, rest.as_str());
                return r;
            }
        },
        None => {},
    }
    owned(path)
}

/// Replaces a leading `~` of `path` with the home directory.
pub fn expand_tilde_path(path: &str) -> (r: String)
    ensures
        exists|home: Option<Seq<char>>| r@ == tilde_expanded(path@, home),
        tilde_outcome(path@, r@),
{
    let v = chars_of(path);
    if (v.len() == 1 && v[0] == '~') || (v.len() >= 2 && v[0] == '~' && v[1] == '/') {
        let home_read = read_home();
        let ghost hg = home_read;
        let home = home_read.into_dir();
        let r = match &home {
            Some(h) => expand_tilde_with(path, Some(h.as_str())),
            None => expand_tilde_with(path, None),
        };
        proof {
            assert(r@ == tilde_expanded(path@, match home {
                Some(h) => Some(h@),
                None => None,
            }));
            assert(r@ == tilde_expanded(path@, hg.dir()));
        }
        r
    } else {
        let r = owned(path);
        proof {
            if path@ == seq!['~'] {
                assert(v@.len() == 1);
            }
            assert(r@ == tilde_expanded(path@, None));
            let h = vstd::pervasive::arbitrary::<HomeDir>();
            assert(r@ == tilde_expanded(path@, h.dir()));
        }
        r
    }
}

/// `r` is `path` with a leading `~` replaced by the home directory as it
/// was read.
pub open spec fn tilde_outcome(path: Seq<char>, r: Seq<char>) -> bool {
    exists|home: HomeDir| r == #[trigger] tilde_expanded(path, home.dir())
}

/// `r` is the typed destination `input`, its leading `~` replaced by the
/// home directory as it was read, resolved against `cwd`.
pub open spec fn input_path_outcome(input: Seq<char>, cwd: Seq<char>, r: Seq<char>) -> bool {
    exists|home: HomeDir| r == joined(cwd, #[trigger] tilde_expanded(input, home.dir()))
}

/// A leading `~` stands for the home directory: `~` alone is the home
/// directory and `~/rest` is `rest` under it, whenever the home directory
/// is known; a path that does not start with `~` is left alone, and so is
/// `~name`.
pub proof fn law_tilde_means_home(home: HomeDir, rest: Seq<char>, p: Seq<char>)
    ensures
        home.dir() matches Some(h) ==> tilde_expanded(seq!['~'], home.dir()) == h,
        home.dir() matches Some(h) ==> tilde_expanded(seq!['~', '/'] + rest, home.dir()) == h + seq!['/']
            + rest,
        (p.len() == 0 || p[0] != '~') ==> tilde_expanded(p, home.dir()) == p,
        (p.len() >= 2 && p[0] == '~' && p[1] != '/') ==> tilde_expanded(p, home.dir()) == p,
{
    let q = seq!['~', '/'] + rest;
    assert(q[0] == '~' && q[1] == '/');
    assert(q.skip(1) =~= seq!['/'] + rest);
    assert(seq!['~'].skip(1) =~= Seq::<char>::empty());
    if let Some(h) = home.dir() {
        assert(h + Seq::<char>::empty() =~= h);
        assert(h + (seq!['/'] + rest) =~= h + seq!['/'] + rest);
    }
}

/// Resolves a graduate destination typed by the user against `cwd`.
pub fn expand_input_path(input: &str, cwd: &str) -> (r: String)
    ensures
        exists|home: Option<Seq<char>>| r@ == joined(cwd@, tilde_expanded(input@, home)),
        input_path_outcome(input@, cwd@, r@),
{
    let expanded = expand_tilde_path(input);
    let v = chars_of(expanded.as_str());
    let r = if v.len() > 0 && v[0] == '/' {
        expanded
    } else {
        join_path(cwd, expanded.as_str())
    };
    proof {
        let h = choose|h: HomeDir| expanded@ == #[trigger] tilde_expanded(input@, h.dir());
        assert(r@ == joined(cwd@, tilde_expanded(input@, h.dir())));
    }
    r
}

/// Whether `LAB_PROJECTS` names a projects directory.
pub open spec fn projects_override(lab_projects: Option<&str>) -> bool {
    lab_projects matches Some(p) && p@.len() > 0
}

/// The parent of `path`, or `path` itself when it has none.
pub open spec fn parent_or_self(path: Seq<char>) -> Seq<char> {
    match parent_of(path) {
        Some(p) => p,
        None => path,
    }
}

/// Where graduated projects go, and a hint saying why: `LAB_PROJECTS` when
/// set, else the parent of the labs directory.
pub open spec fn projects_dir_chosen(labs_path: Seq<char>, lab_projects: Option<&str>, dir: Seq<char>, hint: Seq<char>) -> bool {
    if projects_override(lab_projects) {
        &&& hint == "$LAB_PROJECTS"@
        &&& exists|home: Option<Seq<char>>| dir == tilde_expanded(lab_projects.unwrap()@, home)
    } else {
        &&& hint == "parent of $LAB_PATH"@
        &&& dir == parent_or_self(labs_path)
    }
}

/// The directory graduated projects go to, and how it was chosen.
pub fn resolve_graduate_projects_dir(labs_path: &str, lab_projects: Option<&str>) -> (r: (String, String))
    ensures
        projects_dir_chosen(labs_path@, lab_projects, r.0@, r.1@),
{
    proof {
        reveal_strlit("$LAB_PROJECTS");
        reveal_strlit("parent of $LAB_PATH");
    }
    match lab_projects {
        Some(path) => {
            if chars_of(path).len() > 0 {
                return (expand_tilde_path(path), owned("$LAB_PROJECTS"));
            }
        },
        None => {},
    }
    let dir = match parent_path(labs_path) {
        Some(p) => p,
        None => owned(labs_path),
    };
    (dir, owned("parent of $LAB_PATH"))
}

/// The default graduate destination for an entry: its project name inside
/// the projects directory; also the hint and the projects directory.
pub fn default_graduate_destination(labs_path: &str, entry_name: &str, lab_projects: Option<&str>) -> (r: (String, String, String))
    ensures
        r.0@ == joined(r.2@, spec_project_name(entry_name@)),
        projects_dir_chosen(labs_path@, lab_projects, r.2@, r.1@),
{
    let project_name = graduate_project_name(entry_name);
    let (projects_dir, destination_hint) = resolve_graduate_projects_dir(labs_path, lab_projects);
    (join_path(projects_dir.as_str(), project_name.as_str()), destination_hint, projects_dir)
}

/// The digits of an unsigned numeral: `s` without one leading `+`.
pub open spec fn unsigned_digits(s: Seq<char>) -> Seq<char> {
    if s.len() > 0 && s[0] == '+' {
        s.skip(1)
    } else {
        s
    }
}

/// `s` parsed as a `u16` the way `str::parse::<u16>` does: an optional `+`,
/// then one or more decimal digits, with a value that fits.
pub open spec fn spec_parse_u16(s: Seq<char>) -> Option<u16> {
    let d = unsigned_digits(s);
    if d.len() == 0 || !all_digits(d) {
        None
    } else if decimal_value(d) <= u16::MAX {
        Some(decimal_value(d) as u16)
    } else {
        None
    }
}

/// Parses a `u16` the way `str::parse::<u16>` does.
pub fn parse_u16(s: &str) -> (r: Option<u16>)
    ensures
        r == spec_parse_u16(s@),
{
    let v = chars_of(s);
    let start: usize = if v.len() > 0 && v[0] == '+' {
        1
    } else {
        0
    };
    let ghost d = unsigned_digits(s@);
    proof {
        assert(d =~= v@.skip(start as int));
    }
    if start == v.len() {
        return None;
    }
    let mut value: u16 = 0;
    let mut i: usize = start;
    while i < v.len()
        invariant
            start <= i <= v@.len(),
            start < v@.len(),
            v@ == s@,
            d == unsigned_digits(s@),
            d == v@.skip(start as int),
            forall|t: int| 0 <= t < i - start ==> is_digit(#[trigger] d[t]),
            value == decimal_value(d.take(i - start)),
        decreases v@.len() - i,
    {
        let c = v[i];
        if !('0' <= c && c <= '9') {
            proof {
                assert(!is_digit(d[i - start]));
            }
            return None;
        }
        let digit: u16 = (c as u32 - '0' as u32) as u16;
        proof {
            assert(d.take(i - start + 1).drop_last() =~= d.take(i - start));
            assert(d.take(i - start + 1).last() == c);
        }
        if value > 6553 || (value == 6553 && digit > 5) {
            proof {
                assert(forall|t: int| 0 <= t < i - start + 1 ==> is_digit(#[trigger] d[t]));
                if all_digits(d) {
                    lemma_decimal_grows(d, i - start + 1);
                }
            }
            return None;
        }
        value = value * 10 + digit;
        i = i + 1;
    }
    proof {
        assert(d.take(i - start) =~= d);
    }
    Some(value)
}

/// Resolve one terminal dimension: a positive override wins, else the
/// detected size when positive, else the default.
pub fn resolve_dimension(override_value: Option<&str>, detected: u16, default: u16) -> (r: u16)
    ensures
        r == match override_value {
            Some(v) => match spec_parse_u16(v@) {
                Some(n) => if n > 0 {
                    n
                } else if detected > 0 {
                    detected
                } else {
                    default
                },
                None => if detected > 0 {
                    detected
                } else {
                    default
                },
            },
            None => if detected > 0 {
                detected
            } else {
                default
            },
        },
{
    let fallback = if detected > 0 {
        detected
    } else {
        default
    };
    match override_value {
        Some(v) => match parse_u16(v) {
            Some(n) => if n > 0 {
                n
            } else {
                fallback
            },
            None => fallback,
        },
        None => fallback,
    }
}

/// The name of a new entry: the date, a dash, and the input with each run
/// of whitespace turned into one dash.
pub fn create_name_with_date(date: &str, input: &str) -> (r: String)
    ensures
        r@ == date@ + seq!['-'] + collapse_spaces(input@),
{
    let mut r = owned(date);
    push_str(&mut r, "-");
    proof {
        reveal_strlit("-");
    }
    let fragment = collapse_whitespace(input);
    push_str(&mut r, fragment.as_str());
    r
}

/// How the projects directory and hint of a graduate dialog were chosen,
/// given the `LAB_PROJECTS` setting as text.
pub open spec fn graduate_hint_fits(labs_path: Seq<char>, lab_projects: Option<Seq<char>>, dir: Seq<char>, hint: Seq<char>) -> bool {
    if lab_projects matches Some(p) && p.len() > 0 {
        &&& hint == "$LAB_PROJECTS"@
        &&& exists|home: Option<Seq<char>>| dir == tilde_expanded(lab_projects.unwrap(), home)
    } else {
        &&& hint == "parent of $LAB_PATH"@
        &&& dir == parent_or_self(labs_path)
    }
}

/// The parent of `path`, or `/` when it has none.
pub open spec fn parent_or_root(path: Seq<char>) -> Seq<char> {
    match parent_of(path) {
        Some(p) => p,
        None => seq!['/'],
    }
}

/// Full selector state.
#[derive(Debug)]
pub struct App {
    /// Labs root directory.
    pub labs_path: String,
    /// All loaded entries.
    pub entries: Vec<Entry>,
    /// Filtered entries currently visible to the selector.
    pub filtered: Vec<MatchResult>,
    /// Search input buffer.
    pub input: String,
    /// Cursor position within the input buffer, in chars.
    pub input_cursor_pos: usize,
    /// Selected row in the filtered results / create-new list.
    pub cursor_pos: usize,
    /// Scroll offset for long result sets.
    pub scroll_offset: usize,
    /// Current selector mode.
    pub mode: Mode,
    /// Marked entry indices.
    pub marks: HashSet<usize>,
    /// Delete confirmation dialog state when active.
    pub delete_confirmation: Option<DeleteConfirmation>,
    /// Rename dialog state when active.
    pub rename_dialog: Option<RenameDialog>,
    /// Graduate dialog state when active.
    pub graduate_dialog: Option<GraduateDialog>,
    /// Current terminal dimensions.
    pub terminal_size: TerminalSize,
    /// The `LAB_PROJECTS` setting, as the caller read it from the environment.
    pub lab_projects: Option<String>,
    /// The working directory that relative graduate destinations resolve against.
    pub working_dir: String,
    /// The local date (`YYYY-MM-DD`) that new labs are named with, as the
    /// caller read it from the clock.
    pub today: String,
}

/// The cursor of an optional line editor is within its text.
pub open spec fn delete_line_ok(d: Option<DeleteConfirmation>) -> bool {
    d matches Some(x) ==> x.cursor_pos <= x.input@.len()
}

/// The cursor of an optional rename dialog is within its text.
pub open spec fn rename_line_ok(d: Option<RenameDialog>) -> bool {
    d matches Some(x) ==> x.cursor_pos <= x.input@.len()
}

/// The cursor of an optional graduate dialog is within its text.
pub open spec fn graduate_line_ok(d: Option<GraduateDialog>) -> bool {
    d matches Some(x) ==> x.cursor_pos <= x.input@.len()
}

impl App {
    /// Well-formedness: filter results and marks name existing entries, and
    /// every cursor lies within its text.
    pub open spec fn wf(self) -> bool {
        &&& self.entries@.len() < usize::MAX
        &&& self.filtered@.len() <= self.entries@.len()
        &&& forall|k: int|
            0 <= k < self.filtered@.len() ==> #[trigger] self.filtered@[k].index
                < self.entries@.len()
        &&& forall|m: usize| self.marks@.contains(m) ==> m < self.entries@.len()
        &&& self.input_cursor_pos <= self.input@.len()
        &&& delete_line_ok(self.delete_confirmation)
        &&& rename_line_ok(self.rename_dialog)
        &&& graduate_line_ok(self.graduate_dialog)
    }

    /// Selectable rows: the results, plus the "create new" row when the
    /// input is not empty.
    pub open spec fn total(self) -> int {
        self.filtered@.len() + if self.input@.len() > 0 {
            1int
        } else {
            0int
        }
    }

    /// Rows shown at once.
    pub open spec fn visible(self) -> int {
        spec_visible_limit(self.terminal_size.height)
    }

    /// `next` is this state with the selection moved to row `cursor` and
    /// the scroll adjusted to keep it visible.
    pub open spec fn moved_to(self, next: Self, cursor: int) -> bool {
        next == (App {
            cursor_pos: cursor as usize,
            scroll_offset: scrolled_to(cursor, self.scroll_offset as int, self.visible()) as usize,
            ..self
        })
    }

    /// Build a new app from loaded entries and optional initial input.
    pub fn new(labs_path: &str, entries: Vec<Entry>, initial_input: Option<&str>, size: TerminalSize) -> (app: Self)
        requires
            entries@.len() < usize::MAX,
        ensures
            app.wf(),
            app.labs_path@ == labs_path@,
            app.entries@ == entries@,
            app.input@ == match initial_input {
                Some(s) => s@,
                None => Seq::<char>::empty(),
            },
            app.input_cursor_pos == app.input@.len(),
            filter_view(app.filtered@) == spec_filter(entries@, app.input@),
            app.cursor_pos == 0,
            app.scroll_offset == 0,
            app.mode == Mode::Normal,
            app.marks@ == Set::<usize>::empty(),
            app.delete_confirmation is None,
            app.rename_dialog is None,
            app.graduate_dialog is None,
            app.terminal_size == size,
            app.lab_projects is None,
            app.working_dir@ == seq!['.'],
            app.today@ == Seq::<char>::empty(),
    {
        let input = match initial_input {
            Some(s) => owned(s),
            None => String::new(),
        };
        let input_cursor_pos = chars_of(input.as_str()).len();
        let filtered = filter_entries(&entries, input.as_str());
        let mut app = App {
            labs_path: owned(labs_path),
            entries,
            filtered,
            input,
            input_cursor_pos,
            cursor_pos: 0,
            scroll_offset: 0,
            mode: Mode::Normal,
            marks: HashSet::new(),
            delete_confirmation: None,
            rename_dialog: None,
            graduate_dialog: None,
            terminal_size: size,
            lab_projects: None,
            working_dir: owned("."),
            today: String::new(),
        };
        proof {
            reveal_strlit(".");
        }
        app
    }

    /// Update the known terminal size and recompute the visible results.
    pub fn set_terminal_size(&mut self, size: TerminalSize)
        requires
            old(self).wf(),
        ensures
            final(self).wf(),
            refreshed(App { terminal_size: size, ..*old(self) }, *final(self)),
    {
        self.terminal_size = size;
        self.refresh_filtered();
    }

    /// Maximum number of real entries shown at once.
    pub fn visible_result_limit(&self) -> (r: usize)
        ensures
            r == self.visible(),
    {
        let h: usize = if self.terminal_size.height > 5 {
            (self.terminal_size.height - 5) as usize
        } else {
            0
        };
        if h > 3 {
            h
        } else {
            3
        }
    }

    /// Whether the virtual "create new" row should be shown.
    pub fn show_create_new(&self) -> (r: bool)
        ensures
            r == (self.input@.len() > 0),
    {
        chars_of(self.input.as_str()).len() > 0
    }

    /// Total selectable rows, including the virtual "create new" row when present.
    pub fn total_items(&self) -> (r: usize)
        requires
            self.wf(),
        ensures
            r == self.total(),
    {
        if self.show_create_new() {
            self.filtered.len() + 1
        } else {
            self.filtered.len()
        }
    }

    /// Return the selected real entry index, if the cursor is on an entry row.
    pub fn current_entry_index(&self) -> (r: Option<usize>)
        ensures
            r == (if self.cursor_pos < self.filtered@.len() {
                Some(self.filtered@[self.cursor_pos as int].index)
            } else {
                None
            }),
    {
        if self.cursor_pos < self.filtered.len() {
            Some(self.filtered[self.cursor_pos].index)
        } else {
            None
        }
    }

    /// Whether delete mode is active because at least one entry is marked.
    pub fn is_delete_mode(&self) -> (r: bool)
        ensures
            r == (!self.marks@.is_empty() && self.mode == Mode::Normal),
    {
        !self.marks.is_empty() && self.mode == Mode::Normal
    }

    /// Whether the delete confirmation dialog is active.
    pub fn is_confirming_delete(&self) -> (r: bool)
        ensures
            r == (self.mode == Mode::DeleteConfirm),
    {
        self.mode == Mode::DeleteConfirm
    }

    /// Whether the rename dialog is active.
    pub fn is_renaming(&self) -> (r: bool)
        ensures
            r == (self.mode == Mode::Rename),
    {
        self.mode == Mode::Rename
    }

    /// Whether the graduate dialog is active.
    pub fn is_graduating(&self) -> (r: bool)
        ensures
            r == (self.mode == Mode::Graduate),
    {
        self.mode == Mode::Graduate
    }

    /// Return the number of marked entries.
    pub fn marked_count(&self) -> (r: usize)
        ensures
            r == self.marks@.len(),
    {
        self.marks.len()
    }

    /// Recompute the filtered results based on the current input.
    pub fn refresh_filtered(&mut self)
        requires
            old(self).wf(),
        ensures
            final(self).wf(),
            refreshed(*old(self), *final(self)),
    {
        self.filtered = filter_entries(&self.entries, self.input.as_str());
        self.clamp_cursor();
        self.ensure_cursor_visible();
    }

    fn clamp_cursor(&mut self)
        requires
            old(self).wf(),
        ensures
            *final(self) == (App { cursor_pos: clamped(old(self).cursor_pos as int, old(self).total()) as usize, ..*old(self) }),
    {
        let total = self.total_items();
        if total == 0 {
            self.cursor_pos = 0;
        } else if self.cursor_pos >= total - 1 {
            self.cursor_pos = total - 1;
        }
    }

    fn ensure_cursor_visible(&mut self)
        ensures
            old(self).moved_to(*final(self), old(self).cursor_pos as int),
    {
        let visible = self.visible_result_limit();
        if self.cursor_pos < self.scroll_offset {
            self.scroll_offset = self.cursor_pos;
        } else if self.cursor_pos - self.scroll_offset >= visible {
            self.scroll_offset = self.cursor_pos - visible + 1;
        }
    }

    /// Move the selection down one row, clamped at the end.
    pub fn move_down(&mut self)
        requires
            old(self).wf(),
        ensures
            old(self).moved_to(*final(self), old(self).down_target()),
    {
        let total = self.total_items();
        if total > 0 {
            self.cursor_pos = if self.cursor_pos < total - 1 {
                self.cursor_pos + 1
            } else {
                total - 1
            };
        }
        self.ensure_cursor_visible();
    }

    /// Move the selection up one row, clamped at the start.
    pub fn move_up(&mut self)
        ensures
            old(self).moved_to(*final(self), old(self).up_target()),
    {
        if self.cursor_pos > 0 {
            self.cursor_pos = self.cursor_pos - 1;
        }
        self.ensure_cursor_visible();
    }

    /// Jump to the first selectable row.
    pub fn move_to_top(&mut self)
        ensures
            *final(self) == (App { cursor_pos: 0, scroll_offset: 0, ..*old(self) }),
    {
        self.cursor_pos = 0;
        self.scroll_offset = 0;
    }

    /// Jump to the last selectable row.
    pub fn move_to_bottom(&mut self)
        requires
            old(self).wf(),
        ensures
            old(self).moved_to(*final(self), old(self).bottom_target()),
    {
        let total = self.total_items();
        self.cursor_pos = if total > 0 {
            total - 1
        } else {
            0
        };
        self.ensure_cursor_visible();
    }

    /// Move the selection up by one visible page.
    pub fn page_up(&mut self)
        ensures
            old(self).moved_to(*final(self), old(self).page_up_target()),
    {
        let visible = self.visible_result_limit();
        self.cursor_pos = if self.cursor_pos > visible {
            self.cursor_pos - visible
        } else {
            0
        };
        self.ensure_cursor_visible();
    }

    /// Move the selection down by one visible page.
    pub fn page_down(&mut self)
        requires
            old(self).wf(),
        ensures
            old(self).moved_to(*final(self), old(self).page_down_target()),
    {
        let total = self.total_items();
        let visible = self.visible_result_limit();
        if total == 0 {
            self.cursor_pos = 0;
        } else if self.cursor_pos < total - 1 && visible < total - 1 - self.cursor_pos {
            self.cursor_pos = self.cursor_pos + visible;
        } else {
            self.cursor_pos = total - 1;
        }
        self.ensure_cursor_visible();
    }

    /// `next` is this state with the mark of the selected entry flipped; nothing
    /// changes when the selection is the create-new row.
    pub open spec fn toggled(self, next: Self) -> bool {
        &&& (self.cursor_pos >= self.filtered@.len() ==> next == self)
        &&& (self.cursor_pos < self.filtered@.len() ==> {
            let i = self.filtered@[self.cursor_pos as int].index;
            &&& next == (App {
                marks: next.marks,
                mode: Mode::Normal,
                delete_confirmation: None,
                ..self
            })
            &&& next.marks@ == if self.marks@.contains(i) {
                self.marks@.remove(i)
            } else {
                self.marks@.insert(i)
            }
        })
    }

    /// `next` opens a blank delete confirmation when anything is marked;
    /// otherwise nothing changes.
    pub open spec fn delete_begun(self, next: Self) -> bool {
        &&& (self.marks@.is_empty() ==> next == self)
        &&& (!self.marks@.is_empty() ==> {
            &&& next == (App {
                mode: Mode::DeleteConfirm,
                delete_confirmation: next.delete_confirmation,
                ..self
            })
            &&& next.delete_confirmation matches Some(d) && d.input@.len() == 0
                && d.cursor_pos == 0
        })
    }

    /// `next` and `r` are what submitting the delete confirmation gives.
    pub open spec fn delete_submitted(self, next: Self, r: Option<DeleteSelection>) -> bool {
        &&& (self.mode != Mode::DeleteConfirm ==> r is None && next == self)
        &&& (self.mode == Mode::DeleteConfirm ==> {
            &&& self.marks_cleared(next)
            &&& (!(self.delete_confirmation matches Some(d) && d.input@ == "YES"@)
                ==> r is None)
            &&& (self.delete_confirmation matches Some(d) && d.input@ == "YES"@ ==> exists|
                s: Seq<usize>,
            |
                #[trigger] self.orders_marks(s) && (r matches Some(sel) ==> string_views(
                    sel.basenames@,
                ) == names_at(self.entries@, s)) && exists|
                    base: CanonicalPath,
                    targets: Seq<CanonicalPath>,
                |
                    #[trigger] delete_decided(r, self.labs_path@, paths_at(self.entries@, s), base, targets))
        })
    }

    /// `next` opens the rename dialog on the selected entry, clearing the marks;
    /// nothing changes on the create-new row.
    pub open spec fn rename_begun(self, next: Self) -> bool {
        &&& (self.cursor_pos >= self.filtered@.len() ==> next == self)
        &&& (self.cursor_pos < self.filtered@.len() ==> {
            let name = self.entries@[self.filtered@[self.cursor_pos as int].index as int].name@;
            &&& next == (App {
                marks: next.marks,
                mode: Mode::Rename,
                delete_confirmation: None,
                rename_dialog: next.rename_dialog,
                ..self
            })
            &&& next.marks@ == Set::<usize>::empty()
            &&& next.rename_dialog matches Some(d) && d.current_name@ == name
                && d.input@ == name && d.cursor_pos == name.len() && d.error is None
        })
    }

    /// `next` and `r` are what submitting the rename dialog gives.
    pub open spec fn rename_submitted(self, next: Self, r: Result<Option<RenameSelection>, String>) -> bool {
        &&& (self.mode != Mode::Rename ==> (r matches Ok(None) && next == self))
        &&& (self.mode == Mode::Rename && self.rename_dialog is None ==> (r matches Ok(None)
            && next == (App { mode: Mode::Normal, ..self })))
        &&& (self.mode == Mode::Rename && self.rename_dialog is Some ==> {
            let d = self.rename_dialog.unwrap();
            let new_name = join_dash(words(d.input@));
            if new_name.len() == 0 {
                self.rename_rejected(next, r, "Name cannot be empty"@)
            } else if new_name.contains('/') {
                self.rename_rejected(next, r, "Name cannot contain /"@)
            } else if new_name == d.current_name@ {
                r matches Ok(None) && next == (App {
                    mode: Mode::Normal,
                    rename_dialog: None,
                    ..self
                })
            } else {
                ||| self.rename_accepted(next, r, d.current_name@, new_name)
                ||| self.rename_rejected(next, r, "Directory exists: "@ + new_name)
            }
        })
    }

    /// `next` opens the graduate dialog on the selected entry with its default
    /// destination, clearing the marks; nothing changes on the create-new row.
    pub open spec fn graduate_begun(self, next: Self) -> bool {
        &&& (self.cursor_pos >= self.filtered@.len() ==> next == self)
        &&& (self.cursor_pos < self.filtered@.len() ==> {
            let name = self.entries@[self.filtered@[self.cursor_pos as int].index as int].name@;
            let lab_projects = match self.lab_projects {
                Some(p) => Some(p@),
                None => None::<Seq<char>>,
            };
            &&& next == (App {
                marks: next.marks,
                mode: Mode::Graduate,
                delete_confirmation: None,
                graduate_dialog: next.graduate_dialog,
                ..self
            })
            &&& next.marks@ == Set::<usize>::empty()
            &&& next.graduate_dialog matches Some(d) && d.current_name@ == name
                && d.input@ == joined(d.destination_root@, spec_project_name(name))
                && d.cursor_pos == d.input@.len() && d.error is None
                && graduate_hint_fits(self.labs_path@, lab_projects, d.destination_root@, d.destination_hint@)
        })
    }

    /// `next` and `r` are what submitting the graduate dialog gives.
    pub open spec fn graduate_submitted(self, next: Self, r: Result<Option<GraduateSelection>, String>) -> bool {
        &&& (self.mode != Mode::Graduate ==> (r matches Ok(None) && next == self))
        &&& (self.mode == Mode::Graduate && self.graduate_dialog is None ==> (r matches Ok(None)
            && next == (App { mode: Mode::Normal, ..self })))
        &&& (self.mode == Mode::Graduate && self.graduate_dialog is Some
            && self.cursor_pos >= self.filtered@.len() ==> (r matches Ok(None)
            && next == (App { mode: Mode::Normal, graduate_dialog: None, ..self })))
        &&& (self.mode == Mode::Graduate && self.graduate_dialog is Some
            && self.cursor_pos < self.filtered@.len() ==> {
            let d = self.graduate_dialog.unwrap();
            let index = self.filtered@[self.cursor_pos as int].index as int;
            let typed = trimmed(d.input@);
            if typed.len() == 0 {
                self.graduate_rejected(next, r, "Destination cannot be empty"@)
            } else {
                exists|home: Option<Seq<char>>|
                    #![trigger tilde_expanded(typed, home)]
                    {
                        let dest = joined(self.working_dir@, tilde_expanded(typed, home));
                        ||| self.graduate_rejected(next, r, "Destination already exists: "@ + dest)
                        ||| self.graduate_rejected(next, r, "Parent directory does not exist: "@ + parent_or_root(dest))
                        ||| {
                            &&& r matches Ok(Some(sel)) && sel.source@ == self.entries@[index].path@
                                && sel.dest@ == dest && sel.basename@ == self.entries@[index].name@
                                && sel.base_path@ == self.labs_path@
                            &&& next == (App {
                                mode: Mode::Normal,
                                graduate_dialog: None,
                                ..self
                            })
                        }
                    }
            }
        })
    }

    /// The row below the selection, staying on the last row.
    pub open spec fn down_target(self) -> int {
        if self.total() == 0 {
            self.cursor_pos as int
        } else if self.cursor_pos < self.total() - 1 {
            self.cursor_pos + 1
        } else {
            self.total() - 1
        }
    }

    /// The row above the selection, staying on the first row.
    pub open spec fn up_target(self) -> int {
        if self.cursor_pos > 0 {
            self.cursor_pos - 1
        } else {
            0
        }
    }

    /// The last row.
    pub open spec fn bottom_target(self) -> int {
        if self.total() > 0 {
            self.total() - 1
        } else {
            0
        }
    }

    /// One page above the selection, staying on the first row.
    pub open spec fn page_up_target(self) -> int {
        if self.cursor_pos > self.visible() {
            self.cursor_pos - self.visible()
        } else {
            0
        }
    }

    /// One page below the selection, staying on the last row.
    pub open spec fn page_down_target(self) -> int {
        if self.total() == 0 {
            0
        } else if self.cursor_pos + self.visible() < self.total() - 1 {
            self.cursor_pos + self.visible()
        } else {
            self.total() - 1
        }
    }

    /// The create-new name for a non-empty input: today's date, a dash, and
    /// the input with whitespace runs turned into dashes.
    pub open spec fn new_name(self) -> Seq<char> {
        self.today@ + seq!['-'] + collapse_spaces(self.input@)
    }

    /// `r` is the create-new name: `None` for an empty input, otherwise
    /// `new_name`.
    pub open spec fn names_new(self, r: Option<String>) -> bool {
        &&& (self.input@.len() == 0 ==> r is None)
        &&& (self.input@.len() > 0 ==> (r matches Some(n) && n@ == self.new_name()))
    }

    /// `r` is the current selection: the selected entry's path, or the
    /// create-new path inside the labs directory, or nothing.
    pub open spec fn selects(self, r: Option<Selection>) -> bool {
        &&& (self.cursor_pos < self.filtered@.len() ==> (r matches Some(Selection::Existing(p))
            && p@ == self.entries@[self.filtered@[self.cursor_pos as int].index as int].path@))
        &&& (self.cursor_pos >= self.filtered@.len() && self.input@.len() == 0 ==> r is None)
        &&& (self.cursor_pos >= self.filtered@.len() && self.input@.len() > 0 ==> (r matches Some(
            Selection::Create(p),
        ) && p@ == joined(self.labs_path@, self.new_name())))
    }

    /// Every cursor can advance by one without overflow.
    pub open spec fn has_room(self) -> bool {
        &&& self.input_cursor_pos < usize::MAX
        &&& (self.delete_confirmation matches Some(d) ==> d.cursor_pos < usize::MAX)
        &&& (self.rename_dialog matches Some(d) ==> d.cursor_pos < usize::MAX)
        &&& (self.graduate_dialog matches Some(d) ==> d.cursor_pos < usize::MAX)
    }

    /// `next` is this state after `op` on the search input: a change to the
    /// text resets the selection to the top and refilters.
    pub open spec fn query_edited(self, next: Self, op: EditOp) -> bool {
        let acc = match op {
            EditOp::Insert(c) => spec_allowed_input_char(c),
            _ => true,
        };
        let text = edit_text(self.input@, self.input_cursor_pos as int, op, acc);
        let cur = edit_cursor(self.input@, self.input_cursor_pos as int, op, acc);
        if edit_rewrites(self.input@, self.input_cursor_pos as int, op, acc) {
            &&& next == (App {
                input: next.input,
                input_cursor_pos: cur as usize,
                filtered: next.filtered,
                cursor_pos: 0,
                scroll_offset: 0,
                ..self
            })
            &&& next.input@ == text
            &&& filter_view(next.filtered@) == spec_filter(self.entries@, text)
        } else {
            next == (App { input_cursor_pos: cur as usize, ..self })
        }
    }

    /// `next` is this state after `op` on the line being edited: the open
    /// dialog's input, or the search input in normal mode.
    pub open spec fn edited(self, next: Self, op: EditOp) -> bool {
        match self.mode {
            Mode::Rename => {
                &&& next == (App { rename_dialog: next.rename_dialog, ..self })
                &&& match self.rename_dialog {
                    Some(d) => next.rename_dialog matches Some(e) && d.edited(e, op),
                    None => next.rename_dialog is None,
                }
            },
            Mode::Graduate => {
                &&& next == (App { graduate_dialog: next.graduate_dialog, ..self })
                &&& match self.graduate_dialog {
                    Some(d) => next.graduate_dialog matches Some(e) && d.edited(e, op),
                    None => next.graduate_dialog is None,
                }
            },
            Mode::DeleteConfirm => {
                &&& next == (App { delete_confirmation: next.delete_confirmation, ..self })
                &&& match self.delete_confirmation {
                    Some(d) => next.delete_confirmation matches Some(e) && d.edited(e, op),
                    None => next.delete_confirmation is None,
                }
            },
            Mode::Normal => self.query_edited(next, op),
        }
    }

    fn on_query_changed(&mut self)
        requires
            old(self).wf(),
        ensures
            final(self).wf(),
            refreshed(App { cursor_pos: 0, scroll_offset: 0, ..*old(self) }, *final(self)),
    {
        self.cursor_pos = 0;
        self.scroll_offset = 0;
        self.refresh_filtered();
    }

    fn edit_query(&mut self, op: EditOp)
        requires
            old(self).wf(),
            op is Insert ==> old(self).input_cursor_pos < usize::MAX,
        ensures
            final(self).wf(),
            old(self).query_edited(*final(self), op),
    {
        let p = self.input_cursor_pos;
        proof {
            let acc = match op {
                EditOp::Insert(c) => spec_allowed_input_char(c),
                _ => true,
            };
            law_edit_keeps_cursor_in_text(self.input@, p as int, op, acc);
        }
        match op {
            EditOp::Insert(c) => {
                if !is_allowed_input_char(c) {
                    return;
                }
                self.input = insert_char_at(self.input.as_str(), p, c);
                self.input_cursor_pos = p + 1;
            },
            EditOp::Backspace => {
                if p == 0 {
                    return;
                }
                self.input = remove_char_range(self.input.as_str(), p - 1, p);
                self.input_cursor_pos = p - 1;
            },
            EditOp::ToStart => {
                self.input_cursor_pos = 0;
                return;
            },
            EditOp::ToEnd => {
                self.input_cursor_pos = char_count(self.input.as_str());
                return;
            },
            EditOp::Back => {
                if p > 0 {
                    self.input_cursor_pos = p - 1;
                }
                return;
            },
            EditOp::Forward => {
                let n = char_count(self.input.as_str());
                self.input_cursor_pos = if p < n {
                    p + 1
                } else {
                    n
                };
                return;
            },
            EditOp::KillToEnd => {
                let n = char_count(self.input.as_str());
                if p >= n {
                    return;
                }
                self.input = remove_char_range(self.input.as_str(), p, n);
                proof {
                    assert(removed_range(old(self).input@, p as int, n as int) =~= old(
                        self,
                    ).input@.take(p as int));
                }
            },
            EditOp::DeleteWord => {
                if p == 0 {
                    return;
                }
                let start = find_word_start(self.input.as_str(), p);
                self.input = remove_char_range(self.input.as_str(), start, p);
                self.input_cursor_pos = start;
            },
        }
        self.on_query_changed();
    }

    fn edit(&mut self, op: EditOp)
        requires
            old(self).wf(),
            op is Insert ==> old(self).has_room(),
        ensures
            final(self).wf(),
            old(self).edited(*final(self), op),
    {
        if self.mode == Mode::Rename {
            match &mut self.rename_dialog {
                Some(d) => {
                    proof {
                        let acc = match op {
                            EditOp::Insert(c) => crate::dialogs::spec_allowed_rename_char(c),
                            _ => true,
                        };
                        law_edit_keeps_cursor_in_text(d.input@, d.cursor_pos as int, op, acc);
                    }
                    d.apply(op);
                },
                None => {},
            }
        } else if self.mode == Mode::Graduate {
            match &mut self.graduate_dialog {
                Some(d) => {
                    proof {
                        let acc = match op {
                            EditOp::Insert(c) => crate::dialogs::spec_allowed_graduate_char(c),
                            _ => true,
                        };
                        law_edit_keeps_cursor_in_text(d.input@, d.cursor_pos as int, op, acc);
                    }
                    d.apply(op);
                },
                None => {},
            }
        } else if self.mode == Mode::DeleteConfirm {
            match &mut self.delete_confirmation {
                Some(d) => {
                    proof {
                        let acc = match op {
                            EditOp::Insert(c) => crate::dialogs::spec_is_printable(c),
                            _ => true,
                        };
                        law_edit_keeps_cursor_in_text(d.input@, d.cursor_pos as int, op, acc);
                    }
                    d.apply(op);
                },
                None => {},
            }
        } else {
            self.edit_query(op);
        }
    }

    /// Insert a character into the line being edited.
    pub fn insert_char(&mut self, character: char)
        requires
            old(self).wf(),
            old(self).has_room(),
        ensures
            final(self).wf(),
            old(self).edited(*final(self), EditOp::Insert(character)),
    {
        self.edit(EditOp::Insert(character));
    }

    /// Delete the character before the cursor of the line being edited.
    pub fn backspace(&mut self)
        requires
            old(self).wf(),
        ensures
            final(self).wf(),
            old(self).edited(*final(self), EditOp::Backspace),
    {
        self.edit(EditOp::Backspace);
    }

    /// Move the input cursor to the start.
    pub fn move_input_to_start(&mut self)
        requires
            old(self).wf(),
        ensures
            final(self).wf(),
            old(self).edited(*final(self), EditOp::ToStart),
    {
        self.edit(EditOp::ToStart);
    }

    /// Move the input cursor to the end.
    pub fn move_input_to_end(&mut self)
        requires
            old(self).wf(),
        ensures
            final(self).wf(),
            old(self).edited(*final(self), EditOp::ToEnd),
    {
        self.edit(EditOp::ToEnd);
    }

    /// Move the input cursor back one character.
    pub fn move_input_back(&mut self)
        requires
            old(self).wf(),
        ensures
            final(self).wf(),
            old(self).edited(*final(self), EditOp::Back),
    {
        self.edit(EditOp::Back);
    }

    /// Move the input cursor forward one character.
    pub fn move_input_forward(&mut self)
        requires
            old(self).wf(),
        ensures
            final(self).wf(),
            old(self).edited(*final(self), EditOp::Forward),
    {
        self.edit(EditOp::Forward);
    }

    /// Delete from the input cursor to the end of the line.
    pub fn kill_to_end(&mut self)
        requires
            old(self).wf(),
        ensures
            final(self).wf(),
            old(self).edited(*final(self), EditOp::KillToEnd),
    {
        self.edit(EditOp::KillToEnd);
    }

    /// Delete the previous word from the line being edited.
    pub fn delete_word_backward(&mut self)
        requires
            old(self).wf(),
        ensures
            final(self).wf(),
            old(self).edited(*final(self), EditOp::DeleteWord),
    {
        self.edit(EditOp::DeleteWord);
    }

    /// `r` lists the marked entries: first those among the results, in
    /// result order; then the others, without repeats, sorted by name.
    pub open spec fn orders_marks(self, r: Seq<usize>) -> bool {
        let first = marked_in_results(self.filtered@, self.marks@);
        let rest = r.skip(first.len() as int);
        &&& first.len() <= r.len()
        &&& r.take(first.len() as int) == first
        &&& rest.no_duplicates()
        &&& rest.to_set() == self.marks@.difference(shown_indices(self.filtered@))
        &&& name_sorted(self.entries@, rest)
    }

    /// The marked entry indices in their current visible order.
    fn ordered_marked_entry_indices(&self) -> (r: Vec<usize>)
        requires
            self.wf(),
        ensures
            self.orders_marks(r@),
            forall|k: int| 0 <= k < r@.len() ==> r@[k] < self.entries@.len(),
    {
        let mut ordered: Vec<usize> = Vec::new();
        let mut seen: HashSet<usize> = HashSet::new();
        let mut k: usize = 0;
        while k < self.filtered.len()
            invariant
                self.wf(),
                k <= self.filtered@.len(),
                ordered@ == marked_in_results(self.filtered@.take(k as int), self.marks@),
                seen@ == self.marks@.intersect(shown_indices(self.filtered@.take(k as int))),
                forall|q: int| 0 <= q < ordered@.len() ==> ordered@[q] < self.entries@.len(),
            decreases self.filtered@.len() - k,
        {
            let index = self.filtered[k].index;
            proof {
                assert(self.filtered@.take(k + 1).drop_last() =~= self.filtered@.take(k as int));
                assert(self.filtered@.take(k + 1).last() == self.filtered@[k as int]);
            }
            if self.marks.contains(&index) {
                ordered.push(index);
                seen.insert(index);
            }
            proof {
                let now = self.filtered@.take(k + 1);
                assert forall|x: usize| #[trigger] shown_indices(now).contains(x) <==> (shown_indices(
                    self.filtered@.take(k as int),
                ).contains(x) || x == index) by {
                    if shown_indices(now).contains(x) {
                        let q = choose|q: int| 0 <= q < now.len() && now[q].index == x;
                        if q < k {
                            assert(self.filtered@.take(k as int)[q].index == x);
                        }
                    }
                    if shown_indices(self.filtered@.take(k as int)).contains(x) {
                        let q = choose|q: int|
                            0 <= q < k && self.filtered@.take(k as int)[q].index == x;
                        assert(now[q].index == x);
                    }
                    if x == index {
                        assert(now[k as int].index == x);
                    }
                }
                assert(seen@ =~= self.marks@.intersect(shown_indices(now)));
            }
            k = k + 1;
        }
        proof {
            assert(self.filtered@.take(k as int) =~= self.filtered@);
        }
        let ghost first = ordered@;
        let ghost hidden = self.marks@.difference(shown_indices(self.filtered@));
        let mut rest: Vec<usize> = Vec::new();
        let mut j: usize = 0;
        while j < self.entries.len()
            invariant
                self.wf(),
                j <= self.entries@.len(),
                seen@ == self.marks@.intersect(shown_indices(self.filtered@)),
                hidden == self.marks@.difference(shown_indices(self.filtered@)),
                forall|q: int| 0 <= q < rest@.len() ==> rest@[q] < j,
                name_sorted(self.entries@, rest@),
                rest@.no_duplicates(),
                rest@.to_set() == hidden.filter(|x: usize| x < j),
            decreases self.entries@.len() - j,
        {
            if self.marks.contains(&j) && !seen.contains(&j) {
                proof {
                    if rest@.contains(j) {
                        let q = choose|q: int| 0 <= q < rest@.len() && rest@[q] == j;
                        assert(rest@[q] < j);
                    }
                }
                insert_by_name(&mut rest, j, &self.entries);
            }
            proof {
                assert forall|x: usize| #[trigger] rest@.to_set().contains(x) <==> hidden.filter(
                    |x: usize| x < j + 1,
                ).contains(x) by {
                    if x == j {
                    }
                }
                assert(rest@.to_set() =~= hidden.filter(|x: usize| x < j + 1));
                assert forall|q: int| 0 <= q < rest@.len() implies rest@[q] < j + 1 by {
                    assert(rest@.to_set().contains(rest@[q]));
                }
            }
            j = j + 1;
        }
        proof {
            assert(hidden.filter(|x: usize| x < j) =~= hidden);
        }
        let ghost rest_seq = rest@;
        let mut q: usize = 0;
        while q < rest.len()
            invariant
                q <= rest@.len(),
                rest@ == rest_seq,
                ordered@ == first + rest_seq.take(q as int),
                forall|t: int| 0 <= t < first.len() ==> first[t] < self.entries@.len(),
                forall|t: int| 0 <= t < rest_seq.len() ==> rest_seq[t] < self.entries@.len(),
            decreases rest@.len() - q,
        {
            ordered.push(rest[q]);
            proof {
                assert(ordered@ =~= first + rest_seq.take(q + 1));
            }
            q = q + 1;
        }
        proof {
            assert(rest_seq.take(q as int) =~= rest_seq);
            assert(ordered@.take(first.len() as int) =~= first);
            assert(ordered@.skip(first.len() as int) =~= rest_seq);
            assert forall|t: int| 0 <= t < ordered@.len() implies ordered@[t] < self.entries@.len() by {
                if t >= first.len() {
                    assert(ordered@[t] == rest_seq[t - first.len()]);
                }
            }
        }
        ordered
    }

    /// Return the marked entries in their current visible order.
    pub fn marked_entries(&self) -> (r: Vec<&Entry>)
        requires
            self.wf(),
        ensures
            exists|s: Seq<usize>|
                {
                    &&& self.orders_marks(s)
                    &&& s.len() == r@.len()
                    &&& forall|k: int| 0 <= k < s.len() ==> *r@[k] == self.entries@[s[k] as int]
                },
    {
        let indices = self.ordered_marked_entry_indices();
        let mut out: Vec<&Entry> = Vec::new();
        let mut k: usize = 0;
        while k < indices.len()
            invariant
                k <= indices@.len(),
                out@.len() == k,
                forall|t: int| 0 <= t < indices@.len() ==> indices@[t] < self.entries@.len(),
                forall|t: int| 0 <= t < k ==> *out@[t] == self.entries@[indices@[t] as int],
            decreases indices@.len() - k,
        {
            out.push(&self.entries[indices[k]]);
            k = k + 1;
        }
        out
    }

    /// `next` is this state with the marks cleared and any delete
    /// confirmation closed.
    pub open spec fn marks_cleared(self, next: Self) -> bool {
        &&& next == (App {
            marks: next.marks,
            mode: Mode::Normal,
            delete_confirmation: None,
            ..self
        })
        &&& next.marks@ == Set::<usize>::empty()
    }

    /// Toggle the delete mark on the currently selected entry.
    pub fn toggle_delete_mark(&mut self)
        requires
            old(self).wf(),
        ensures
            final(self).wf(),
            old(self).toggled(*final(self)),
    {
        let index = match self.current_entry_index() {
            Some(index) => index,
            None => return,
        };
        let ghost before = self.marks@;
        if !self.marks.insert(index) {
            self.marks.remove(&index);
            proof {
                assert(self.marks@ =~= before.remove(index));
            }
        } else {
            proof {
                assert(self.marks@ =~= before.insert(index));
            }
        }
        self.mode = Mode::Normal;
        self.delete_confirmation = None;
    }

    /// Clear all delete marks and close any active delete confirmation dialog.
    pub fn clear_delete_marks(&mut self)
        requires
            old(self).wf(),
        ensures
            final(self).wf(),
            old(self).marks_cleared(*final(self)),
    {
        self.marks.clear();
        self.mode = Mode::Normal;
        self.delete_confirmation = None;
    }

    /// Enter the delete confirmation dialog when marks are present.
    pub fn begin_delete_confirmation(&mut self)
        requires
            old(self).wf(),
        ensures
            final(self).wf(),
            old(self).delete_begun(*final(self)),
    {
        if self.marks.is_empty() {
            return;
        }
        self.mode = Mode::DeleteConfirm;
        self.delete_confirmation = Some(DeleteConfirmation::new());
    }

    /// What deleting the marked entries works on: the labs path, and the
    /// paths and names of the marked entries in mark order.
    pub fn delete_paths(&self) -> (r: (String, Vec<String>, Vec<String>))
        requires
            self.wf(),
        ensures
            r.0@ == self.labs_path@,
            exists|s: Seq<usize>|
                #[trigger] self.orders_marks(s) && string_views(r.1@) == paths_at(self.entries@, s)
                    && string_views(r.2@) == names_at(self.entries@, s),
    {
        let marked = self.ordered_marked_entry_indices();
        let mut paths: Vec<String> = Vec::new();
        let mut names: Vec<String> = Vec::new();
        let mut k: usize = 0;
        while k < marked.len()
            invariant
                k <= marked@.len(),
                forall|t: int| 0 <= t < marked@.len() ==> marked@[t] < self.entries@.len(),
                string_views(paths@) == paths_at(self.entries@, marked@.take(k as int)),
                string_views(names@) == names_at(self.entries@, marked@.take(k as int)),
            decreases marked@.len() - k,
        {
            let entry = &self.entries[marked[k]];
            let ghost prev_p = paths@;
            let ghost prev_n = names@;
            let path = entry.path.clone();
            let name = entry.name.clone();
            paths.push(path);
            names.push(name);
            proof {
                assert(marked@.take(k + 1) =~= marked@.take(k as int).push(marked@[k as int]));
                assert(string_views(paths@) =~= string_views(prev_p).push(path@));
                assert(string_views(names@) =~= string_views(prev_n).push(name@));
                assert(paths_at(self.entries@, marked@.take(k + 1)) =~= paths_at(
                    self.entries@,
                    marked@.take(k as int),
                ).push(path@));
                assert(names_at(self.entries@, marked@.take(k + 1)) =~= names_at(
                    self.entries@,
                    marked@.take(k as int),
                ).push(name@));
            }
            k = k + 1;
        }
        proof {
            assert(marked@.take(k as int) =~= marked@);
        }
        (owned(self.labs_path.as_str()), paths, names)
    }

    /// The deletion the marked entries ask for: the canonical labs path and
    /// the names of the marked entries, provided that every one of them
    /// canonicalizes to a path strictly inside it. The labs path and the
    /// entries' paths are resolved on disk; `delete_selection_for` says what
    /// follows from the answers.
    fn build_delete_selection(&self) -> (r: Option<DeleteSelection>)
        requires
            self.wf(),
        ensures
            exists|s: Seq<usize>|
                #[trigger] self.orders_marks(s) && (r matches Some(sel) ==> string_views(
                    sel.basenames@,
                ) == names_at(self.entries@, s)) && exists|
                    base: CanonicalPath,
                    targets: Seq<CanonicalPath>,
                |
                    #[trigger] delete_decided(r, self.labs_path@, paths_at(self.entries@, s), base, targets),
    {
        let (labs, paths, names) = self.delete_paths();
        let ghost s = choose|s: Seq<usize>|
            #[trigger] self.orders_marks(s) && string_views(paths@) == paths_at(self.entries@, s)
                && string_views(names@) == names_at(self.entries@, s);
        let base = canonicalize(labs.as_str());
        let ghost base_g = base;
        let ghost mut tg: Seq<CanonicalPath> = Seq::empty();
        let mut targets: Vec<Option<String>> = Vec::new();
        let mut k: usize = 0;
        while k < paths.len()
            invariant
                k <= paths@.len(),
                tg.len() == k,
                targets@.len() == k,
                forall|j: int| 0 <= j < k ==> #[trigger] tg[j].given() == paths@[j]@,
                forall|j: int| 0 <= j < k ==> opt_string(#[trigger] targets@[j]) == tg[j].resolved(),
            decreases paths@.len() - k,
        {
            let c = canonicalize(paths[k].as_str());
            proof {
                tg = tg.push(c);
            }
            targets.push(c.into_resolved());
            k = k + 1;
        }
        let b = base.into_resolved();
        proof {
            assert(string_views(paths@).len() == paths@.len());
            assert(string_views(names@).len() == names@.len());
            assert(paths@.len() == names@.len());
        }
        let r = delete_selection_for(b, &targets, names);
        proof {
            let pv = paths_at(self.entries@, s);
            assert forall|j: int| 0 <= j < tg.len() implies #[trigger] tg[j].given() == pv[j] by {
                assert(string_views(paths@)[j] == paths@[j]@);
            }
            if b is Some {
                let bv = b->0@;
                assert(all_inside(bv, targets@) <==> all_resolved_inside(bv, tg)) by {
                    if all_inside(bv, targets@) {
                        assert forall|j: int| 0 <= j < tg.len() implies (#[trigger] tg[j].resolved() matches Some(t)
                            && spec_inside_base(bv, t)) by {
                            assert(targets@[j] matches Some(t) && spec_inside_base(bv, t@));
                        }
                    }
                    if all_resolved_inside(bv, tg) {
                        assert forall|j: int| 0 <= j < targets@.len() implies (#[trigger] targets@[j] matches Some(t)
                            && spec_inside_base(bv, t@)) by {
                            assert(tg[j].resolved() matches Some(t) && spec_inside_base(bv, t));
                        }
                    }
                }
            }
            assert(delete_decided(r, self.labs_path@, pv, base_g, tg));
        }
        r
    }

    /// Submit the delete confirmation dialog.
    ///
    /// Returns a validated delete selection when the input exactly matches
    /// `YES`. Any other input cancels delete mode and clears marks.
    pub fn submit_delete_confirmation(&mut self) -> (r: Option<DeleteSelection>)
        requires
            old(self).wf(),
        ensures
            final(self).wf(),
            old(self).delete_submitted(*final(self), r),
    {
        if !self.is_confirming_delete() {
            return None;
        }
        let confirmed = match &self.delete_confirmation {
            Some(d) => d.is_confirmed(),
            None => false,
        };
        let selection = if confirmed {
            self.build_delete_selection()
        } else {
            None
        };
        self.clear_delete_marks();
        proof {
            if confirmed {
                assert(old(self).delete_confirmation matches Some(d) && d.input@ == "YES"@);
            }
        }
        selection
    }

    /// Return the create-new name, dated `today`, when the input is not empty.
    pub fn create_new_name(&self) -> (r: Option<String>)
        ensures
            self.names_new(r),
    {
        if !self.show_create_new() {
            return None;
        }
        let name = create_name_with_date(self.today.as_str(), self.input.as_str());
        Some(name)
    }

    /// Resolve the current selection to an existing path or create-new path.
    pub fn current_selection(&self) -> (r: Option<Selection>)
        requires
            self.wf(),
        ensures
            self.selects(r),
    {
        if self.cursor_pos < self.filtered.len() {
            let index = self.filtered[self.cursor_pos].index;
            return Some(Selection::Existing(self.entries[index].path.clone()));
        }
        match self.create_new_name() {
            Some(name) => Some(Selection::Create(join_path(self.labs_path.as_str(), name.as_str()))),
            None => None,
        }
    }

    /// Enter the rename dialog for the currently selected real entry.
    pub fn begin_rename(&mut self)
        requires
            old(self).wf(),
        ensures
            final(self).wf(),
            old(self).rename_begun(*final(self)),
    {
        let index = match self.current_entry_index() {
            Some(index) => index,
            None => return,
        };
        self.clear_delete_marks();
        self.mode = Mode::Rename;
        self.rename_dialog = Some(RenameDialog::new(self.entries[index].name.as_str()));
    }

    /// Cancel the active rename dialog, if any.
    pub fn cancel_rename(&mut self)
        requires
            old(self).wf(),
        ensures
            final(self).wf(),
            *final(self) == (App { mode: Mode::Normal, rename_dialog: None, ..*old(self) }),
    {
        self.mode = Mode::Normal;
        self.rename_dialog = None;
    }

    /// `next` keeps the rename dialog open with `msg` as its error, and `r`
    /// is that error.
    pub open spec fn rename_rejected(self, next: Self, r: Result<Option<RenameSelection>, String>, msg: Seq<char>) -> bool {
        &&& r matches Err(e) && e@ == msg
        &&& next == (App { rename_dialog: next.rename_dialog, ..self })
        &&& self.rename_dialog matches Some(d) && next.rename_dialog matches Some(e)
            && e == (RenameDialog { error: e.error, ..d }) && (e.error matches Some(m) && m@ == msg)
    }

    /// `next` closes the rename dialog and `r` carries the rename of
    /// `old_name` to `new_name`.
    pub open spec fn rename_accepted(self, next: Self, r: Result<Option<RenameSelection>, String>, old_name: Seq<char>, new_name: Seq<char>) -> bool {
        &&& r matches Ok(Some(sel)) && sel.base_path@ == self.labs_path@ && sel.old_name@ == old_name
            && sel.new_name@ == new_name
        &&& next == (App { mode: Mode::Normal, rename_dialog: None, ..self })
    }

    fn rename_error(&mut self, message: String) -> (r: Result<Option<RenameSelection>, String>)
        requires
            old(self).wf(),
            old(self).rename_dialog is Some,
        ensures
            final(self).wf(),
            old(self).rename_rejected(*final(self), r, message@),
    {
        match &mut self.rename_dialog {
            Some(d) => d.set_error(message.as_str()),
            None => {},
        }
        Err(message)
    }

    /// Finish a rename to `new_name` once it is known whether a directory
    /// of that name already exists in the labs directory.
    pub fn conclude_rename(&mut self, old_name: String, new_name: String, target_is_dir: bool) -> (r: Result<Option<RenameSelection>, String>)
        requires
            old(self).wf(),
            old(self).rename_dialog is Some,
        ensures
            final(self).wf(),
            target_is_dir ==> old(self).rename_rejected(*final(self), r, "Directory exists: "@ + new_name@),
            !target_is_dir ==> old(self).rename_accepted(*final(self), r, old_name@, new_name@),
    {
        if target_is_dir {
            let mut message = owned("Directory exists: ");
            push_str(&mut message, new_name.as_str());
            return self.rename_error(message);
        }
        let selection = RenameSelection { base_path: self.labs_path.clone(), old_name, new_name };
        self.cancel_rename();
        Ok(Some(selection))
    }

    /// Validate and submit the active rename dialog.
    pub fn submit_rename(&mut self) -> (r: Result<Option<RenameSelection>, String>)
        requires
            old(self).wf(),
        ensures
            final(self).wf(),
            old(self).rename_submitted(*final(self), r),
    {
        if !self.is_renaming() {
            return Ok(None);
        }
        let (old_name, new_name) = match &self.rename_dialog {
            Some(dialog) => (dialog.current_name.clone(), dialog.normalized_name()),
            None => {
                self.mode = Mode::Normal;
                return Ok(None);
            },
        };
        let chars = chars_of(new_name.as_str());
        if chars.len() == 0 {
            return self.rename_error(owned("Name cannot be empty"));
        }
        if contains_char(new_name.as_str(), '/') {
            return self.rename_error(owned("Name cannot contain /"));
        }
        if new_name == old_name {
            self.cancel_rename();
            return Ok(None);
        }
        let target = join_path(self.labs_path.as_str(), new_name.as_str());
        let target_is_dir = path_is_dir(target.as_str());
        self.conclude_rename(old_name, new_name, target_is_dir)
    }

    /// Enter the graduate dialog for the currently selected real entry,
    /// pre-filled with its default destination.
    pub fn begin_graduate(&mut self)
        requires
            old(self).wf(),
        ensures
            final(self).wf(),
            old(self).graduate_begun(*final(self)),
    {
        let index = match self.current_entry_index() {
            Some(index) => index,
            None => return,
        };
        self.clear_delete_marks();
        let lab_projects: Option<&str> = match &self.lab_projects {
            Some(p) => Some(p.as_str()),
            None => None,
        };
        let current_name = self.entries[index].name.as_str();
        let (destination, destination_hint, destination_root) = default_graduate_destination(
            self.labs_path.as_str(),
            current_name,
            lab_projects,
        );
        let dialog = GraduateDialog::new(
            current_name,
            destination.as_str(),
            destination_hint.as_str(),
            destination_root.as_str(),
        );
        self.mode = Mode::Graduate;
        self.graduate_dialog = Some(dialog);
    }

    /// Cancel the active graduate dialog, if any.
    pub fn cancel_graduate(&mut self)
        requires
            old(self).wf(),
        ensures
            final(self).wf(),
            *final(self) == (App { mode: Mode::Normal, graduate_dialog: None, ..*old(self) }),
    {
        self.mode = Mode::Normal;
        self.graduate_dialog = None;
    }

    /// `next` keeps the graduate dialog open with `msg` as its error, and
    /// `r` is that error.
    pub open spec fn graduate_rejected(self, next: Self, r: Result<Option<GraduateSelection>, String>, msg: Seq<char>) -> bool {
        &&& r matches Err(e) && e@ == msg
        &&& next == (App { graduate_dialog: next.graduate_dialog, ..self })
        &&& self.graduate_dialog matches Some(d) && next.graduate_dialog matches Some(e)
            && e == (GraduateDialog { error: e.error, ..d }) && (e.error matches Some(m) && m@ == msg)
    }

    fn graduate_error(&mut self, message: String) -> (r: Result<Option<GraduateSelection>, String>)
        requires
            old(self).wf(),
            old(self).graduate_dialog is Some,
        ensures
            final(self).wf(),
            old(self).graduate_rejected(*final(self), r, message@),
    {
        match &mut self.graduate_dialog {
            Some(d) => d.set_error(message.as_str()),
            None => {},
        }
        Err(message)
    }

    /// Finish graduating entry `index` to `dest`, once it is known whether
    /// `dest` exists and whether its parent `parent` is a directory.
    pub fn conclude_graduate(&mut self, index: usize, dest: String, dest_exists: bool, parent: String, parent_is_dir: bool) -> (r: Result<Option<GraduateSelection>, String>)
        requires
            old(self).wf(),
            old(self).graduate_dialog is Some,
            index < old(self).entries@.len(),
        ensures
            final(self).wf(),
            dest_exists ==> old(self).graduate_rejected(*final(self), r, "Destination already exists: "@ + dest@),
            !dest_exists && !parent_is_dir ==> old(self).graduate_rejected(*final(self), r, "Parent directory does not exist: "@ + parent@),
            !dest_exists && parent_is_dir ==> {
                &&& r matches Ok(Some(sel)) && sel.source@ == old(self).entries@[index as int].path@
                    && sel.dest@ == dest@ && sel.basename@ == old(self).entries@[index as int].name@
                    && sel.base_path@ == old(self).labs_path@
                &&& *final(self) == (App { mode: Mode::Normal, graduate_dialog: None, ..*old(self) })
            },
    {
        if dest_exists {
            let mut message = owned("Destination already exists: ");
            push_str(&mut message, dest.as_str());
            return self.graduate_error(message);
        }
        if !parent_is_dir {
            let mut message = owned("Parent directory does not exist: ");
            push_str(&mut message, parent.as_str());
            return self.graduate_error(message);
        }
        let selection = GraduateSelection {
            source: self.entries[index].path.clone(),
            dest,
            basename: self.entries[index].name.clone(),
            base_path: self.labs_path.clone(),
        };
        self.cancel_graduate();
        Ok(Some(selection))
    }

    /// Validate and submit the active graduate dialog.
    pub fn submit_graduate(&mut self) -> (r: Result<Option<GraduateSelection>, String>)
        requires
            old(self).wf(),
        ensures
            final(self).wf(),
            old(self).graduate_submitted(*final(self), r),
    {
        if !self.is_graduating() {
            return Ok(None);
        }
        let input = match &self.graduate_dialog {
            Some(dialog) => dialog.input.clone(),
            None => {
                self.mode = Mode::Normal;
                return Ok(None);
            },
        };
        let index = match self.current_entry_index() {
            Some(index) => index,
            None => {
                self.cancel_graduate();
                return Ok(None);
            },
        };
        let typed = trim_text(input.as_str());
        if chars_of(typed.as_str()).len() == 0 {
            return self.graduate_error(owned("Destination cannot be empty"));
        }
        let dest = expand_input_path(typed.as_str(), self.working_dir.as_str());
        let ghost home = choose|h: Option<Seq<char>>|
            dest@ == joined(self.working_dir@, tilde_expanded(typed@, h));
        let dest_exists = path_exists(dest.as_str());
        let parent = if dest_exists {
            owned("/")
        } else {
            match parent_path(dest.as_str()) {
                Some(p) => p,
                None => owned("/"),
            }
        };
        let parent_is_dir = !dest_exists && path_is_dir(parent.as_str());
        proof {
            reveal_strlit("/");
            if !dest_exists {
                assert(parent@ == parent_or_root(dest@));
            }
        }
        let ghost dest_view = dest@;
        let ghost parent_view = parent@;
        let r = self.conclude_graduate(index, dest, dest_exists, parent, parent_is_dir);
        proof {
            let typed_view = trimmed(old(self).graduate_dialog.unwrap().input@);
            assert(typed@ == typed_view);
            assert(dest_view == joined(old(self).working_dir@, tilde_expanded(typed_view, home)));
        }
        r
    }
}

/// The selection is a real row (row 0 when there are none) and lies in the
/// window of visible rows.
pub open spec fn selection_shown(a: App) -> bool {
    &&& (a.total() == 0 ==> a.cursor_pos == 0)
    &&& (a.total() > 0 ==> a.cursor_pos < a.total())
    &&& a.scroll_offset <= a.cursor_pos < a.scroll_offset + a.visible()
}

proof fn lemma_scrolled_to(cursor: int, scroll: int, visible: int)
    requires
        0 <= cursor,
        0 <= scroll,
        1 <= visible,
    ensures
        0 <= scrolled_to(cursor, scroll, visible) <= cursor < scrolled_to(cursor, scroll, visible) + visible,
{
}

/// Moving the selection (a row up or down, a page up or down, to the first
/// or the last row) keeps it on a real row and in view.
pub proof fn law_moves_keep_selection_shown(a: App, b: App, target: int)
    requires
        a.wf(),
        selection_shown(a),
        (target == a.down_target() || target == a.up_target() || target == a.bottom_target()
            || target == a.page_up_target() || target == a.page_down_target()) && a.moved_to(b, target)
            || b == (App { cursor_pos: 0, scroll_offset: 0, ..a }),
    ensures
        selection_shown(b),
{
    if b == (App { cursor_pos: 0, scroll_offset: 0, ..a }) {
    } else {
        assert(0 <= target);
        assert(a.total() == 0 ==> target == 0);
        assert(a.total() > 0 ==> target < a.total());
        assert(target <= usize::MAX) by {
            assert(a.total() <= a.entries@.len() + 1);
        }
        lemma_scrolled_to(target, a.scroll_offset as int, a.visible());
    }
}

/// Refiltering after the search text changes puts the selection on a real
/// row and in view, wherever it was.
pub proof fn law_refresh_shows_selection(a: App, b: App)
    requires
        a.wf(),
        refreshed(a, b),
    ensures
        selection_shown(b),
{
    let total = spec_filter(a.entries@, a.input@).len() + if a.input@.len() > 0 {
        1int
    } else {
        0int
    };
    assert(b.filtered@.len() == filter_view(b.filtered@).len());
    assert(b.total() == total);
    let cursor = clamped(a.cursor_pos as int, total);
    lemma_scrolled_to(cursor, a.scroll_offset as int, a.visible());
}

/// Marking the selected entry twice leaves the marks, and everything
/// else, as they were, when no delete dialog was open.
pub proof fn law_toggle_twice_restores_marks(a: App, b: App, c: App)
    requires
        a.mode == Mode::Normal,
        a.delete_confirmation is None,
        a.toggled(b),
        b.toggled(c),
    ensures
        c.marks@ == a.marks@,
        c == (App { marks: c.marks, ..a }),
{
    if a.cursor_pos < a.filtered@.len() {
        let i = a.filtered@[a.cursor_pos as int].index;
        if a.marks@.contains(i) {
            assert(a.marks@.remove(i).insert(i) =~= a.marks@);
        } else {
            assert(a.marks@.insert(i).remove(i) =~= a.marks@);
        }
    }
}

proof fn lemma_empty_query_upto(entries: Seq<Entry>, n: int)
    requires
        0 <= n <= entries.len(),
    ensures
        matches_upto(entries, Seq::empty(), n).len() == n,
        forall|k: int| 0 <= k < n ==> #[trigger] matches_upto(entries, Seq::empty(), n)[k] == (k, Seq::<int>::empty()),
    decreases n,
{
    if n > 0 {
        lemma_empty_query_upto(entries, n - 1);
    }
}

/// An empty query matches every entry, in entry order, with nothing
/// highlighted.
pub proof fn law_empty_query_matches_every_entry(entries: Seq<Entry>)
    ensures
        spec_filter(entries, Seq::empty()).len() == entries.len(),
        forall|k: int| 0 <= k < entries.len() ==> #[trigger] spec_filter(entries, Seq::empty())[k] == (k, Seq::<int>::empty()),
{
    assert(ascii_lowercase(Seq::<char>::empty()) =~= Seq::<char>::empty());
    assert(lowered(Seq::<char>::empty()) == Seq::<char>::empty());
    lemma_empty_query_upto(entries, entries.len() as int);
}

/// Typing an accepted character into the search input and then pressing
/// backspace gives back the query and its cursor position.
pub proof fn law_type_then_backspace_restores_query(a: App, b: App, c: App, ch: char)
    requires
        a.mode == Mode::Normal,
        a.input_cursor_pos <= a.input@.len(),
        a.input_cursor_pos < usize::MAX,
        spec_allowed_input_char(ch),
        a.edited(b, EditOp::Insert(ch)),
        b.edited(c, EditOp::Backspace),
    ensures
        c.input@ == a.input@,
        c.input_cursor_pos == a.input_cursor_pos,
{
    law_backspace_undoes_insert(a.input@, a.input_cursor_pos as int, ch);
    assert(a.query_edited(b, EditOp::Insert(ch)));
    assert(b.mode == Mode::Normal);
    assert(b.input@ == edit_text(a.input@, a.input_cursor_pos as int, EditOp::Insert(ch), true));
    assert(b.input_cursor_pos == a.input_cursor_pos + 1);
    assert(b.query_edited(c, EditOp::Backspace));
}

} // verus!
