//! Layout of the selector screen as styled lines of text.
//!
//! A line is a list of styled segments. Widths are counted in terminal
//! columns: combining marks and variation selectors take none, wide East
//! Asian characters and emoji take two, everything else one. Every line
//! built here is exactly as wide as the screen.

use vstd::prelude::*;
use crate::entries::{has_date_prefix, spec_has_date_prefix};
use crate::tui::app::{names_at, App, Entry, MatchResult};
use crate::text::{chars_of, decimal, owned, push_char, push_decimal, push_str, slice_vec, string_of};
use crate::words::collapse_spaces;

verus! {

/// Foreground colour of a segment.
#[derive(Debug, Clone, Copy, PartialEq, Eq, Structural)]
pub enum Foreground {
    /// The terminal's default.
    Default,
    /// The accent colour.
    Accent,
    /// The highlight colour.
    Highlight,
    /// A dimmed colour.
    Muted,
}

/// Background of a segment.
#[derive(Debug, Clone, Copy, PartialEq, Eq, Structural)]
pub enum Background {
    /// The terminal's default.
    Plain,
    /// The selected row.
    Selected,
    /// A row marked for deletion.
    Danger,
}

/// The style of a segment.
#[derive(Debug, Clone, Copy, PartialEq, Eq, Structural)]
pub struct SegmentStyleSpec {
    /// Foreground colour.
    pub fg: Foreground,
    /// Background.
    pub bg: Background,
    /// Bold text.
    pub bold: bool,
    /// Reverse video.
    pub reversed: bool,
}

/// The plain style.
pub open spec fn normal_style() -> SegmentStyleSpec {
    SegmentStyleSpec { fg: Foreground::Default, bg: Background::Plain, bold: false, reversed: false }
}

impl SegmentStyleSpec {
    /// The plain style.
    pub fn normal() -> (r: Self)
        ensures
            r == normal_style(),
    {
        SegmentStyleSpec { fg: Foreground::Default, bg: Background::Plain, bold: false, reversed: false }
    }

    /// Bold accent colour.
    pub fn accent() -> (r: Self)
        ensures
            r == (SegmentStyleSpec { fg: Foreground::Accent, bold: true, ..normal_style() }),
    {
        SegmentStyleSpec { fg: Foreground::Accent, bg: Background::Plain, bold: true, reversed: false }
    }

    /// Bold highlight colour.
    pub fn highlight() -> (r: Self)
        ensures
            r == (SegmentStyleSpec { fg: Foreground::Highlight, bold: true, ..normal_style() }),
    {
        SegmentStyleSpec { fg: Foreground::Highlight, bg: Background::Plain, bold: true, reversed: false }
    }

    /// Dimmed colour.
    pub fn muted() -> (r: Self)
        ensures
            r == (SegmentStyleSpec { fg: Foreground::Muted, ..normal_style() }),
    {
        SegmentStyleSpec { fg: Foreground::Muted, bg: Background::Plain, bold: false, reversed: false }
    }

    /// Reverse video, for the text cursor.
    pub fn cursor() -> (r: Self)
        ensures
            r == (SegmentStyleSpec { reversed: true, ..normal_style() }),
    {
        SegmentStyleSpec { fg: Foreground::Default, bg: Background::Plain, bold: false, reversed: true }
    }

    /// This style in bold.
    pub fn bold(self) -> (r: Self)
        ensures
            r == (SegmentStyleSpec { bold: true, ..self }),
    {
        SegmentStyleSpec { bold: true, ..self }
    }

    /// This style on background `bg`.
    pub fn with_background(self, bg: Background) -> (r: Self)
        ensures
            r == (SegmentStyleSpec { bg, ..self }),
    {
        SegmentStyleSpec { bg, ..self }
    }

    /// Whether this is the plain style.
    pub fn is_plain(self) -> (r: bool)
        ensures
            r == (self == normal_style()),
    {
        self == SegmentStyleSpec::normal()
    }

    /// The SGR parameters of this style, `;`-separated: bold, reverse,
    /// foreground, background.
    pub open spec fn sgr_codes(self) -> Seq<char> {
        let parts = (if self.bold {
            seq![seq!['1']]
        } else {
            Seq::<Seq<char>>::empty()
        }) + (if self.reversed {
            seq![seq!['7']]
        } else {
            Seq::<Seq<char>>::empty()
        }) + (match self.fg {
            Foreground::Default => Seq::<Seq<char>>::empty(),
            Foreground::Accent => seq!["38;5;214"@],
            Foreground::Highlight => seq!["33"@],
            Foreground::Muted => seq!["38;5;245"@],
        }) + (match self.bg {
            Background::Plain => Seq::<Seq<char>>::empty(),
            Background::Selected => seq!["48;5;238"@],
            Background::Danger => seq!["48;5;52"@],
        });
        join_semicolons(parts)
    }

    /// The escape sequence that starts this style: nothing without colours
    /// or for the plain style.
    pub fn ansi_prefix(self, colors_enabled: bool) -> (r: String)
        ensures
            r@ == if !colors_enabled || self == normal_style() {
                Seq::<char>::empty()
            } else {
                seq!['\u{1b}', '['] + self.sgr_codes() + seq!['m']
            },
    {
        if !colors_enabled || self.is_plain() {
            return String::new();
        }
        let mut codes: Vec<&str> = Vec::new();
        let ghost start = str_views(codes@);
        proof {
            reveal_strlit("1");
            reveal_strlit("7");
            assert("1"@ =~= seq!['1']);
            assert("7"@ =~= seq!['7']);
            assert(start =~= Seq::<Seq<char>>::empty());
        }
        if self.bold {
            push_code(&mut codes, "1");
        }
        let ghost after_bold = str_views(codes@);
        if self.reversed {
            push_code(&mut codes, "7");
        }
        let ghost after_rev = str_views(codes@);
        match self.fg {
            Foreground::Default => {},
            Foreground::Accent => push_code(&mut codes, "38;5;214"),
            Foreground::Highlight => push_code(&mut codes, "33"),
            Foreground::Muted => push_code(&mut codes, "38;5;245"),
        }
        let ghost after_fg = str_views(codes@);
        match self.bg {
            Background::Plain => {},
            Background::Selected => push_code(&mut codes, "48;5;238"),
            Background::Danger => push_code(&mut codes, "48;5;52"),
        }
        proof {
            let p1 = if self.bold {
                seq![seq!['1']]
            } else {
                Seq::<Seq<char>>::empty()
            };
            let p2 = if self.reversed {
                seq![seq!['7']]
            } else {
                Seq::<Seq<char>>::empty()
            };
            let p3 = match self.fg {
                Foreground::Default => Seq::<Seq<char>>::empty(),
                Foreground::Accent => seq!["38;5;214"@],
                Foreground::Highlight => seq!["33"@],
                Foreground::Muted => seq!["38;5;245"@],
            };
            let p4 = match self.bg {
                Background::Plain => Seq::<Seq<char>>::empty(),
                Background::Selected => seq!["48;5;238"@],
                Background::Danger => seq!["48;5;52"@],
            };
            assert(after_bold =~= p1);
            assert(after_rev =~= p1 + p2);
            assert(after_fg =~= p1 + p2 + p3);
            assert(str_views(codes@) =~= p1 + p2 + p3 + p4);
        }
        let mut r = String::new();
        push_char(&mut r, '\u{1b}');
        push_char(&mut r, '[');
        let joined = join_strs_semicolons(&codes);
        push_str(&mut r, joined.as_str());
        push_char(&mut r, 'm');
        r
    }
}

fn push_code<'a>(codes: &mut Vec<&'a str>, code: &'a str)
    ensures
        str_views(final(codes)@) == str_views(old(codes)@).push(code@),
{
    codes.push(code);
    proof {
        assert(codes@.drop_last() =~= old(codes)@);
    }
}

/// The texts of string slices.
pub open spec fn str_views(v: Seq<&str>) -> Seq<Seq<char>>
    decreases v.len(),
{
    if v.len() == 0 {
        Seq::empty()
    } else {
        str_views(v.drop_last()).push(v.last()@)
    }
}

/// Texts joined with `;`.
pub open spec fn join_semicolons(parts: Seq<Seq<char>>) -> Seq<char>
    decreases parts.len(),
{
    if parts.len() == 0 {
        Seq::empty()
    } else if parts.len() == 1 {
        parts[0]
    } else {
        join_semicolons(parts.drop_last()) + seq![';'] + parts.last()
    }
}

fn join_strs_semicolons(v: &Vec<&str>) -> (r: String)
    ensures
        r@ == join_semicolons(str_views(v@)),
{
    let mut r = String::new();
    let mut i: usize = 0;
    while i < v.len()
        invariant
            i <= v@.len(),
            r@ == join_semicolons(str_views(v@.take(i as int))),
        decreases v@.len() - i,
    {
        if i > 0 {
            push_char(&mut r, ';');
        }
        push_str(&mut r, v[i]);
        proof {
            assert(v@.take(i + 1).drop_last() =~= v@.take(i as int));
            assert(v@.take(i + 1).last() == v@[i as int]);
            let sv = str_views(v@.take(i + 1));
            assert(sv =~= str_views(v@.take(i as int)).push(v@[i as int]@));
            assert(sv.drop_last() =~= str_views(v@.take(i as int)));
            if i == 0 {
                assert(str_views(v@.take(0)) =~= Seq::<Seq<char>>::empty());
                assert(sv.len() == 1);
            }
        }
        i = i + 1;
    }
    proof {
        assert(v@.take(i as int) =~= v@);
    }
    r
}

/// The number of columns a character takes.
pub open spec fn spec_char_width(c: char) -> int {
    let code = c as int;
    if (0x300 <= code <= 0x36f) || (0x200b <= code <= 0x200d) || (0xfe00 <= code <= 0xfe0f) || (
    0xe0100 <= code <= 0xe01ef) {
        0
    } else if (0x1100 <= code <= 0x115f) || (0x2329 <= code <= 0x232a) || (0x2e80 <= code
        <= 0xa4cf) || (0xac00 <= code <= 0xd7a3) || (0xf900 <= code <= 0xfaff) || (0xfe10 <= code
        <= 0xfe19) || (0xfe30 <= code <= 0xfe6f) || (0xff00 <= code <= 0xff60) || (0xffe0 <= code
        <= 0xffe6) || (0x1f300 <= code <= 0x1faff) {
        2
    } else {
        1
    }
}

/// The number of columns a text takes.
pub open spec fn width(s: Seq<char>) -> int
    decreases s.len(),
{
    if s.len() == 0 {
        0
    } else {
        width(s.drop_last()) + spec_char_width(s.last())
    }
}

/// The number of columns a character takes.
pub fn char_width(ch: char) -> (r: usize)
    ensures
        r == spec_char_width(ch),
{
    let code = ch as u32;
    if (0x300 <= code && code <= 0x36f) || (0x200b <= code && code <= 0x200d) || (0xfe00 <= code
        && code <= 0xfe0f) || (0xe0100 <= code && code <= 0xe01ef) {
        0
    } else if (0x1100 <= code && code <= 0x115f) || (0x2329 <= code && code <= 0x232a) || (0x2e80
        <= code && code <= 0xa4cf) || (0xac00 <= code && code <= 0xd7a3) || (0xf900 <= code && code
        <= 0xfaff) || (0xfe10 <= code && code <= 0xfe19) || (0xfe30 <= code && code <= 0xfe6f) || (
    0xff00 <= code && code <= 0xff60) || (0xffe0 <= code && code <= 0xffe6) || (0x1f300 <= code
        && code <= 0x1faff) {
        2
    } else {
        1
    }
}

/// Widths add up over concatenation.
pub proof fn lemma_width_concat(a: Seq<char>, b: Seq<char>)
    ensures
        width(a + b) == width(a) + width(b),
    decreases b.len(),
{
    if b.len() == 0 {
        assert(a + b =~= a);
    } else {
        lemma_width_concat(a, b.drop_last());
        assert((a + b).drop_last() =~= a + b.drop_last());
    }
}

/// Widths are never negative.
pub proof fn lemma_width_nonneg(s: Seq<char>)
    ensures
        width(s) >= 0,
    decreases s.len(),
{
    if s.len() > 0 {
        lemma_width_nonneg(s.drop_last());
    }
}

/// A prefix is no wider than the whole.
pub proof fn lemma_width_take(s: Seq<char>, k: int)
    requires
        0 <= k <= s.len(),
    ensures
        0 <= width(s.take(k)) <= width(s),
{
    assert(s =~= s.take(k) + s.skip(k));
    lemma_width_concat(s.take(k), s.skip(k));
    lemma_width_nonneg(s.take(k));
    lemma_width_nonneg(s.skip(k));
}

/// Whether `text` fits in `max` columns.
pub fn fits_width(text: &str, max: usize) -> (r: bool)
    ensures
        r == (width(text@) <= max),
{
    let v = chars_of(text);
    let mut total: usize = 0;
    let mut i: usize = 0;
    while i < v.len()
        invariant
            i <= v@.len(),
            v@ == text@,
            total == width(text@.take(i as int)),
            total <= max,
        decreases v@.len() - i,
    {
        proof {
            assert(text@.take(i + 1).drop_last() =~= text@.take(i as int));
        }
        let w = char_width(v[i]);
        if w > max - total {
            proof {
                lemma_width_take(text@, i + 1);
            }
            return false;
        }
        total = total + w;
        i = i + 1;
    }
    proof {
        assert(text@.take(i as int) =~= text@);
    }
    true
}

/// The width of a text known to fit in a `usize`.
pub fn text_width(text: &str) -> (r: usize)
    requires
        width(text@) <= usize::MAX,
    ensures
        r == width(text@),
{
    let v = chars_of(text);
    let mut total: usize = 0;
    let mut i: usize = 0;
    while i < v.len()
        invariant
            i <= v@.len(),
            v@ == text@,
            total == width(text@.take(i as int)),
            width(text@) <= usize::MAX,
        decreases v@.len() - i,
    {
        proof {
            assert(text@.take(i + 1).drop_last() =~= text@.take(i as int));
            lemma_width_take(text@, i + 1);
        }
        total = total + char_width(v[i]);
        i = i + 1;
    }
    proof {
        assert(text@.take(i as int) =~= text@);
    }
    total
}

/// How many leading characters of `s` fit in `max` columns, taking
/// characters until the first one that does not fit.
pub open spec fn prefix_fit(s: Seq<char>, max: int) -> nat
    decreases s.len(),
{
    if s.len() == 0 || spec_char_width(s[0]) > max {
        0
    } else {
        1 + prefix_fit(s.drop_first(), max - spec_char_width(s[0]))
    }
}

/// How many trailing characters of `s` fit in `max` columns, taking
/// characters from the end until the first one that does not fit.
pub open spec fn suffix_fit(s: Seq<char>, max: int) -> nat
    decreases s.len(),
{
    if s.len() == 0 || spec_char_width(s.last()) > max {
        0
    } else {
        1 + suffix_fit(s.drop_last(), max - spec_char_width(s.last()))
    }
}

proof fn lemma_prefix_fit(s: Seq<char>, max: int)
    requires
        max >= 0,
    ensures
        prefix_fit(s, max) <= s.len(),
        width(s.take(prefix_fit(s, max) as int)) <= max,
    decreases s.len(),
{
    if s.len() > 0 && spec_char_width(s[0]) <= max {
        let k = prefix_fit(s.drop_first(), max - spec_char_width(s[0]));
        lemma_prefix_fit(s.drop_first(), max - spec_char_width(s[0]));
        assert(s.take(k + 1 as int) =~= seq![s[0]] + s.drop_first().take(k as int));
        assert(seq![s[0]].drop_last() =~= Seq::<char>::empty());
        assert(width(Seq::<char>::empty()) == 0);
        assert(seq![s[0]].last() == s[0]);
        assert(width(seq![s[0]]) == spec_char_width(s[0]));
        lemma_width_concat(seq![s[0]], s.drop_first().take(k as int));
    } else {
        assert(s.take(0) =~= Seq::<char>::empty());
    }
}

proof fn lemma_suffix_fit(s: Seq<char>, max: int)
    requires
        max >= 0,
    ensures
        suffix_fit(s, max) <= s.len(),
        width(s.skip(s.len() - suffix_fit(s, max))) <= max,
    decreases s.len(),
{
    if s.len() > 0 && spec_char_width(s.last()) <= max {
        let k = suffix_fit(s.drop_last(), max - spec_char_width(s.last()));
        lemma_suffix_fit(s.drop_last(), max - spec_char_width(s.last()));
        let tail = s.drop_last().skip(s.drop_last().len() - k);
        assert(s.skip(s.len() - (k + 1) as int) =~= tail.push(s.last()));
        assert(tail.push(s.last()).drop_last() =~= tail);
    } else {
        assert(s.skip(s.len() as int) =~= Seq::<char>::empty());
    }
}

/// The longest prefix of `text` that fits in `max_width` columns, stopping
/// at the first character that does not fit.
pub fn take_prefix_by_width(text: &str, max_width: usize) -> (r: String)
    ensures
        r@ == text@.take(prefix_fit(text@, max_width as int) as int),
        width(r@) <= max_width,
{
    let v = chars_of(text);
    let mut used: usize = 0;
    let mut i: usize = 0;
    proof {
        lemma_prefix_fit(text@, max_width as int);
        assert(text@.skip(0) =~= text@);
    }
    while i < v.len()
        invariant
            i <= v@.len(),
            v@ == text@,
            used <= max_width,
            prefix_fit(text@, max_width as int) == i + prefix_fit(
                text@.skip(i as int),
                max_width - used,
            ),
        ensures
            i <= v@.len(),
            prefix_fit(text@, max_width as int) == i,
        decreases v@.len() - i,
    {
        let w = char_width(v[i]);
        proof {
            assert(text@.skip(i as int)[0] == v@[i as int]);
            assert(text@.skip(i as int).drop_first() =~= text@.skip(i + 1));
        }
        if w > max_width - used {
            break;
        }
        used = used + w;
        i = i + 1;
        proof {
            if i == v@.len() {
                assert(text@.skip(i as int) =~= Seq::<char>::empty());
            }
        }
    }
    proof {
        if i == v@.len() {
            assert(text@.skip(i as int) =~= Seq::<char>::empty());
        }
        lemma_prefix_fit(text@, max_width as int);
        assert(v@.subrange(0, i as int) =~= text@.take(i as int));
    }
    string_of(slice_vec(v.as_slice(), 0, i).as_slice())
}

/// The longest suffix of `text` that fits in `max_width` columns, stopping
/// at the first character from the end that does not fit.
pub fn take_suffix_by_width(text: &str, max_width: usize) -> (r: String)
    ensures
        r@ == text@.skip(text@.len() - suffix_fit(text@, max_width as int)),
        width(r@) <= max_width,
{
    let v = chars_of(text);
    let mut used: usize = 0;
    let mut start: usize = v.len();
    proof {
        lemma_suffix_fit(text@, max_width as int);
        assert(text@.take(start as int) =~= text@);
    }
    while start > 0
        invariant
            start <= v@.len(),
            v@ == text@,
            used <= max_width,
            suffix_fit(text@, max_width as int) == (v@.len() - start) + suffix_fit(
                text@.take(start as int),
                max_width - used,
            ),
        ensures
            start <= v@.len(),
            suffix_fit(text@, max_width as int) == v@.len() - start,
        decreases start,
    {
        let w = char_width(v[start - 1]);
        proof {
            assert(text@.take(start as int).last() == v@[start - 1]);
            assert(text@.take(start as int).drop_last() =~= text@.take(start - 1));
        }
        if w > max_width - used {
            break;
        }
        used = used + w;
        start = start - 1;
        proof {
            if start == 0 {
                assert(text@.take(0) =~= Seq::<char>::empty());
            }
        }
    }
    proof {
        if start == 0 {
            assert(text@.take(0) =~= Seq::<char>::empty());
        }
        lemma_suffix_fit(text@, max_width as int);
        assert(v@.subrange(start as int, v@.len() as int) =~= text@.skip(start as int));
    }
    string_of(slice_vec(v.as_slice(), start, v.len()).as_slice())
}

/// `text` when it fits in `max_width` columns, else its longest suffix that does.
pub open spec fn spec_truncate_from_start(text: Seq<char>, max_width: int) -> Seq<char> {
    if width(text) <= max_width {
        text
    } else {
        text.skip(text.len() - suffix_fit(text, max_width))
    }
}

/// Keeps the end of `text` that fits in `max_width` columns.
pub fn truncate_text_from_start(text: &str, max_width: usize) -> (r: String)
    ensures
        r@ == spec_truncate_from_start(text@, max_width as int),
        width(r@) <= max_width,
{
    if fits_width(text, max_width) {
        return owned(text);
    }
    take_suffix_by_width(text, max_width)
}


/// A run of text in one style.
#[derive(Debug, Clone, PartialEq, Eq)]
pub struct StyledSegment {
    /// The text.
    pub text: String,
    /// Its style.
    pub style: SegmentStyleSpec,
}

impl StyledSegment {
    /// A segment of `text` in `style`.
    pub fn new(text: &str, style: SegmentStyleSpec) -> (r: Self)
        ensures
            r.text@ == text@,
            r.style == style,
    {
        StyledSegment { text: owned(text), style }
    }
}

/// One line of the screen.
#[derive(Debug, Clone, PartialEq, Eq)]
pub struct StyledLine {
    /// Its segments, left to right.
    pub segments: Vec<StyledSegment>,
}

/// Segments as plain values: text and style.
pub open spec fn seg_views(v: Seq<StyledSegment>) -> Seq<(Seq<char>, SegmentStyleSpec)>
    decreases v.len(),
{
    if v.len() == 0 {
        Seq::empty()
    } else {
        seg_views(v.drop_last()).push((v.last().text@, v.last().style))
    }
}

/// The text of a list of segments.
pub open spec fn views_text(v: Seq<(Seq<char>, SegmentStyleSpec)>) -> Seq<char>
    decreases v.len(),
{
    if v.len() == 0 {
        Seq::empty()
    } else {
        views_text(v.drop_last()) + v.last().0
    }
}

/// The text of a line.
pub open spec fn line_text(l: StyledLine) -> Seq<char> {
    views_text(seg_views(l.segments@))
}

/// The number of columns a line takes.
pub open spec fn line_width(l: StyledLine) -> int {
    width(line_text(l))
}

/// Segments `v` with `t` in style `st` added: nothing for empty text,
/// merged into the last segment when it has the same style, else a new
/// segment.
pub open spec fn appended(v: Seq<(Seq<char>, SegmentStyleSpec)>, t: Seq<char>, st: SegmentStyleSpec) -> Seq<(Seq<char>, SegmentStyleSpec)> {
    if t.len() == 0 {
        v
    } else if v.len() > 0 && v.last().1 == st {
        v.update(v.len() - 1, (v.last().0 + t, st))
    } else {
        v.push((t, st))
    }
}

/// Adding text to segments adds it to their text.
pub proof fn lemma_appended_text(v: Seq<(Seq<char>, SegmentStyleSpec)>, t: Seq<char>, st: SegmentStyleSpec)
    ensures
        views_text(appended(v, t, st)) == views_text(v) + t,
{
    if t.len() == 0 {
        assert(views_text(v) + t =~= views_text(v));
    } else if v.len() > 0 && v.last().1 == st {
        let u = v.update(v.len() - 1, (v.last().0 + t, st));
        assert(u.drop_last() =~= v.drop_last());
        assert(views_text(u) =~= views_text(v.drop_last()) + v.last().0 + t);
    } else {
        assert(v.push((t, st)).drop_last() =~= v);
    }
}

/// `n` spaces.
pub open spec fn spaces(n: nat) -> Seq<char>
    decreases n,
{
    if n == 0 {
        Seq::empty()
    } else {
        spaces((n - 1) as nat).push(' ')
    }
}

/// Spaces are one column each.
pub proof fn lemma_spaces(n: nat)
    ensures
        spaces(n).len() == n,
        width(spaces(n)) == n,
    decreases n,
{
    if n > 0 {
        lemma_spaces((n - 1) as nat);
        assert(spaces(n).drop_last() =~= spaces((n - 1) as nat));
    }
}

fn space_string(n: usize) -> (r: String)
    ensures
        r@ == spaces(n as nat),
{
    let mut r = String::new();
    let mut i: usize = 0;
    while i < n
        invariant
            i <= n,
            r@ == spaces(i as nat),
        decreases n - i,
    {
        push_char(&mut r, ' ');
        i = i + 1;
        proof {
            assert(r@ =~= spaces(i as nat));
        }
    }
    r
}

/// There is one view per segment.
pub proof fn lemma_seg_views_len(v: Seq<StyledSegment>)
    ensures
        seg_views(v).len() == v.len(),
    decreases v.len(),
{
    if v.len() > 0 {
        lemma_seg_views_len(v.drop_last());
    }
}

/// Adds `text` in `style`, merging it into the last segment when that has
/// the same style; empty text adds nothing.
pub fn append_segment(segments: &mut Vec<StyledSegment>, text: String, style: SegmentStyleSpec)
    ensures
        seg_views(final(segments)@) == appended(seg_views(old(segments)@), text@, style),
{
    if chars_of(text.as_str()).len() == 0 {
        return;
    }
    let n = segments.len();
    if n > 0 && segments[n - 1].style == style {
        let mut merged = segments[n - 1].text.clone();
        push_str(&mut merged, text.as_str());
        let ghost before = segments@;
        segments.set(n - 1, StyledSegment { text: merged, style });
        proof {
            lemma_seg_views_len(before);
            lemma_seg_views_len(before.drop_last());
            assert(segments@.drop_last() =~= before.drop_last());
            assert(seg_views(before) == seg_views(before.drop_last()).push(
                (before.last().text@, before.last().style),
            ));
            assert(seg_views(segments@) == seg_views(before.drop_last()).push(
                (before.last().text@ + text@, style),
            ));
            assert(seg_views(segments@) =~= seg_views(before).update(
                n - 1,
                (before.last().text@ + text@, style),
            ));
        }
        return;
    }
    let ghost before = segments@;
    segments.push(StyledSegment { text, style });
    proof {
        assert(segments@.drop_last() =~= before);
        if n > 0 {
            assert(seg_views(before).last() == (before.last().text@, before.last().style));
        }
    }
}

/// Adds `count` spaces in `style`.
pub fn append_spaces(segments: &mut Vec<StyledSegment>, count: usize, style: SegmentStyleSpec)
    ensures
        seg_views(final(segments)@) == appended(seg_views(old(segments)@), spaces(count as nat), style),
{
    if count > 0 {
        append_segment(segments, space_string(count), style);
    } else {
        proof {
            assert(spaces(0).len() == 0);
        }
    }
}

/// Segments `acc` with each of `v` added in turn.
pub open spec fn extended(acc: Seq<(Seq<char>, SegmentStyleSpec)>, v: Seq<(Seq<char>, SegmentStyleSpec)>) -> Seq<(Seq<char>, SegmentStyleSpec)>
    decreases v.len(),
{
    if v.len() == 0 {
        acc
    } else {
        appended(extended(acc, v.drop_last()), v.last().0, v.last().1)
    }
}

/// Adding segments adds their text.
pub proof fn lemma_extended_text(acc: Seq<(Seq<char>, SegmentStyleSpec)>, v: Seq<(Seq<char>, SegmentStyleSpec)>)
    ensures
        views_text(extended(acc, v)) == views_text(acc) + views_text(v),
    decreases v.len(),
{
    if v.len() == 0 {
        assert(views_text(acc) + views_text(v) =~= views_text(acc));
    } else {
        lemma_extended_text(acc, v.drop_last());
        lemma_appended_text(extended(acc, v.drop_last()), v.last().0, v.last().1);
        assert(views_text(acc) + views_text(v) =~= views_text(acc) + views_text(v.drop_last())
            + v.last().0);
    }
}

/// Adds each of `segments` in turn.
pub fn extend_segments(target: &mut Vec<StyledSegment>, segments: Vec<StyledSegment>)
    ensures
        seg_views(final(target)@) == extended(seg_views(old(target)@), seg_views(segments@)),
{
    let mut i: usize = 0;
    while i < segments.len()
        invariant
            i <= segments@.len(),
            seg_views(target@) == extended(seg_views(old(target)@), seg_views(segments@.take(i as int))),
        decreases segments@.len() - i,
    {
        let text = segments[i].text.clone();
        let style = segments[i].style;
        proof {
            assert(segments@.take(i + 1).drop_last() =~= segments@.take(i as int));
        }
        append_segment(target, text, style);
        proof {
            assert(seg_views(segments@.take(i + 1)).last() == (segments@[i as int].text@, segments@[i as int].style));
            assert(seg_views(segments@.take(i + 1)).drop_last() =~= seg_views(segments@.take(i as int)));
        }
        i = i + 1;
    }
    proof {
        assert(segments@.take(i as int) =~= segments@);
    }
}


/// Segments `v` cut to `remaining` columns after `acc`: each segment keeps
/// the prefix that fits, until the columns run out.
pub open spec fn trunc_fold(acc: Seq<(Seq<char>, SegmentStyleSpec)>, v: Seq<(Seq<char>, SegmentStyleSpec)>, remaining: int) -> Seq<(Seq<char>, SegmentStyleSpec)>
    decreases v.len(),
{
    if v.len() == 0 || remaining <= 0 {
        acc
    } else {
        let t = v[0].0.take(prefix_fit(v[0].0, remaining) as int);
        trunc_fold(appended(acc, t, v[0].1), v.drop_first(), remaining - width(t))
    }
}

/// Segments cut to `max_width` columns.
pub open spec fn spec_truncate(v: Seq<(Seq<char>, SegmentStyleSpec)>, max_width: int) -> Seq<(Seq<char>, SegmentStyleSpec)> {
    trunc_fold(Seq::empty(), v, max_width)
}

proof fn lemma_trunc_fold_width(acc: Seq<(Seq<char>, SegmentStyleSpec)>, v: Seq<(Seq<char>, SegmentStyleSpec)>, remaining: int)
    requires
        remaining >= 0,
    ensures
        width(views_text(trunc_fold(acc, v, remaining))) <= width(views_text(acc)) + remaining,
        width(views_text(trunc_fold(acc, v, remaining))) >= width(views_text(acc)),
    decreases v.len(),
{
    if v.len() > 0 && remaining > 0 {
        let t = v[0].0.take(prefix_fit(v[0].0, remaining) as int);
        lemma_prefix_fit(v[0].0, remaining);
        lemma_width_nonneg(t);
        lemma_appended_text(acc, t, v[0].1);
        lemma_width_concat(views_text(acc), t);
        lemma_trunc_fold_width(appended(acc, t, v[0].1), v.drop_first(), remaining - width(t));
    }
}

/// Cuts segments to `max_width` columns.
pub fn truncate_segments(segments: &[StyledSegment], max_width: usize) -> (r: Vec<StyledSegment>)
    ensures
        seg_views(r@) == spec_truncate(seg_views(segments@), max_width as int),
        width(views_text(seg_views(r@))) <= max_width,
{
    let mut truncated: Vec<StyledSegment> = Vec::new();
    if max_width == 0 {
        proof {
            assert(seg_views(truncated@) =~= Seq::<(Seq<char>, SegmentStyleSpec)>::empty());
        }
        return truncated;
    }
    let mut remaining = max_width;
    let mut i: usize = 0;
    proof {
        lemma_seg_views_len(segments@);
        assert(seg_views(segments@).skip(0) =~= seg_views(segments@));
        assert(seg_views(truncated@) =~= Seq::<(Seq<char>, SegmentStyleSpec)>::empty());
    }
    while i < segments.len()
        invariant
            i <= segments@.len(),
            seg_views(segments@).len() == segments@.len(),
            remaining <= max_width,
            trunc_fold(seg_views(truncated@), seg_views(segments@).skip(i as int), remaining as int)
                == spec_truncate(seg_views(segments@), max_width as int),
            width(views_text(seg_views(truncated@))) + remaining == max_width,
        ensures
            remaining == 0 || i == segments@.len(),
            i <= segments@.len(),
            trunc_fold(seg_views(truncated@), seg_views(segments@).skip(i as int), remaining as int)
                == spec_truncate(seg_views(segments@), max_width as int),
            width(views_text(seg_views(truncated@))) + remaining == max_width,
        decreases segments@.len() - i,
    {
        if remaining == 0 {
            break;
        }
        let ghost rest = seg_views(segments@).skip(i as int);
        let ghost before = seg_views(truncated@);
        let text = take_prefix_by_width(segments[i].text.as_str(), remaining);
        proof {
            assert(seg_views(segments@.take(i + 1)).last() == (segments@[i as int].text@, segments@[i as int].style)) by {
                assert(segments@.take(i + 1).last() == segments@[i as int]);
            }
            lemma_seg_views_index(segments@, i as int);
            assert(rest[0] == (segments@[i as int].text@, segments@[i as int].style));
            assert(rest.drop_first() =~= seg_views(segments@).skip(i + 1));
            lemma_width_nonneg(text@);
        }
        let w = text_width(text.as_str());
        let style = segments[i].style;
        let ghost t = text@;
        append_segment(&mut truncated, text, style);
        proof {
            lemma_appended_text(before, t, style);
            lemma_width_concat(views_text(before), t);
        }
        remaining = remaining - w;
        i = i + 1;
    }
    proof {
        if i == segments@.len() {
            assert(seg_views(segments@).skip(i as int) =~= Seq::<(Seq<char>, SegmentStyleSpec)>::empty());
        }
    }
    truncated
}

/// The view of segment `i` is its text and style.
pub proof fn lemma_seg_views_index(v: Seq<StyledSegment>, i: int)
    requires
        0 <= i < v.len(),
    ensures
        seg_views(v)[i] == (v[i].text@, v[i].style),
    decreases v.len(),
{
    lemma_seg_views_len(v);
    lemma_seg_views_len(v.drop_last());
    if i < v.len() - 1 {
        lemma_seg_views_index(v.drop_last(), i);
    }
}

/// The total width of segments known to fit in a `usize`.
pub fn segments_width(segments: &[StyledSegment]) -> (r: usize)
    requires
        width(views_text(seg_views(segments@))) <= usize::MAX,
    ensures
        r == width(views_text(seg_views(segments@))),
{
    let mut total: usize = 0;
    let mut i: usize = 0;
    proof {
        lemma_segs_text_split(segments@, 0);
        assert(segments@.take(0) =~= Seq::<StyledSegment>::empty());
    }
    while i < segments.len()
        invariant
            i <= segments@.len(),
            total == width(views_text(seg_views(segments@.take(i as int)))),
            width(views_text(seg_views(segments@))) <= usize::MAX,
        decreases segments@.len() - i,
    {
        proof {
            let a = views_text(seg_views(segments@.take(i as int)));
            assert(segments@.take(i + 1).drop_last() =~= segments@.take(i as int));
            lemma_text_push(segments@.take(i + 1));
            assert(views_text(seg_views(segments@.take(i + 1))) == a + segments@[i as int].text@);
            lemma_width_concat(a, segments@[i as int].text@);
            lemma_segs_text_split(segments@, i + 1);
            let b = views_text(seg_views(segments@.skip(i + 1)));
            lemma_width_concat(views_text(seg_views(segments@.take(i + 1))), b);
            lemma_width_nonneg(b);
            lemma_width_nonneg(a);
            lemma_width_nonneg(segments@[i as int].text@);
        }
        total = total + text_width(segments[i].text.as_str());
        i = i + 1;
    }
    proof {
        assert(segments@.take(i as int) =~= segments@);
    }
    total
}

/// The text of segments grows by the text of the segment added last.
pub proof fn lemma_text_push(v: Seq<StyledSegment>)
    requires
        v.len() > 0,
    ensures
        views_text(seg_views(v)) == views_text(seg_views(v.drop_last())) + v.last().text@,
{
    let x = seg_views(v.drop_last());
    let y = (v.last().text@, v.last().style);
    assert(seg_views(v) == x.push(y));
    assert(x.push(y).drop_last() =~= x);
    assert(x.push(y).last() == y);
}

/// The text of segments splits at any index.
pub proof fn lemma_segs_text_split(v: Seq<StyledSegment>, k: int)
    requires
        0 <= k <= v.len(),
    ensures
        views_text(seg_views(v)) == views_text(seg_views(v.take(k))) + views_text(seg_views(v.skip(k))),
    decreases v.len(),
{
    if k == v.len() {
        assert(v.take(k) =~= v);
        assert(v.skip(k) =~= Seq::<StyledSegment>::empty());
        assert(views_text(seg_views(v)) + Seq::<char>::empty() =~= views_text(seg_views(v)));
    } else {
        lemma_segs_text_split(v.drop_last(), k);
        assert(v.drop_last().take(k) =~= v.take(k));
        assert(v.skip(k).drop_last() =~= v.drop_last().skip(k));
        assert(v.skip(k).last() == v.last());
        lemma_text_push(v);
        lemma_text_push(v.skip(k));
        assert(views_text(seg_views(v)) =~= views_text(seg_views(v.take(k))) + views_text(seg_views(v.skip(k))));
    }
}


/// One segment's view is its text and style.
pub proof fn lemma_single(seg: StyledSegment)
    ensures
        seg_views(seq![seg]) == seq![(seg.text@, seg.style)],
        views_text(seq![(seg.text@, seg.style)]) == seg.text@,
{
    assert(seq![seg].drop_last() =~= Seq::<StyledSegment>::empty());
    assert(seg_views(Seq::<StyledSegment>::empty()) =~= Seq::<(Seq<char>, SegmentStyleSpec)>::empty());
    assert(seg_views(seq![seg]) =~= seq![(seg.text@, seg.style)]);
    let v = seq![(seg.text@, seg.style)];
    assert(v.drop_last() =~= Seq::<(Seq<char>, SegmentStyleSpec)>::empty());
    assert(views_text(Seq::<(Seq<char>, SegmentStyleSpec)>::empty()) =~= Seq::<char>::empty());
    assert(v.last().0 == seg.text@);
    assert(views_text(v) =~= Seq::<char>::empty() + seg.text@);
}

/// The plain style on background `bg`.
pub open spec fn fill_spec(bg: Background) -> SegmentStyleSpec {
    SegmentStyleSpec { bg, ..normal_style() }
}

/// The plain style on background `bg`.
pub fn fill_style(background: Background) -> (r: SegmentStyleSpec)
    ensures
        r == fill_spec(background),
{
    SegmentStyleSpec::normal().with_background(background)
}

/// A line of `w` columns: `left` cut to fit, then `right` at the right
/// edge (cut from its start, after at least one space) when there is room
/// for it, the gap filled with spaces on background `bg`.
pub open spec fn spec_compose(w: int, left: Seq<(Seq<char>, SegmentStyleSpec)>, right: Option<(Seq<char>, SegmentStyleSpec)>, bg: Background) -> Seq<(Seq<char>, SegmentStyleSpec)> {
    let l = spec_truncate(left, w);
    let lw = width(views_text(l));
    if right is Some && w - (lw + 1) > 0 {
        let r = right.unwrap();
        let tr = spec_truncate_from_start(r.0, w - (lw + 1));
        appended(
            appended(l, spaces((w - (lw + width(tr))) as nat), fill_spec(bg)),
            tr,
            SegmentStyleSpec { bg, ..r.1 },
        )
    } else {
        appended(l, spaces((w - lw) as nat), fill_spec(bg))
    }
}

/// Lay out `left` and `right` on one line of `width` columns.
pub fn compose_left_right(width: u16, left: Vec<StyledSegment>, right: Option<StyledSegment>, background: Background) -> (r: StyledLine)
    ensures
        seg_views(r.segments@) == spec_compose(
            width as int,
            seg_views(left@),
            match right {
                Some(x) => Some((x.text@, x.style)),
                None => None,
            },
            background,
        ),
        line_width(r) == width,
{
    let w = width as usize;
    let mut segments = truncate_segments(left.as_slice(), w);
    let ghost l = seg_views(segments@);
    proof {
        lemma_width_nonneg(views_text(l));
    }
    let left_width = segments_width(segments.as_slice());
    match right {
        Some(right) => {
            let available = if w > left_width + 1 {
                w - (left_width + 1)
            } else {
                0
            };
            if available > 0 {
                let truncated_right = truncate_text_from_start(right.text.as_str(), available);
                proof {
                    lemma_width_nonneg(truncated_right@);
                }
                let right_width = text_width(truncated_right.as_str());
                let gap = w - (left_width + right_width);
                append_spaces(&mut segments, gap, fill_style(background));
                let ghost mid = seg_views(segments@);
                let ghost tr = truncated_right@;
                let style = right.style.with_background(background);
                append_segment(&mut segments, truncated_right, style);
                proof {
                    lemma_appended_text(l, spaces(gap as nat), fill_spec(background));
                    lemma_appended_text(mid, tr, style);
                    lemma_spaces(gap as nat);
                    lemma_width_concat(views_text(l), spaces(gap as nat));
                    lemma_width_concat(views_text(l) + spaces(gap as nat), tr);
                }
                return StyledLine { segments };
            }
        },
        None => {},
    }
    let pad = w - left_width;
    append_spaces(&mut segments, pad, fill_style(background));
    proof {
        lemma_appended_text(l, spaces(pad as nat), fill_spec(background));
        lemma_spaces(pad as nat);
        lemma_width_concat(views_text(l), spaces(pad as nat));
    }
    StyledLine { segments }
}

/// `left` on a line of `width` columns, padded with spaces.
pub fn fill_line(width: u16, left: Vec<StyledSegment>, background: Background) -> (r: StyledLine)
    ensures
        seg_views(r.segments@) == spec_compose(width as int, seg_views(left@), None, background),
        line_width(r) == width,
{
    compose_left_right(width, left, None, background)
}

/// `v` cut to `w` columns and centred on a line of `w` columns, the
/// padding on background `bg`; an odd leftover column goes to the right.
pub open spec fn spec_centered(w: int, v: Seq<(Seq<char>, SegmentStyleSpec)>, bg: Background) -> Seq<(Seq<char>, SegmentStyleSpec)> {
    let c = spec_truncate(v, w);
    let cw = width(views_text(c));
    let lp = (w - cw) / 2;
    appended(
        extended(appended(Seq::empty(), spaces(lp as nat), fill_spec(bg)), c),
        spaces((w - (cw + lp)) as nat),
        fill_spec(bg),
    )
}

/// `segments` centred on a line of `width` columns.
pub fn centered_segments_line(width: u16, segments: Vec<StyledSegment>, background: Background) -> (r: StyledLine)
    ensures
        seg_views(r.segments@) == spec_centered(width as int, seg_views(segments@), background),
        line_width(r) == width,
{
    let w = width as usize;
    let content = truncate_segments(segments.as_slice(), w);
    let ghost c = seg_views(content@);
    proof {
        lemma_width_nonneg(views_text(c));
    }
    let content_width = segments_width(content.as_slice());
    let left_padding = (w - content_width) / 2;
    let right_padding = w - (content_width + left_padding);
    let mut out: Vec<StyledSegment> = Vec::new();
    let ghost e = seg_views(out@);
    proof {
        assert(e =~= Seq::<(Seq<char>, SegmentStyleSpec)>::empty());
    }
    append_spaces(&mut out, left_padding, fill_style(background));
    let ghost a = seg_views(out@);
    extend_segments(&mut out, content);
    let ghost b = seg_views(out@);
    append_spaces(&mut out, right_padding, fill_style(background));
    proof {
        lemma_appended_text(e, spaces(left_padding as nat), fill_spec(background));
        lemma_extended_text(a, c);
        lemma_appended_text(b, spaces(right_padding as nat), fill_spec(background));
        lemma_spaces(left_padding as nat);
        lemma_spaces(right_padding as nat);
        assert(views_text(e) =~= Seq::<char>::empty());
        assert(views_text(a) =~= spaces(left_padding as nat));
        lemma_width_concat(spaces(left_padding as nat), views_text(c));
        lemma_width_concat(spaces(left_padding as nat) + views_text(c), spaces(right_padding as nat));
    }
    StyledLine { segments: out }
}

/// `text` in `style`, centred on a line of `width` columns.
pub fn centered_line(width: u16, text: &str, style: SegmentStyleSpec) -> (r: StyledLine)
    ensures
        seg_views(r.segments@) == spec_centered(width as int, seq![(text@, style)], Background::Plain),
        line_width(r) == width,
{
    let seg = StyledSegment::new(text, style);
    proof {
        lemma_single(seg);
    }
    let segments = vec![seg];
    proof {
        assert(segments@ =~= seq![seg]);
    }
    centered_segments_line(width, segments, Background::Plain)
}

/// A line of `width` spaces on background `bg`.
pub fn blank_line(width: u16, background: Background) -> (r: StyledLine)
    ensures
        seg_views(r.segments@) == seq![(spaces(width as nat), fill_spec(background))],
        line_width(r) == width,
{
    let seg = StyledSegment { text: space_string(width as usize), style: fill_style(background) };
    proof {
        lemma_single(seg);
        lemma_spaces(width as nat);
    }
    let segments = vec![seg];
    proof {
        assert(segments@ =~= seq![seg]);
    }
    StyledLine { segments }
}

/// `n` horizontal rules.
pub open spec fn rules(n: nat) -> Seq<char>
    decreases n,
{
    if n == 0 {
        Seq::empty()
    } else {
        rules((n - 1) as nat).push('\u{2500}')
    }
}

proof fn lemma_rules(n: nat)
    ensures
        width(rules(n)) == n,
    decreases n,
{
    if n > 0 {
        lemma_rules((n - 1) as nat);
        assert(rules(n).drop_last() =~= rules((n - 1) as nat));
    }
}

/// A dimmed horizontal rule across `width` columns.
pub fn separator_line(width: u16) -> (r: StyledLine)
    ensures
        seg_views(r.segments@) == separator_views(width as int),
        line_width(r) == width,
{
    let mut text = String::new();
    let mut i: u16 = 0;
    while i < width
        invariant
            i <= width,
            text@ == rules(i as nat),
        decreases width - i,
    {
        push_char(&mut text, '\u{2500}');
        i = i + 1;
        proof {
            assert(text@ =~= rules(i as nat));
        }
    }
    let seg = StyledSegment { text, style: SegmentStyleSpec::muted() };
    proof {
        lemma_single(seg);
        lemma_rules(width as nat);
    }
    let segments = vec![seg];
    proof {
        assert(segments@ =~= seq![seg]);
    }
    StyledLine { segments }
}

/// Body rows below the header and above the footer: at least three.
pub fn body_height(height: u16) -> (r: usize)
    ensures
        r == crate::tui::app::spec_visible_limit(height),
{
    let h: usize = if height > 5 {
        (height - 5) as usize
    } else {
        0
    };
    if h > 3 {
        h
    } else {
        3
    }
}

/// Dialog body rows: at least three.
pub open spec fn spec_dialog_body_height(height: u16) -> int {
    if height >= 7 {
        height - 4
    } else {
        3
    }
}

/// Dialog body rows: at least three.
pub fn dialog_body_height(height: u16) -> (r: usize)
    ensures
        r == spec_dialog_body_height(height),
{
    let h: usize = if height > 4 {
        (height - 4) as usize
    } else {
        0
    };
    if h > 3 {
        h
    } else {
        3
    }
}


/// How long ago something changed, given the seconds since: just now
/// under a minute, then whole minutes, hours, days, or weeks.
pub open spec fn relative_time(secs: nat) -> Seq<char> {
    if secs < 60 {
        "just now"@
    } else if secs < 3600 {
        decimal(secs / 60) + "m ago"@
    } else if secs < 86400 {
        decimal(secs / 3600) + "h ago"@
    } else if secs < 604800 {
        decimal(secs / 86400) + "d ago"@
    } else {
        decimal(secs / 604800) + "w ago"@
    }
}

/// How long before `now_secs` the time `mtime_secs` was, in words; a time
/// in the future counts as just now.
pub fn format_relative_time(mtime_secs: u64, now_secs: u64) -> (r: String)
    ensures
        r@ == relative_time(if now_secs >= mtime_secs {
            (now_secs - mtime_secs) as nat
        } else {
            0
        }),
{
    let seconds = if now_secs >= mtime_secs {
        now_secs - mtime_secs
    } else {
        0
    };
    if seconds < 60 {
        return owned("just now");
    }
    let (count, unit) = if seconds < 3600 {
        (seconds / 60, "m ago")
    } else if seconds < 86400 {
        (seconds / 3600, "h ago")
    } else if seconds < 604800 {
        (seconds / 86400, "d ago")
    } else {
        (seconds / 604800, "w ago")
    };
    let mut r = String::new();
    push_decimal(&mut r, count);
    push_str(&mut r, unit);
    proof {
        assert(r@ =~= decimal(count as nat) + unit@);
    }
    r
}

/// The segments of an input line with the cursor shown in reverse video:
/// a blank cursor cell for empty input, else the text before the cursor,
/// the character under it (a space at the end), and the rest.
pub open spec fn spec_input_segments(input: Seq<char>, cursor_pos: int) -> Seq<(Seq<char>, SegmentStyleSpec)> {
    let cur = if cursor_pos < input.len() {
        cursor_pos
    } else {
        input.len() as int
    };
    let cursor_style = SegmentStyleSpec { reversed: true, ..normal_style() };
    if input.len() == 0 {
        seq![(seq![' '], cursor_style)]
    } else {
        let before = appended(Seq::empty(), input.take(cur), normal_style());
        let with_cursor = appended(
            before,
            seq![if cur < input.len() { input[cur] } else { ' ' }],
            cursor_style,
        );
        if cur < input.len() {
            appended(with_cursor, input.skip(cur + 1), normal_style())
        } else {
            with_cursor
        }
    }
}

/// The segments of an input line with its cursor.
pub fn input_segments(input: &str, cursor_pos: usize) -> (r: Vec<StyledSegment>)
    ensures
        seg_views(r@) == spec_input_segments(input@, cursor_pos as int),
{
    let chars = chars_of(input);
    let cursor = if cursor_pos < chars.len() {
        cursor_pos
    } else {
        chars.len()
    };
    if chars.len() == 0 {
        let seg = StyledSegment::new(" ", SegmentStyleSpec::cursor());
        proof {
            reveal_strlit(" ");
            lemma_single(seg);
            assert(" "@ =~= seq![' ']);
        }
        let v = vec![seg];
        proof {
            assert(v@ =~= seq![seg]);
        }
        return v;
    }
    let mut segments: Vec<StyledSegment> = Vec::new();
    proof {
        assert(seg_views(segments@) =~= Seq::<(Seq<char>, SegmentStyleSpec)>::empty());
    }
    if cursor > 0 {
        append_segment(
            &mut segments,
            string_of(slice_vec(chars.as_slice(), 0, cursor).as_slice()),
            SegmentStyleSpec::normal(),
        );
        proof {
            assert(chars@.subrange(0, cursor as int) =~= input@.take(cursor as int));
        }
    } else {
        proof {
            assert(input@.take(0).len() == 0);
        }
    }
    let cursor_char = if cursor < chars.len() {
        chars[cursor]
    } else {
        ' '
    };
    let mut cell = String::new();
    push_char(&mut cell, cursor_char);
    append_segment(&mut segments, cell, SegmentStyleSpec::cursor());
    if cursor < chars.len() {
        append_segment(
            &mut segments,
            string_of(slice_vec(chars.as_slice(), cursor + 1, chars.len()).as_slice()),
            SegmentStyleSpec::normal(),
        );
        proof {
            assert(chars@.subrange(cursor + 1, chars@.len() as int) =~= input@.skip(cursor + 1));
        }
    }
    segments
}

/// The index into `ps` after skipping positions below `target`.
pub open spec fn advance(ps: Seq<usize>, pi: int, target: int) -> int
    decreases ps.len() - pi,
{
    if 0 <= pi < ps.len() && ps[pi] < target {
        advance(ps, pi + 1, target)
    } else {
        pi
    }
}

/// The index into `ps` after scanning the first `n` characters.
pub open spec fn scan_state(ps: Seq<usize>, offset: int, n: int) -> int
    decreases n,
{
    if n <= 0 {
        0
    } else {
        let p = advance(ps, scan_state(ps, offset, n - 1), n - 1 + offset);
        if 0 <= p < ps.len() && ps[p] == n - 1 + offset {
            p + 1
        } else {
            p
        }
    }
}

/// Whether character `i` is highlighted: the scan of the positions finds
/// `i + offset` at this point.
pub open spec fn highlighted_at(ps: Seq<usize>, offset: int, i: int) -> bool {
    let p = advance(ps, scan_state(ps, offset, i), i + offset);
    0 <= p < ps.len() && ps[p] == i + offset
}

/// The segments of the first `n` characters of `text`, matched characters
/// in the highlight style, others plain, all on background `bg`.
pub open spec fn hl_segments(text: Seq<char>, ps: Seq<usize>, offset: int, bg: Background, n: int) -> Seq<(Seq<char>, SegmentStyleSpec)>
    decreases n,
{
    if n <= 0 {
        Seq::empty()
    } else {
        appended(
            hl_segments(text, ps, offset, bg, n - 1),
            seq![text[n - 1]],
            if highlighted_at(ps, offset, n - 1) {
                SegmentStyleSpec { fg: Foreground::Highlight, bold: true, bg, ..normal_style() }
            } else {
                fill_spec(bg)
            },
        )
    }
}

/// The segments of `text` with the characters at `positions` (shifted by
/// `offset`) highlighted.
pub fn highlighted_name_segments(text: &str, positions: &[usize], offset: usize, background: Background) -> (r: Vec<StyledSegment>)
    ensures
        seg_views(r@) == hl_segments(text@, positions@, offset as int, background, text@.len() as int),
{
    let chars = chars_of(text);
    let base = SegmentStyleSpec::normal().with_background(background);
    let highlight = SegmentStyleSpec::highlight().with_background(background);
    let mut segments: Vec<StyledSegment> = Vec::new();
    let mut position_index: usize = 0;
    let mut index: usize = 0;
    proof {
        assert(seg_views(segments@) =~= Seq::<(Seq<char>, SegmentStyleSpec)>::empty());
    }
    while index < chars.len()
        invariant
            index <= chars@.len(),
            chars@ == text@,
            position_index == scan_state(positions@, offset as int, index as int),
            0 <= position_index <= positions@.len(),
            base == fill_spec(background),
            highlight == (SegmentStyleSpec { fg: Foreground::Highlight, bold: true, bg: background, ..normal_style() }),
            seg_views(segments@) == hl_segments(text@, positions@, offset as int, background, index as int),
        decreases chars@.len() - index,
    {
        let target: u128 = index as u128 + offset as u128;
        let ghost start = position_index as int;
        while position_index < positions.len() && (positions[position_index] as u128) < target
            invariant
                start <= position_index <= positions@.len(),
                advance(positions@, start, target as int) == advance(
                    positions@,
                    position_index as int,
                    target as int,
                ),
            decreases positions@.len() - position_index,
        {
            position_index = position_index + 1;
        }
        let hit = position_index < positions.len() && positions[position_index] as u128 == target;
        let style = if hit {
            position_index = position_index + 1;
            highlight
        } else {
            base
        };
        let mut cell = String::new();
        push_char(&mut cell, chars[index]);
        append_segment(&mut segments, cell, style);
        index = index + 1;
    }
    segments
}

/// The segments of an entry name: a date prefix dimmed, the rest with its
/// matched characters highlighted.
pub open spec fn spec_entry_name(name: Seq<char>, ps: Seq<usize>, bg: Background) -> Seq<(Seq<char>, SegmentStyleSpec)> {
    if spec_has_date_prefix(name) && name.len() > 11 {
        seq![(name.take(11), SegmentStyleSpec { fg: Foreground::Muted, bg, ..normal_style() })]
            + hl_segments(name.skip(11), ps, 11, bg, name.len() - 11)
    } else {
        hl_segments(name, ps, 0, bg, name.len() as int)
    }
}

/// The segments of an entry name.
pub fn format_entry_name(name: &str, positions: &[usize], background: Background) -> (r: Vec<StyledSegment>)
    ensures
        seg_views(r@) == spec_entry_name(name@, positions@, background),
{
    let chars = chars_of(name);
    if has_date_prefix(name) && chars.len() > 11 {
        let date_part = string_of(slice_vec(chars.as_slice(), 0, 11).as_slice());
        let name_part = string_of(slice_vec(chars.as_slice(), 11, chars.len()).as_slice());
        proof {
            assert(date_part@ =~= name@.take(11));
            assert(name_part@ =~= name@.skip(11));
        }
        let first = StyledSegment {
            text: date_part,
            style: SegmentStyleSpec::muted().with_background(background),
        };
        let rest = highlighted_name_segments(name_part.as_str(), positions, 11, background);
        let mut segments = vec![first];
        proof {
            assert(segments@ =~= seq![first]);
            lemma_single(first);
        }
        let mut k: usize = 0;
        let ghost base = seg_views(segments@);
        while k < rest.len()
            invariant
                k <= rest@.len(),
                seg_views(segments@) == base + seg_views(rest@.take(k as int)),
            decreases rest@.len() - k,
        {
            let text = rest[k].text.clone();
            let style = rest[k].style;
            let ghost prev = segments@;
            segments.push(StyledSegment { text, style });
            proof {
                assert(segments@.drop_last() =~= prev);
                assert(rest@.take(k + 1).drop_last() =~= rest@.take(k as int));
                assert(seg_views(segments@) =~= seg_views(prev).push((text@, style)));
                assert(seg_views(rest@.take(k + 1)) =~= seg_views(rest@.take(k as int)).push(
                    (rest@[k as int].text@, rest@[k as int].style),
                ));
            }
            k = k + 1;
        }
        proof {
            assert(rest@.take(k as int) =~= rest@);
        }
        segments
    } else {
        highlighted_name_segments(name, positions, 0, background)
    }
}

/// Name segments cut to `max_width` columns with an ellipsis at the end.
pub open spec fn spec_truncated_name(v: Seq<(Seq<char>, SegmentStyleSpec)>, max_width: int, bg: Background) -> Seq<(Seq<char>, SegmentStyleSpec)> {
    if max_width <= 0 {
        Seq::empty()
    } else if max_width == 1 {
        seq![(seq!['\u{2026}'], fill_spec(bg))]
    } else {
        appended(spec_truncate(v, max_width - 1), seq!['\u{2026}'], fill_spec(bg))
    }
}

/// Cuts name segments to `max_width` columns, ending with an ellipsis.
pub fn truncated_name_segments(segments: &[StyledSegment], max_width: usize, background: Background) -> (r: Vec<StyledSegment>)
    ensures
        seg_views(r@) == spec_truncated_name(seg_views(segments@), max_width as int, background),
        width(views_text(seg_views(r@))) <= max_width,
{
    proof {
        reveal_strlit("\u{2026}");
        assert("\u{2026}"@ =~= seq!['\u{2026}']);
        assert(width(seq!['\u{2026}']) == 1) by {
            assert(seq!['\u{2026}'].drop_last() =~= Seq::<char>::empty());
            assert(width(Seq::<char>::empty()) == 0);
            assert(seq!['\u{2026}'].last() == '\u{2026}');
            assert(spec_char_width('\u{2026}') == 1);
        }
    }
    if max_width == 0 {
        let v: Vec<StyledSegment> = Vec::new();
        proof {
            assert(seg_views(v@) =~= Seq::<(Seq<char>, SegmentStyleSpec)>::empty());
        }
        return v;
    }
    let ellipsis_style = SegmentStyleSpec::normal().with_background(background);
    if max_width == 1 {
        let seg = StyledSegment::new("\u{2026}", ellipsis_style);
        proof {
            lemma_single(seg);
        }
        let v = vec![seg];
        proof {
            assert(v@ =~= seq![seg]);
        }
        return v;
    }
    let mut truncated = truncate_segments(segments, max_width - 1);
    let ghost before = seg_views(truncated@);
    append_segment(&mut truncated, owned("\u{2026}"), ellipsis_style);
    proof {
        lemma_appended_text(before, seq!['\u{2026}'], ellipsis_style);
        lemma_width_concat(views_text(before), seq!['\u{2026}']);
    }
    truncated
}


/// Every line is `w` columns wide.
pub open spec fn all_width(lines: Seq<StyledLine>, w: int) -> bool {
    forall|k: int| 0 <= k < lines.len() ==> line_width(#[trigger] lines[k]) == w
}

fn segs2(a: StyledSegment, b: StyledSegment) -> (r: Vec<StyledSegment>)
    ensures
        seg_views(r@) == seq![(a.text@, a.style), (b.text@, b.style)],
{
    let v = vec![a, b];
    proof {
        assert(v@.drop_last() =~= seq![a]);
        lemma_single(a);
        assert(seg_views(v@) =~= seq![(a.text@, a.style), (b.text@, b.style)]);
    }
    v
}

fn segs3(a: StyledSegment, b: StyledSegment, c: StyledSegment) -> (r: Vec<StyledSegment>)
    ensures
        seg_views(r@) == seq![(a.text@, a.style), (b.text@, b.style), (c.text@, c.style)],
{
    let mut v = segs2(a, b);
    let ghost before = v@;
    v.push(c);
    proof {
        assert(v@.drop_last() =~= before);
        assert(seg_views(v@) =~= seq![(a.text@, a.style), (b.text@, b.style), (c.text@, c.style)]);
    }
    v
}

/// The dimmed style.
pub open spec fn muted_spec() -> SegmentStyleSpec {
    SegmentStyleSpec { fg: Foreground::Muted, ..normal_style() }
}

/// A prompt: its label, dimmed, then the input with its cursor.
pub open spec fn spec_prompt(label: Seq<char>, input: Seq<char>, cursor_pos: int) -> Seq<(Seq<char>, SegmentStyleSpec)> {
    seq![(label, muted_spec())] + spec_input_segments(input, cursor_pos)
}

/// The selection arrow, or two spaces on other rows.
pub open spec fn arrow_text(selected: bool) -> Seq<char> {
    if selected {
        "\u{2192} "@
    } else {
        "  "@
    }
}

/// The style of the selection arrow on background `bg`.
pub open spec fn arrow_style(selected: bool, bg: Background) -> SegmentStyleSpec {
    if selected {
        SegmentStyleSpec { fg: Foreground::Highlight, bold: true, bg, ..normal_style() }
    } else {
        fill_spec(bg)
    }
}

/// The background of a result row.
pub open spec fn entry_background(marked: bool, selected: bool) -> Background {
    if marked {
        Background::Danger
    } else if selected {
        Background::Selected
    } else {
        Background::Plain
    }
}

/// The icon of a result row: a bin when marked, a link for a symlink,
/// else a folder.
pub open spec fn entry_icon(marked: bool, is_symlink: bool) -> Seq<char> {
    if marked {
        "\u{1f5d1}\u{fe0f}"@
    } else if is_symlink {
        "\u{1f517}"@
    } else {
        "\u{1f4c1}"@
    }
}

/// Seconds from `mtime` to `now`, 0 when `mtime` is later.
pub open spec fn elapsed(mtime: u64, now: u64) -> nat {
    if now >= mtime {
        (now - mtime) as nat
    } else {
        0
    }
}

/// A result row: arrow, icon and name on the left, with the age and
/// score on the right; a name too long for the row is cut with an
/// ellipsis and the metadata left out.
pub open spec fn spec_entry_line(
    w: int,
    name: Seq<char>,
    positions: Seq<usize>,
    is_symlink: bool,
    marked: bool,
    selected: bool,
    meta: Seq<char>,
) -> Seq<(Seq<char>, SegmentStyleSpec)> {
    let bg = entry_background(marked, selected);
    let fill = fill_spec(bg);
    let prefix = seq![
        (arrow_text(selected), arrow_style(selected, bg)),
        (entry_icon(marked, is_symlink), fill),
        (" "@, fill),
    ];
    let max_w = if w > 6 {
        w - 6
    } else {
        0
    };
    let name_views = spec_entry_name(name, positions, bg);
    if width(name) > max_w {
        spec_compose(w, prefix + spec_truncated_name(name_views, max_w, bg), None, bg)
    } else {
        spec_compose(w, prefix + name_views, Some((meta, SegmentStyleSpec { fg: Foreground::Muted, bg, ..normal_style() })), bg)
    }
}

/// `label` is the create-new row's text: `Create new` for an empty input,
/// else `Create new: ` and the name the lab would get on the date `today`.
pub open spec fn create_label(input: Seq<char>, today: Seq<char>, label: Seq<char>) -> bool {
    &&& (input.len() == 0 ==> label == "Create new"@)
    &&& (input.len() > 0 ==> label == "Create new: "@ + today + seq!['-'] + collapse_spaces(input))
}

/// The create-new row with text `label`.
pub open spec fn spec_create_line(w: int, selected: bool, label: Seq<char>) -> Seq<(Seq<char>, SegmentStyleSpec)> {
    let bg = if selected {
        Background::Selected
    } else {
        Background::Plain
    };
    spec_compose(
        w,
        seq![
            (arrow_text(selected), arrow_style(selected, bg)),
            ("\u{1f4c2}"@, fill_spec(bg)),
            (" "@, fill_spec(bg)),
            (label, fill_spec(bg)),
        ],
        None,
        bg,
    )
}

/// Segments `prefix` followed by copies of `rest`.
fn with_segments(prefix: Vec<StyledSegment>, rest: &Vec<StyledSegment>) -> (r: Vec<StyledSegment>)
    ensures
        seg_views(r@) == seg_views(prefix@) + seg_views(rest@),
{
    let mut out = prefix;
    let ghost base = seg_views(out@);
    let mut k: usize = 0;
    while k < rest.len()
        invariant
            k <= rest@.len(),
            seg_views(out@) == base + seg_views(rest@.take(k as int)),
        decreases rest@.len() - k,
    {
        let text = rest[k].text.clone();
        let style = rest[k].style;
        let ghost prev = out@;
        out.push(StyledSegment { text, style });
        proof {
            assert(out@.drop_last() =~= prev);
            assert(rest@.take(k + 1).drop_last() =~= rest@.take(k as int));
            assert(seg_views(out@) =~= seg_views(prev).push((text@, style)));
            assert(seg_views(rest@.take(k + 1)) =~= seg_views(rest@.take(k as int)).push(
                (rest@[k as int].text@, rest@[k as int].style),
            ));
        }
        k = k + 1;
    }
    proof {
        assert(rest@.take(k as int) =~= rest@);
    }
    out
}

/// The title line: the title on the left, the labs path on the right.
pub open spec fn title_views(w: int, labs_path: Seq<char>) -> Seq<(Seq<char>, SegmentStyleSpec)> {
    spec_compose(
        w,
        seq![("\u{1f3e0}"@, normal_style()), (" Lab Directory Selection"@, SegmentStyleSpec { fg: Foreground::Accent, bold: true, ..normal_style() })],
        Some((labs_path, muted_spec())),
        Background::Plain,
    )
}

/// The search line: the label and the input with its cursor.
pub open spec fn search_views(w: int, input: Seq<char>, cursor_pos: int) -> Seq<(Seq<char>, SegmentStyleSpec)> {
    spec_compose(w, spec_prompt("Search: "@, input, cursor_pos), None, Background::Plain)
}

/// A rule across the line.
pub open spec fn separator_views(w: int) -> Seq<(Seq<char>, SegmentStyleSpec)> {
    seq![(rules(w as nat), muted_spec())]
}

/// The footer: the delete-mode banner with the number of marks, or the
/// key hints.
pub open spec fn footer_views(w: int, app: App) -> Seq<(Seq<char>, SegmentStyleSpec)> {
    if !app.marks@.is_empty() && app.mode == crate::tui::app::Mode::Normal {
        spec_centered(
            w,
            seq![(
                "DELETE MODE | "@ + decimal(app.marks@.len()) + " marked | Ctrl-D: Toggle | Enter: Confirm | Esc: Cancel"@,
                SegmentStyleSpec { bold: true, bg: Background::Danger, ..normal_style() },
            )],
            Background::Danger,
        )
    } else {
        spec_centered(
            w,
            seq![("\u{2191}/\u{2193}: Navigate  Enter: Select  ^R: Rename  ^G: Graduate  ^D: Delete  Esc: Cancel"@, muted_spec())],
            Background::Plain,
        )
    }
}

/// The title line: the title on the left, the labs path on the right.
pub fn build_title_line(app: &App, width: u16) -> (r: StyledLine)
    ensures
        line_width(r) == width,
        seg_views(r.segments@) == title_views(width as int, app.labs_path@),
{
    let left = segs2(
        StyledSegment::new("\u{1f3e0}", SegmentStyleSpec::normal()),
        StyledSegment::new(" Lab Directory Selection", SegmentStyleSpec::accent()),
    );
    let right = StyledSegment { text: app.labs_path.clone(), style: SegmentStyleSpec::muted() };
    let r = compose_left_right(width, left, Some(right), Background::Plain);
    proof {
        assert(right.text@ == app.labs_path@);
        assert(right.style == SegmentStyleSpec { fg: Foreground::Muted, ..normal_style() });
        assert(seg_views(left@) == seq![("\u{1f3e0}"@, normal_style()), (" Lab Directory Selection"@, SegmentStyleSpec { fg: Foreground::Accent, bold: true, ..normal_style() })]);
    }
    r
}

fn prompt_segments(label: &str, input: &str, cursor_pos: usize) -> (r: Vec<StyledSegment>)
    ensures
        seg_views(r@) == spec_prompt(label@, input@, cursor_pos as int),
{
    let first = StyledSegment::new(label, SegmentStyleSpec::muted());
    let rest = input_segments(input, cursor_pos);
    let mut segments = vec![first];
    proof {
        assert(segments@ =~= seq![first]);
        lemma_single(first);
    }
    let ghost base = seg_views(segments@);
    let mut k: usize = 0;
    while k < rest.len()
        invariant
            k <= rest@.len(),
            seg_views(segments@) == base + seg_views(rest@.take(k as int)),
        decreases rest@.len() - k,
    {
        let text = rest[k].text.clone();
        let style = rest[k].style;
        let ghost prev = segments@;
        segments.push(StyledSegment { text, style });
        proof {
            assert(segments@.drop_last() =~= prev);
            assert(rest@.take(k + 1).drop_last() =~= rest@.take(k as int));
            assert(seg_views(segments@) =~= seg_views(prev).push((text@, style)));
            assert(seg_views(rest@.take(k + 1)) =~= seg_views(rest@.take(k as int)).push(
                (rest@[k as int].text@, rest@[k as int].style),
            ));
        }
        k = k + 1;
    }
    proof {
        assert(rest@.take(k as int) =~= rest@);
    }
    segments
}

/// The search line: a label and the query with its cursor.
pub fn build_search_line(app: &App, width: u16) -> (r: StyledLine)
    ensures
        line_width(r) == width,
        seg_views(r.segments@) == search_views(width as int, app.input@, app.input_cursor_pos as int),
{
    let segments = prompt_segments("Search: ", app.input.as_str(), app.input_cursor_pos);
    fill_line(width, segments, Background::Plain)
}

/// The columns taken before a name: the selection arrow, the icon and a space.
pub fn prefix_width() -> (r: usize)
    ensures
        r == width("\u{2192} \u{1f4c1} "@),
{
    proof {
        reveal_strlit("\u{2192} \u{1f4c1} ");
        reveal_with_fuel(width, 5);
    }
    text_width("\u{2192} \u{1f4c1} ")
}

/// The line of one result: a selection arrow, an icon (marked, link or
/// folder), the name with matches highlighted, and on the right how long
/// ago it changed and its score, unless the name had to be cut.
pub fn build_entry_line(app: &App, entry: &Entry, result: &MatchResult, selected: bool, width: u16, now_secs: u64) -> (r: StyledLine)
    ensures
        line_width(r) == width,
        seg_views(r.segments@) == spec_entry_line(
            width as int,
            entry.name@,
            result.positions@,
            entry.is_symlink,
            app.marks@.contains(result.index),
            selected,
            relative_time(elapsed(entry.mtime_secs, now_secs)) + ", "@ + result.score_text@,
        ),
{
    let marked = app.marks.contains(&result.index);
    let background = if marked {
        Background::Danger
    } else if selected {
        Background::Selected
    } else {
        Background::Plain
    };
    let line_fill = fill_style(background);
    let prefix_style = if selected {
        SegmentStyleSpec::highlight().with_background(background)
    } else {
        line_fill
    };
    let prefix = segs3(
        StyledSegment::new(if selected { "\u{2192} " } else { "  " }, prefix_style),
        StyledSegment::new(
            if marked {
                "\u{1f5d1}\u{fe0f}"
            } else if entry.is_symlink {
                "\u{1f517}"
            } else {
                "\u{1f4c1}"
            },
            line_fill,
        ),
        StyledSegment::new(" ", line_fill),
    );
    let name_segments = format_entry_name(entry.name.as_str(), result.positions.as_slice(), background);
    let max_name_width: usize = if width > 6 {
        (width - 6) as usize
    } else {
        0
    };
    let too_long = !fits_width(entry.name.as_str(), max_name_width);
    let display_name = if too_long {
        truncated_name_segments(name_segments.as_slice(), max_name_width, background)
    } else {
        name_segments
    };
    let left = with_segments(prefix, &display_name);
    if too_long {
        return fill_line(width, left, background);
    }
    let mut meta = format_relative_time(entry.mtime_secs, now_secs);
    push_str(&mut meta, ", ");
    push_str(&mut meta, result.score_text.as_str());
    let metadata = StyledSegment {
        text: meta,
        style: SegmentStyleSpec::muted().with_background(background),
    };
    compose_left_right(width, left, Some(metadata), background)
}

/// The create-new line: a selection arrow, an icon and the name the new
/// lab would get.
pub fn build_create_line(app: &App, selected: bool, width: u16) -> (r: StyledLine)
    ensures
        line_width(r) == width,
        exists|label: Seq<char>|
            create_label(app.input@, app.today@, label) && seg_views(r.segments@) == spec_create_line(width as int, selected, label),
{
    let background = if selected {
        Background::Selected
    } else {
        Background::Plain
    };
    let line_fill = fill_style(background);
    let prefix_style = if selected {
        SegmentStyleSpec::highlight().with_background(background)
    } else {
        line_fill
    };
    let label = match app.create_new_name() {
        Some(name) => {
            let mut l = owned("Create new: ");
            push_str(&mut l, name.as_str());
            proof {
                assert(l@ =~= "Create new: "@ + app.today@ + seq!['-'] + collapse_spaces(app.input@));
            }
            l
        },
        None => owned("Create new"),
    };
    let ghost label_view = label@;
    proof {
        assert(create_label(app.input@, app.today@, label_view));
    }
    let mut left = segs3(
        StyledSegment::new(if selected { "\u{2192} " } else { "  " }, prefix_style),
        StyledSegment::new("\u{1f4c2}", line_fill),
        StyledSegment::new(" ", line_fill),
    );
    let ghost before = left@;
    let last = StyledSegment { text: label, style: line_fill };
    left.push(last);
    proof {
        assert(left@.drop_last() =~= before);
        assert(seg_views(left@) =~= seq![
            (arrow_text(selected), arrow_style(selected, background)),
            ("\u{1f4c2}"@, fill_spec(background)),
            (" "@, fill_spec(background)),
            (label_view, fill_spec(background)),
        ]);
    }
    let r = fill_line(width, left, background);
    proof {
        assert(seg_views(r.segments@) == spec_create_line(width as int, selected, label_view));
    }
    r
}

/// Row `row` of the result list shows the result at the scroll offset plus
/// `row`, else the create-new row right after the results, else nothing.
pub open spec fn body_row_ok(app: App, w: int, now: u64, row: int, line: StyledLine) -> bool {
    let k = app.scroll_offset + row;
    if k < app.filtered@.len() {
        let result = app.filtered@[k];
        let entry = app.entries@[result.index as int];
        seg_views(line.segments@) == spec_entry_line(
            w,
            entry.name@,
            result.positions@,
            entry.is_symlink,
            app.marks@.contains(result.index),
            k == app.cursor_pos,
            relative_time(elapsed(entry.mtime_secs, now)) + ", "@ + result.score_text@,
        )
    } else if app.input@.len() > 0 && k == app.filtered@.len() {
        exists|label: Seq<char>|
            create_label(app.input@, app.today@, label) && seg_views(line.segments@) == spec_create_line(w, k == app.cursor_pos, label)
    } else {
        seg_views(line.segments@) == seq![(spaces(w as nat), fill_spec(Background::Plain))]
    }
}

/// The rows of the result list: results from the scroll offset on, then
/// the create-new row, then blank lines.
pub fn build_body_lines(app: &App, width: u16, body_rows: usize, now_secs: u64) -> (r: Vec<StyledLine>)
    requires
        app.wf(),
    ensures
        r@.len() == body_rows,
        all_width(r@, width as int),
        forall|i: int| 0 <= i < body_rows ==> body_row_ok(*app, width as int, now_secs, i, #[trigger] r@[i]),
{
    let mut lines: Vec<StyledLine> = Vec::new();
    let mut row: usize = 0;
    while row < body_rows
        invariant
            row <= body_rows,
            app.wf(),
            lines@.len() == row,
            all_width(lines@, width as int),
            forall|i: int| 0 <= i < row ==> body_row_ok(*app, width as int, now_secs, i, #[trigger] lines@[i]),
        decreases body_rows - row,
    {
        let line = if app.scroll_offset <= usize::MAX - row && app.scroll_offset + row < app.filtered.len() {
            let list_index = app.scroll_offset + row;
            let result = &app.filtered[list_index];
            let entry = &app.entries[result.index];
            build_entry_line(app, entry, result, list_index == app.cursor_pos, width, now_secs)
        } else if app.scroll_offset <= usize::MAX - row && app.show_create_new()
            && app.scroll_offset + row == app.filtered.len() {
            build_create_line(app, app.scroll_offset + row == app.cursor_pos, width)
        } else {
            blank_line(width, Background::Plain)
        };
        proof {
            assert(body_row_ok(*app, width as int, now_secs, row as int, line));
        }
        lines.push(line);
        row = row + 1;
    }
    lines
}

/// The footer: the delete-mode banner with the number of marks, or the
/// key hints.
pub fn build_footer_line(app: &App, width: u16) -> (r: StyledLine)
    ensures
        line_width(r) == width,
        seg_views(r.segments@) == footer_views(width as int, *app),
{
    if app.is_delete_mode() {
        let mut text = owned("DELETE MODE | ");
        push_decimal(&mut text, app.marked_count() as u64);
        push_str(&mut text, " marked | Ctrl-D: Toggle | Enter: Confirm | Esc: Cancel");
        let seg = StyledSegment {
            text,
            style: SegmentStyleSpec::normal().bold().with_background(Background::Danger),
        };
        let segs = vec![seg];
        proof {
            assert(segs@ =~= seq![seg]);
            lemma_single(seg);
        }
        centered_segments_line(width, segs, Background::Danger)
    } else {
        centered_line(
            width,
            "\u{2191}/\u{2193}: Navigate  Enter: Select  ^R: Rename  ^G: Graduate  ^D: Delete  Esc: Cancel",
            SegmentStyleSpec::muted(),
        )
    }
}

fn dialog_title(width: u16, icon: &str, title: &str) -> (r: StyledLine)
    ensures
        line_width(r) == width,
        seg_views(r.segments@) == spec_centered(
            width as int,
            seq![(icon@, normal_style()), (title@, SegmentStyleSpec { fg: Foreground::Accent, bold: true, ..normal_style() })],
            Background::Plain,
        ),
{
    let segments = segs2(
        StyledSegment::new(icon, SegmentStyleSpec::normal()),
        StyledSegment::new(title, SegmentStyleSpec::accent()),
    );
    proof {
        assert(seg_views(segments@) =~= seq![(icon@, normal_style()), (title@, SegmentStyleSpec { fg: Foreground::Accent, bold: true, ..normal_style() })]);
    }
    centered_segments_line(width, segments, Background::Plain)
}

/// One marked entry in the delete confirmation.
pub fn build_delete_dialog_item_line(name: &str, width: u16) -> (r: StyledLine)
    ensures
        line_width(r) == width,
        seg_views(r.segments@) == spec_compose(
            width as int,
            seq![
                ("\u{1f5d1}\u{fe0f}"@, fill_spec(Background::Danger)),
                (" "@, fill_spec(Background::Danger)),
                (name@, fill_spec(Background::Danger)),
            ],
            None,
            Background::Danger,
        ),
{
    let danger = fill_style(Background::Danger);
    let segments = segs3(
        StyledSegment::new("\u{1f5d1}\u{fe0f}", danger),
        StyledSegment::new(" ", danger),
        StyledSegment::new(name, danger),
    );
    fill_line(width, segments, Background::Danger)
}

/// The prompt of the delete confirmation, with its input.
pub fn build_delete_prompt_line(app: &App, width: u16) -> (r: StyledLine)
    ensures
        line_width(r) == width,
        seg_views(r.segments@) == spec_centered(
            width as int,
            match app.delete_confirmation {
                Some(d) => spec_prompt("Type YES to confirm: "@, d.input@, d.cursor_pos as int),
                None => spec_prompt("Type YES to confirm: "@, Seq::empty(), 0),
            },
            Background::Plain,
        ),
{
    let (input, cursor) = match &app.delete_confirmation {
        Some(d) => (d.input.as_str(), d.cursor_pos),
        None => ("", 0),
    };
    proof {
        reveal_strlit("");
        assert(app.delete_confirmation is None ==> input@ =~= Seq::<char>::empty());
    }
    let segments = prompt_segments("Type YES to confirm: ", input, cursor);
    centered_segments_line(width, segments, Background::Plain)
}

/// The entry being renamed or graduated.
pub fn build_rename_current_line(current_name: &str, width: u16) -> (r: StyledLine)
    ensures
        line_width(r) == width,
        seg_views(r.segments@) == spec_compose(
            width as int,
            seq![("\u{1f4c1}"@, normal_style()), (" "@, normal_style()), (current_name@, normal_style())],
            None,
            Background::Plain,
        ),
{
    let segments = segs3(
        StyledSegment::new("\u{1f4c1}", SegmentStyleSpec::normal()),
        StyledSegment::new(" ", SegmentStyleSpec::normal()),
        StyledSegment::new(current_name, SegmentStyleSpec::normal()),
    );
    fill_line(width, segments, Background::Plain)
}

/// The prompt of the rename dialog, with its input.
pub fn build_rename_prompt_line(input: &str, cursor_pos: usize, width: u16) -> (r: StyledLine)
    ensures
        line_width(r) == width,
        seg_views(r.segments@) == spec_centered(
            width as int,
            spec_prompt("New name: "@, input@, cursor_pos as int),
            Background::Plain,
        ),
{
    let segments = prompt_segments("New name: ", input, cursor_pos);
    centered_segments_line(width, segments, Background::Plain)
}

/// Where the graduate destination comes from.
pub fn build_graduate_hint_line(destination_hint: &str, destination_root: &str, width: u16) -> (r: StyledLine)
    ensures
        line_width(r) == width,
        seg_views(r.segments@) == spec_centered(
            width as int,
            seq![("Destination ("@ + destination_hint@ + ": "@ + destination_root@ + ")"@, muted_spec())],
            Background::Plain,
        ),
{
    let mut text = owned("Destination (");
    push_str(&mut text, destination_hint);
    push_str(&mut text, ": ");
    push_str(&mut text, destination_root);
    push_str(&mut text, ")");
    centered_line(width, text.as_str(), SegmentStyleSpec::muted())
}

/// The prompt of the graduate dialog, with its input.
pub fn build_graduate_prompt_line(input: &str, cursor_pos: usize, width: u16) -> (r: StyledLine)
    ensures
        line_width(r) == width,
        seg_views(r.segments@) == spec_centered(
            width as int,
            spec_prompt("Move to: "@, input@, cursor_pos as int),
            Background::Plain,
        ),
{
    let segments = prompt_segments("Move to: ", input, cursor_pos);
    centered_segments_line(width, segments, Background::Plain)
}

/// A line of spaces on the plain background.
pub open spec fn blank_views(w: int) -> Seq<(Seq<char>, SegmentStyleSpec)> {
    seq![(spaces(w as nat), fill_spec(Background::Plain))]
}

/// The segments of each line.
pub open spec fn line_views(lines: Seq<StyledLine>) -> Seq<Seq<(Seq<char>, SegmentStyleSpec)>> {
    Seq::new(lines.len(), |k: int| seg_views(lines[k].segments@))
}

/// `lines` are a dialog: its title centred after its icon, a rule, `body`
/// cut or padded with blank lines to `rows`, a rule, and the key hints.
pub open spec fn frame_ok(
    lines: Seq<StyledLine>,
    w: int,
    icon: Seq<char>,
    title: Seq<char>,
    body: Seq<Seq<(Seq<char>, SegmentStyleSpec)>>,
    rows: int,
) -> bool {
    &&& lines.len() == rows + 4
    &&& seg_views(lines[0].segments@) == spec_centered(
        w,
        seq![(icon, normal_style()), (title, SegmentStyleSpec { fg: Foreground::Accent, bold: true, ..normal_style() })],
        Background::Plain,
    )
    &&& seg_views(lines[1].segments@) == separator_views(w)
    &&& forall|k: int| 0 <= k < rows ==> seg_views(#[trigger] lines[2 + k].segments@) == if k < body.len() {
        body[k]
    } else {
        blank_views(w)
    }
    &&& seg_views(lines[rows + 2].segments@) == separator_views(w)
    &&& seg_views(lines[rows + 3].segments@) == spec_centered(w, seq![("Enter: Confirm  Esc: Cancel"@, muted_spec())], Background::Plain)
}

/// The lines of a dialog: title, rule, the body cut or padded to
/// `body_rows`, rule, hints.
fn dialog_frame(width: u16, icon: &str, title: &str, body: Vec<StyledLine>, body_rows: usize) -> (r: Vec<StyledLine>)
    requires
        all_width(body@, width as int),
    ensures
        r@.len() == body_rows + 4,
        all_width(r@, width as int),
        frame_ok(r@, width as int, icon@, title@, line_views(body@), body_rows as int),
{
    let mut lines: Vec<StyledLine> = Vec::new();
    lines.push(dialog_title(width, icon, title));
    lines.push(separator_line(width));
    let ghost head = lines@;
    let ghost bv = line_views(body@);
    let mut k: usize = 0;
    while k < body_rows
        invariant
            k <= body_rows,
            lines@.len() == 2 + k,
            lines@.take(2) == head,
            bv == line_views(body@),
            all_width(lines@, width as int),
            all_width(body@, width as int),
            forall|j: int| 0 <= j < k ==> seg_views(#[trigger] lines@[2 + j].segments@) == if j < bv.len() {
                bv[j]
            } else {
                blank_views(width as int)
            },
        decreases body_rows - k,
    {
        let ghost prev = lines@;
        if k < body.len() {
            let segments = copy_segments(&body[k].segments);
            lines.push(StyledLine { segments });
        } else {
            lines.push(blank_line(width, Background::Plain));
        }
        proof {
            assert(lines@.take(2) =~= prev.take(2));
            assert forall|j: int| 0 <= j < k + 1 implies seg_views(#[trigger] lines@[2 + j].segments@) == if j < bv.len() {
                bv[j]
            } else {
                blank_views(width as int)
            } by {
                if j < k {
                    assert(lines@[2 + j] == prev[2 + j]);
                }
            }
        }
        k = k + 1;
    }
    let ghost mid = lines@;
    lines.push(separator_line(width));
    lines.push(centered_line(width, "Enter: Confirm  Esc: Cancel", SegmentStyleSpec::muted()));
    proof {
        assert(lines@[0] == head[0]);
        assert(lines@[1] == head[1]);
        assert forall|j: int| 0 <= j < body_rows implies seg_views(#[trigger] lines@[2 + j].segments@) == if j < bv.len() {
            bv[j]
        } else {
            blank_views(width as int)
        } by {
            assert(lines@[2 + j] == mid[2 + j]);
        }
    }
    lines
}

fn copy_segments(v: &Vec<StyledSegment>) -> (r: Vec<StyledSegment>)
    ensures
        seg_views(r@) == seg_views(v@),
{
    let mut r: Vec<StyledSegment> = Vec::new();
    let mut k: usize = 0;
    while k < v.len()
        invariant
            k <= v@.len(),
            seg_views(r@) == seg_views(v@.take(k as int)),
        decreases v@.len() - k,
    {
        let ghost prev = r@;
        r.push(StyledSegment { text: v[k].text.clone(), style: v[k].style });
        proof {
            assert(r@.drop_last() =~= prev);
            assert(v@.take(k + 1).drop_last() =~= v@.take(k as int));
        }
        k = k + 1;
    }
    proof {
        assert(v@.take(k as int) =~= v@);
    }
    r
}

/// A marked name in the delete confirmation.
pub open spec fn delete_item_views(w: int, name: Seq<char>) -> Seq<(Seq<char>, SegmentStyleSpec)> {
    spec_compose(
        w,
        seq![
            ("\u{1f5d1}\u{fe0f}"@, fill_spec(Background::Danger)),
            (" "@, fill_spec(Background::Danger)),
            (name, fill_spec(Background::Danger)),
        ],
        None,
        Background::Danger,
    )
}

/// The prompt of the delete confirmation with its input.
pub open spec fn delete_prompt_views(w: int, app: App) -> Seq<(Seq<char>, SegmentStyleSpec)> {
    spec_centered(
        w,
        match app.delete_confirmation {
            Some(d) => spec_prompt("Type YES to confirm: "@, d.input@, d.cursor_pos as int),
            None => spec_prompt("Type YES to confirm: "@, Seq::empty(), 0),
        },
        Background::Plain,
    )
}

/// The body of the delete confirmation: the names as far as they fit
/// above the last row, blank lines, and the prompt on the last row.
pub open spec fn delete_body(w: int, names: Seq<Seq<char>>, rows: int, prompt: Seq<(Seq<char>, SegmentStyleSpec)>) -> Seq<Seq<(Seq<char>, SegmentStyleSpec)>> {
    Seq::new(rows as nat, |k: int| if k < rows - 1 && k < names.len() {
        delete_item_views(w, names[k])
    } else if k < rows - 1 {
        blank_views(w)
    } else {
        prompt
    })
}

/// The title of the delete confirmation for `count` marks.
pub open spec fn delete_title(count: nat) -> Seq<char> {
    " Delete "@ + decimal(count) + " "@ + (if count == 1 {
        "directory"@
    } else {
        "directories"@
    }) + "?"@
}

/// The delete confirmation: how many directories, the marked names as far
/// as they fit, the prompt, and the hints.
pub fn build_delete_confirmation_lines(app: &App, width: u16, height: u16) -> (r: Vec<StyledLine>)
    requires
        app.wf(),
    ensures
        r@.len() == spec_dialog_body_height(height) + 4,
        all_width(r@, width as int),
        exists|order: Seq<usize>| #![trigger app.orders_marks(order)]
            {
                &&& app.orders_marks(order)
                &&& frame_ok(
                    r@,
                    width as int,
                    "\u{1f5d1}\u{fe0f}"@,
                    delete_title(app.marks@.len()),
                    delete_body(width as int, names_at(app.entries@, order), spec_dialog_body_height(height), delete_prompt_views(width as int, *app)),
                    spec_dialog_body_height(height),
                )
            },
{
    let body_rows = dialog_body_height(height);
    let count = app.marked_count();
    let noun = if count == 1 {
        "directory"
    } else {
        "directories"
    };
    let marked_entries = app.marked_entries();
    let prompt_row = body_rows - 1;
    let visible_items = if marked_entries.len() < prompt_row {
        marked_entries.len()
    } else {
        prompt_row
    };
    let mut title = owned(" Delete ");
    push_decimal(&mut title, count as u64);
    push_str(&mut title, " ");
    push_str(&mut title, noun);
    push_str(&mut title, "?");
    let ghost order = choose|s: Seq<usize>|
        {
            &&& app.orders_marks(s)
            &&& s.len() == marked_entries@.len()
            &&& forall|k: int| 0 <= k < s.len() ==> *marked_entries@[k] == app.entries@[s[k] as int]
        };
    let ghost names = names_at(app.entries@, order);
    let mut body: Vec<StyledLine> = Vec::new();
    let mut k: usize = 0;
    while k < visible_items
        invariant
            k <= visible_items <= marked_entries@.len(),
            visible_items <= prompt_row,
            names.len() == marked_entries@.len(),
            forall|j: int| 0 <= j < marked_entries@.len() ==> names[j] == marked_entries@[j].name@,
            body@.len() == k,
            all_width(body@, width as int),
            forall|j: int| 0 <= j < k ==> seg_views(#[trigger] body@[j].segments@) == delete_item_views(width as int, names[j]),
        decreases visible_items - k,
    {
        let line = build_delete_dialog_item_line(marked_entries[k].name.as_str(), width);
        body.push(line);
        k = k + 1;
    }
    while body.len() < prompt_row
        invariant
            visible_items <= body@.len() <= prompt_row,
            all_width(body@, width as int),
            forall|j: int| 0 <= j < visible_items ==> seg_views(#[trigger] body@[j].segments@) == delete_item_views(width as int, names[j]),
            forall|j: int| visible_items <= j < body@.len() ==> seg_views(#[trigger] body@[j].segments@) == blank_views(width as int),
        decreases prompt_row - body@.len(),
    {
        body.push(blank_line(width, Background::Plain));
    }
    body.push(build_delete_prompt_line(app, width));
    proof {
        assert(line_views(body@) =~= delete_body(width as int, names, body_rows as int, delete_prompt_views(width as int, *app)));
        assert(title@ =~= delete_title(app.marks@.len()));
    }
    dialog_frame(width, "\u{1f5d1}\u{fe0f}", title.as_str(), body, body_rows)
}

/// The line naming the entry being renamed or graduated.
pub open spec fn current_views(w: int, name: Seq<char>) -> Seq<(Seq<char>, SegmentStyleSpec)> {
    spec_compose(
        w,
        seq![("\u{1f4c1}"@, normal_style()), (" "@, normal_style()), (name, normal_style())],
        None,
        Background::Plain,
    )
}

/// A centred line of one text in one style.
pub open spec fn centered_views(w: int, text: Seq<char>, style: SegmentStyleSpec) -> Seq<(Seq<char>, SegmentStyleSpec)> {
    spec_centered(w, seq![(text, style)], Background::Plain)
}

/// The bold style of an error message.
pub open spec fn error_spec() -> SegmentStyleSpec {
    SegmentStyleSpec { bold: true, ..normal_style() }
}

/// The body of the rename dialog: the current name, two blank lines, the
/// prompt, then a blank line and the error when there is one.
pub open spec fn rename_body(w: int, name: Seq<char>, input: Seq<char>, cursor_pos: int, error: Option<Seq<char>>) -> Seq<Seq<(Seq<char>, SegmentStyleSpec)>> {
    seq![
        current_views(w, name),
        blank_views(w),
        blank_views(w),
        spec_centered(w, spec_prompt("New name: "@, input, cursor_pos), Background::Plain),
    ] + match error {
        Some(e) => seq![blank_views(w), centered_views(w, e, error_spec())],
        None => Seq::empty(),
    }
}

/// The rename dialog of `app` at `w` columns and `rows` body rows.
pub open spec fn rename_dialog_ok(lines: Seq<StyledLine>, app: App, w: int, rows: int) -> bool {
    let body = match app.rename_dialog {
        Some(d) => rename_body(w, d.current_name@, d.input@, d.cursor_pos as int, match d.error {
            Some(e) => Some(e@),
            None => None,
        }),
        None => rename_body(w, Seq::empty(), Seq::empty(), 0, None),
    };
    frame_ok(lines, w, "\u{270f}\u{fe0f}"@, "  Rename directory"@, body, rows)
}

/// The rename dialog: the current name, the prompt, and any error.
pub fn build_rename_dialog_lines(app: &App, width: u16, height: u16) -> (r: Vec<StyledLine>)
    ensures
        r@.len() == spec_dialog_body_height(height) + 4,
        all_width(r@, width as int),
        rename_dialog_ok(r@, *app, width as int, spec_dialog_body_height(height)),
{
    let body_rows = dialog_body_height(height);
    let (current_name, input, cursor_pos, error) = match &app.rename_dialog {
        Some(d) => (d.current_name.as_str(), d.input.as_str(), d.cursor_pos, match &d.error {
            Some(e) => Some(e.as_str()),
            None => None,
        }),
        None => ("", "", 0, None),
    };
    proof {
        reveal_strlit("");
        assert(app.rename_dialog is None ==> current_name@ =~= Seq::<char>::empty());
        assert(app.rename_dialog is None ==> input@ =~= Seq::<char>::empty());
    }
    let ghost err = match error {
        Some(e) => Some(e@),
        None => None,
    };
    let mut body: Vec<StyledLine> = Vec::new();
    body.push(build_rename_current_line(current_name, width));
    body.push(blank_line(width, Background::Plain));
    body.push(blank_line(width, Background::Plain));
    body.push(build_rename_prompt_line(input, cursor_pos, width));
    if let Some(e) = error {
        body.push(blank_line(width, Background::Plain));
        body.push(centered_line(width, e, SegmentStyleSpec::normal().bold()));
    }
    proof {
        assert(all_width(body@, width as int));
        assert(line_views(body@) =~= rename_body(width as int, current_name@, input@, cursor_pos as int, err));
    }
    dialog_frame(width, "\u{270f}\u{fe0f}", "  Rename directory", body, body_rows)
}

/// The body of the graduate dialog: the current name, a blank line, where
/// the destination comes from, the prompt, then the symlink note and the
/// error, or a blank line and the note.
pub open spec fn graduate_body(
    w: int,
    name: Seq<char>,
    input: Seq<char>,
    cursor_pos: int,
    error: Option<Seq<char>>,
    hint: Seq<char>,
    root: Seq<char>,
) -> Seq<Seq<(Seq<char>, SegmentStyleSpec)>> {
    let note = centered_views(w, "A symlink will be left in the labs directory"@, muted_spec());
    seq![
        current_views(w, name),
        blank_views(w),
        centered_views(w, "Destination ("@ + hint + ": "@ + root + ")"@, muted_spec()),
        spec_centered(w, spec_prompt("Move to: "@, input, cursor_pos), Background::Plain),
    ] + match error {
        Some(e) => seq![note, centered_views(w, e, error_spec())],
        None => seq![blank_views(w), note],
    }
}

/// The graduate dialog of `app` at `w` columns and `rows` body rows.
pub open spec fn graduate_dialog_ok(lines: Seq<StyledLine>, app: App, w: int, rows: int) -> bool {
    let body = match app.graduate_dialog {
        Some(d) => graduate_body(w, d.current_name@, d.input@, d.cursor_pos as int, match d.error {
            Some(e) => Some(e@),
            None => None,
        }, d.destination_hint@, d.destination_root@),
        None => graduate_body(w, Seq::empty(), Seq::empty(), 0, None, "parent of $LAB_PATH"@, Seq::empty()),
    };
    frame_ok(lines, w, "\u{1f680}"@, "  Graduate lab to project"@, body, rows)
}

/// The graduate dialog: the current name, where the destination comes
/// from, the prompt, the symlink note and any error.
pub fn build_graduate_dialog_lines(app: &App, width: u16, height: u16) -> (r: Vec<StyledLine>)
    ensures
        r@.len() == spec_dialog_body_height(height) + 4,
        all_width(r@, width as int),
        graduate_dialog_ok(r@, *app, width as int, spec_dialog_body_height(height)),
{
    let body_rows = dialog_body_height(height);
    let (current_name, input, cursor_pos, error, destination_hint, destination_root) = match &app.graduate_dialog {
        Some(d) => (
            d.current_name.as_str(),
            d.input.as_str(),
            d.cursor_pos,
            match &d.error {
                Some(e) => Some(e.as_str()),
                None => None,
            },
            d.destination_hint.as_str(),
            d.destination_root.as_str(),
        ),
        None => ("", "", 0, None, "parent of $LAB_PATH", ""),
    };
    proof {
        reveal_strlit("");
        assert(app.graduate_dialog is None ==> current_name@ =~= Seq::<char>::empty());
        assert(app.graduate_dialog is None ==> input@ =~= Seq::<char>::empty());
        assert(app.graduate_dialog is None ==> destination_root@ =~= Seq::<char>::empty());
    }
    let ghost err = match error {
        Some(e) => Some(e@),
        None => None,
    };
    let mut body: Vec<StyledLine> = Vec::new();
    body.push(build_rename_current_line(current_name, width));
    body.push(blank_line(width, Background::Plain));
    body.push(build_graduate_hint_line(destination_hint, destination_root, width));
    body.push(build_graduate_prompt_line(input, cursor_pos, width));
    match error {
        Some(e) => {
            body.push(centered_line(width, "A symlink will be left in the labs directory", SegmentStyleSpec::muted()));
            body.push(centered_line(width, e, SegmentStyleSpec::normal().bold()));
        },
        None => {
            body.push(blank_line(width, Background::Plain));
            body.push(centered_line(width, "A symlink will be left in the labs directory", SegmentStyleSpec::muted()));
        },
    }
    proof {
        assert(all_width(body@, width as int));
        assert(line_views(body@) =~= graduate_body(
            width as int,
            current_name@,
            input@,
            cursor_pos as int,
            err,
            destination_hint@,
            destination_root@,
        ));
    }
    dialog_frame(width, "\u{1f680}", "  Graduate lab to project", body, body_rows)
}

/// `lines` are the screen of `app` at `w` by `h` at time `now`: the open
/// dialog, or the title, a rule, the search line, the result rows, a rule
/// and the footer. Every line is `w` columns wide.
pub open spec fn screen_ok(lines: Seq<StyledLine>, app: App, w: u16, h: u16, now: u64) -> bool {
    let dialog_rows = spec_dialog_body_height(h);
    &&& all_width(lines, w as int)
    &&& match app.mode {
        crate::tui::app::Mode::Rename => rename_dialog_ok(lines, app, w as int, dialog_rows),
        crate::tui::app::Mode::Graduate => graduate_dialog_ok(lines, app, w as int, dialog_rows),
        crate::tui::app::Mode::DeleteConfirm => exists|order: Seq<usize>| #![trigger app.orders_marks(order)]
            {
                &&& app.orders_marks(order)
                &&& frame_ok(
                    lines,
                    w as int,
                    "\u{1f5d1}\u{fe0f}"@,
                    delete_title(app.marks@.len()),
                    delete_body(w as int, names_at(app.entries@, order), dialog_rows, delete_prompt_views(w as int, app)),
                    dialog_rows,
                )
            },
        crate::tui::app::Mode::Normal => {
            let rows = crate::tui::app::spec_visible_limit(h);
            &&& lines.len() == rows + 5
            &&& seg_views(lines[0].segments@) == title_views(w as int, app.labs_path@)
            &&& seg_views(lines[1].segments@) == separator_views(w as int)
            &&& seg_views(lines[2].segments@) == search_views(w as int, app.input@, app.input_cursor_pos as int)
            &&& forall|i: int| 0 <= i < rows ==> body_row_ok(app, w as int, now, i, #[trigger] lines[3 + i])
            &&& seg_views(lines[rows + 3].segments@) == separator_views(w as int)
            &&& seg_views(lines[rows + 4].segments@) == footer_views(w as int, app)
        },
    }
}

/// The lines of the screen: the open dialog, or the title, search line,
/// results and footer.
pub fn build_lines(app: &App, width: u16, height: u16, now_secs: u64) -> (r: Vec<StyledLine>)
    requires
        app.wf(),
    ensures
        screen_ok(r@, *app, width, height, now_secs),
        app.mode == crate::tui::app::Mode::Normal ==> r@.len() == crate::tui::app::spec_visible_limit(height) + 5,
        app.mode != crate::tui::app::Mode::Normal ==> r@.len() == spec_dialog_body_height(height) + 4,
{
    if app.is_renaming() {
        return build_rename_dialog_lines(app, width, height);
    }
    if app.is_graduating() {
        return build_graduate_dialog_lines(app, width, height);
    }
    if app.is_confirming_delete() {
        return build_delete_confirmation_lines(app, width, height);
    }
    let body_rows = body_height(height);
    let mut lines: Vec<StyledLine> = Vec::new();
    lines.push(build_title_line(app, width));
    lines.push(separator_line(width));
    lines.push(build_search_line(app, width));
    let body = build_body_lines(app, width, body_rows, now_secs);
    let mut k: usize = 0;
    let ghost head = lines@;
    while k < body.len()
        invariant
            k <= body@.len(),
            body@.len() == body_rows,
            lines@.len() == 3 + k,
            lines@.take(3) == head,
            all_width(lines@, width as int),
            all_width(body@, width as int),
            forall|i: int| 0 <= i < k ==> seg_views(#[trigger] lines@[3 + i].segments@) == seg_views(body@[i].segments@),
        decreases body@.len() - k,
    {
        let segments = copy_segments(&body[k].segments);
        let ghost prev = lines@;
        lines.push(StyledLine { segments });
        proof {
            assert(lines@.take(3) =~= prev.take(3));
            assert forall|i: int| 0 <= i < k + 1 implies seg_views(#[trigger] lines@[3 + i].segments@) == seg_views(body@[i].segments@) by {
                if i < k {
                    assert(lines@[3 + i] == prev[3 + i]);
                }
            }
        }
        k = k + 1;
    }
    proof {
        assert forall|i: int| 0 <= i < body_rows implies body_row_ok(*app, width as int, now_secs, i, #[trigger] lines@[3 + i]) by {
            assert(body_row_ok(*app, width as int, now_secs, i, body@[i]));
            assert(seg_views(lines@[3 + i].segments@) == seg_views(body@[i].segments@));
        }
        assert(lines@[0] == head[0]);
        assert(lines@[1] == head[1]);
        assert(lines@[2] == head[2]);
    }
    lines.push(separator_line(width));
    lines.push(build_footer_line(app, width));
    lines
}

/// A segment as it is written to a terminal: its text, wrapped in its
/// style's escape sequence and a reset when colours are on and the style
/// is not plain.
pub open spec fn segment_ansi(v: (Seq<char>, SegmentStyleSpec), colors_enabled: bool) -> Seq<char> {
    if !colors_enabled || v.1 == normal_style() {
        v.0
    } else {
        seq!['\u{1b}', '['] + v.1.sgr_codes() + seq!['m'] + v.0 + seq!['\u{1b}', '[', '0', 'm']
    }
}

/// Segments as they are written to a terminal, one after another.
pub open spec fn views_ansi(v: Seq<(Seq<char>, SegmentStyleSpec)>, colors_enabled: bool) -> Seq<char>
    decreases v.len(),
{
    if v.len() == 0 {
        Seq::empty()
    } else {
        views_ansi(v.drop_last(), colors_enabled) + segment_ansi(v.last(), colors_enabled)
    }
}

impl StyledLine {
    /// The line as text with terminal escape sequences.
    pub fn to_ansi_string(&self, colors_enabled: bool) -> (r: String)
        ensures
            r@ == views_ansi(seg_views(self.segments@), colors_enabled),
    {
        let mut rendered = String::new();
        let mut i: usize = 0;
        while i < self.segments.len()
            invariant
                i <= self.segments@.len(),
                rendered@ == views_ansi(seg_views(self.segments@.take(i as int)), colors_enabled),
            decreases self.segments@.len() - i,
        {
            let segment = &self.segments[i];
            if !colors_enabled || segment.style.is_plain() {
                push_str(&mut rendered, segment.text.as_str());
            } else {
                let prefix = segment.style.ansi_prefix(colors_enabled);
                push_str(&mut rendered, prefix.as_str());
                push_str(&mut rendered, segment.text.as_str());
                push_str(&mut rendered, "\u{1b}[0m");
                proof {
                    reveal_strlit("\u{1b}[0m");
                }
            }
            proof {
                let t = self.segments@.take(i + 1);
                assert(t.drop_last() =~= self.segments@.take(i as int));
                assert(t.last() == self.segments@[i as int]);
                lemma_seg_views_len(t);
                assert(seg_views(t).drop_last() =~= seg_views(self.segments@.take(i as int)));
            }
            i = i + 1;
        }
        proof {
            assert(self.segments@.take(i as int) =~= self.segments@);
        }
        rendered
    }
}

/// Texts joined with newlines.
pub open spec fn join_lines(parts: Seq<Seq<char>>) -> Seq<char>
    decreases parts.len(),
{
    if parts.len() == 0 {
        Seq::empty()
    } else if parts.len() == 1 {
        parts[0]
    } else {
        join_lines(parts.drop_last()) + seq!['\n'] + parts.last()
    }
}

/// The terminal text of each line.
pub open spec fn lines_ansi(lines: Seq<StyledLine>, colors_enabled: bool) -> Seq<Seq<char>>
    decreases lines.len(),
{
    if lines.len() == 0 {
        Seq::empty()
    } else {
        lines_ansi(lines.drop_last(), colors_enabled).push(views_ansi(seg_views(lines.last().segments@), colors_enabled))
    }
}

/// A snapshot of lines: nothing for no lines, else the cursor sent home,
/// the screen cleared, then the lines, each ended by a newline.
pub open spec fn snapshot_of(lines: Seq<StyledLine>, colors_enabled: bool) -> Seq<char> {
    if lines.len() == 0 {
        Seq::empty()
    } else {
        seq!['\u{1b}', '[', 'H', '\u{1b}', '[', 'J'] + join_lines(lines_ansi(lines, colors_enabled)) + seq!['\n']
    }
}

proof fn lemma_lines_ansi_len(lines: Seq<StyledLine>, colors_enabled: bool)
    ensures
        lines_ansi(lines, colors_enabled).len() == lines.len(),
    decreases lines.len(),
{
    if lines.len() > 0 {
        lemma_lines_ansi_len(lines.drop_last(), colors_enabled);
    }
}

/// The snapshot text of `lines`.
pub fn snapshot_text(lines: &Vec<StyledLine>, colors_enabled: bool) -> (r: String)
    ensures
        r@ == snapshot_of(lines@, colors_enabled),
{
    if lines.len() == 0 {
        return String::new();
    }
    let mut joined = String::new();
    let mut i: usize = 0;
    while i < lines.len()
        invariant
            i <= lines@.len(),
            joined@ == join_lines(lines_ansi(lines@.take(i as int), colors_enabled)),
        decreases lines@.len() - i,
    {
        if i > 0 {
            push_char(&mut joined, '\n');
        }
        let text = lines[i].to_ansi_string(colors_enabled);
        push_str(&mut joined, text.as_str());
        proof {
            let t = lines@.take(i + 1);
            assert(t.drop_last() =~= lines@.take(i as int));
            assert(t.last() == lines@[i as int]);
            lemma_lines_ansi_len(t, colors_enabled);
            let la = lines_ansi(t, colors_enabled);
            assert(la.drop_last() =~= lines_ansi(lines@.take(i as int), colors_enabled));
            if i == 0 {
                assert(lines_ansi(lines@.take(0), colors_enabled) =~= Seq::<Seq<char>>::empty());
            }
        }
        i = i + 1;
    }
    proof {
        assert(lines@.take(i as int) =~= lines@);
    }
    let mut r = String::new();
    push_str(&mut r, "\u{1b}[H\u{1b}[J");
    push_str(&mut r, joined.as_str());
    push_char(&mut r, '\n');
    proof {
        reveal_strlit("\u{1b}[H\u{1b}[J");
    }
    r
}

/// A snapshot of the screen at `width` by `height`, as the test mode
/// prints it: the lines of `build_lines`, with or without colours.
pub fn render_snapshot_with_colors(app: &App, width: u16, height: u16, colors_enabled: bool, now_secs: u64) -> (r: String)
    requires
        app.wf(),
    ensures
        exists|lines: Seq<StyledLine>|
            screen_ok(lines, *app, width, height, now_secs) && r@ == snapshot_of(lines, colors_enabled),
{
    let lines = build_lines(app, width, height, now_secs);
    snapshot_text(&lines, colors_enabled)
}

/// A snapshot of the screen at the app's terminal size.
pub fn render_snapshot(app: &App, colors_enabled: bool, now_secs: u64) -> (r: String)
    requires
        app.wf(),
    ensures
        exists|lines: Seq<StyledLine>|
            screen_ok(lines, *app, app.terminal_size.width, app.terminal_size.height, now_secs) && r@
                == snapshot_of(lines, colors_enabled),
{
    render_snapshot_with_colors(app, app.terminal_size.width, app.terminal_size.height, colors_enabled, now_secs)
}

} // verus!
