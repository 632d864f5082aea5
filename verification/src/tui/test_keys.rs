//! Key injection for deterministic runs of the selector.
//!
//! A `--and-keys` payload is a comma-separated list of tokens. A token is a
//! symbolic key name (`UP`, `CTRL-A`, ...), `TYPE=` followed by literal text,
//! or raw terminal input (control bytes, escape sequences, printable text).

use vstd::prelude::*;
use std::collections::VecDeque;
use crate::text::{chars_of, trim_text, trimmed};
use crate::tui::input::{KeyCode, KeyEvent, KeyModifiers};

verus! {

/// A plain key press.
pub open spec fn plain(code: KeyCode) -> KeyEvent {
    KeyEvent { code, modifiers: KeyModifiers { control: false, shift: false } }
}

/// A control chord on `c`.
pub open spec fn ctrl(c: char) -> KeyEvent {
    KeyEvent { code: KeyCode::Char(c), modifiers: KeyModifiers { control: true, shift: false } }
}

/// ASCII letters in upper case; other characters unchanged.
pub open spec fn ascii_upper(s: Seq<char>) -> Seq<char> {
    s.map_values(|c: char| if 'a' <= c && c <= 'z' { (c as int - 32) as char } else { c })
}

/// The key a symbolic name stands for, read case-insensitively.
pub open spec fn symbolic_key(token: Seq<char>) -> Option<KeyEvent> {
    let upper = ascii_upper(trimmed(token));
    if upper == "UP"@ {
        Some(plain(KeyCode::Up))
    } else if upper == "DOWN"@ {
        Some(plain(KeyCode::Down))
    } else if upper == "LEFT"@ {
        Some(plain(KeyCode::Left))
    } else if upper == "RIGHT"@ {
        Some(plain(KeyCode::Right))
    } else if upper == "HOME"@ {
        Some(plain(KeyCode::Home))
    } else if upper == "END"@ {
        Some(plain(KeyCode::End))
    } else if upper == "PAGEUP"@ {
        Some(plain(KeyCode::PageUp))
    } else if upper == "PAGEDOWN"@ {
        Some(plain(KeyCode::PageDown))
    } else if upper == "ENTER"@ || upper == "RETURN"@ || upper == "CR"@ {
        Some(plain(KeyCode::Enter))
    } else if upper == "ESC"@ || upper == "ESCAPE"@ {
        Some(plain(KeyCode::Esc))
    } else if upper == "BACKSPACE"@ || upper == "BS"@ {
        Some(plain(KeyCode::Backspace))
    } else if upper == "TAB"@ {
        Some(plain(KeyCode::Tab))
    } else if upper == "SHIFT-TAB"@ {
        Some(KeyEvent { code: KeyCode::BackTab, modifiers: KeyModifiers { control: false, shift: true } })
    } else if upper == "SPACE"@ {
        Some(plain(KeyCode::Char(' ')))
    } else {
        ctrl_symbolic(upper)
    }
}

/// `CTRL-` and one capital letter: a control chord, `CTRL-H` being backspace.
pub open spec fn ctrl_symbolic(upper: Seq<char>) -> Option<KeyEvent> {
    if upper.len() == 6 && upper.take(5) == "CTRL-"@ && 'A' <= upper[5] && upper[5] <= 'Z' {
        if upper[5] == 'H' {
            Some(plain(KeyCode::Backspace))
        } else {
            Some(ctrl((upper[5] as int + 32) as char))
        }
    } else {
        None
    }
}

/// Whether `c` ends a CSI escape sequence.
pub open spec fn ends_csi(c: char) -> bool {
    c == '~' || ('A' <= c && c <= 'Z') || ('a' <= c && c <= 'z')
}

/// The first index at or after `i` whose character ends a CSI sequence, or
/// the length of `s`.
pub open spec fn csi_end(s: Seq<char>, i: int) -> int
    decreases s.len() - i,
{
    if i >= s.len() || i < 0 {
        s.len() as int
    } else if ends_csi(s[i]) {
        i
    } else {
        csi_end(s, i + 1)
    }
}

/// The key of a `ESC [ ... ~` sequence, by its parameter.
pub open spec fn tilde_key(params: Seq<char>) -> Option<KeyEvent> {
    if params == seq!['1', '~'] || params == seq!['7', '~'] {
        Some(plain(KeyCode::Home))
    } else if params == seq!['4', '~'] || params == seq!['8', '~'] {
        Some(plain(KeyCode::End))
    } else if params == seq!['5', '~'] {
        Some(plain(KeyCode::PageUp))
    } else if params == seq!['6', '~'] {
        Some(plain(KeyCode::PageDown))
    } else {
        None
    }
}

/// The key read from the escape character at `start`, and how many
/// characters it takes.
pub open spec fn escape_at(s: Seq<char>, start: int) -> (Option<KeyEvent>, int) {
    if start + 2 < s.len() && s[start + 1] == '[' && s[start + 2] == 'A' {
        (Some(plain(KeyCode::Up)), 3)
    } else if start + 2 < s.len() && s[start + 1] == '[' && s[start + 2] == 'B' {
        (Some(plain(KeyCode::Down)), 3)
    } else if start + 2 < s.len() && s[start + 1] == '[' && s[start + 2] == 'C' {
        (Some(plain(KeyCode::Right)), 3)
    } else if start + 2 < s.len() && s[start + 1] == '[' && s[start + 2] == 'D' {
        (Some(plain(KeyCode::Left)), 3)
    } else if start + 2 < s.len() && s[start + 1] == '[' && s[start + 2] == 'H' {
        (Some(plain(KeyCode::Home)), 3)
    } else if start + 2 < s.len() && s[start + 1] == '[' && s[start + 2] == 'F' {
        (Some(plain(KeyCode::End)), 3)
    } else if start + 2 < s.len() && s[start + 1] == '[' && s[start + 2] == 'Z' {
        (Some(KeyEvent { code: KeyCode::BackTab, modifiers: KeyModifiers { control: false, shift: true } }), 3)
    } else if start + 2 < s.len() && s[start + 1] == '[' && csi_end(s, start + 2) < s.len() {
        let end = csi_end(s, start + 2);
        (tilde_key(s.subrange(start + 2, end + 1)), end - start + 1)
    } else if start + 2 < s.len() && s[start + 1] == 'O' {
        (if s[start + 2] == 'H' {
            Some(plain(KeyCode::Home))
        } else if s[start + 2] == 'F' {
            Some(plain(KeyCode::End))
        } else {
            None
        }, 3)
    } else {
        (Some(plain(KeyCode::Esc)), 1)
    }
}

/// The keys of raw terminal input from index `i` on. Carriage return,
/// tab, backspace and delete, control bytes, escape sequences and printable
/// ASCII become keys; everything else, non-ASCII text included, is skipped.
pub open spec fn raw_events(s: Seq<char>, i: int) -> Seq<KeyEvent>
    decreases s.len() - i,
{
    if i < 0 || i >= s.len() {
        Seq::empty()
    } else {
        let c = s[i];
        if c == '\r' {
            seq![plain(KeyCode::Enter)] + raw_events(s, i + 1)
        } else if c == '\t' {
            seq![plain(KeyCode::Tab)] + raw_events(s, i + 1)
        } else if c == '\u{8}' || c == '\u{7f}' {
            seq![plain(KeyCode::Backspace)] + raw_events(s, i + 1)
        } else if '\u{1}' <= c && c <= '\u{1a}' {
            seq![ctrl((c as int - 1 + 'a' as int) as char)] + raw_events(s, i + 1)
        } else if c == '\u{1b}' {
            let (event, consumed) = escape_at(s, i);
            if consumed <= 0 {
                Seq::empty()
            } else {
                match event {
                    Some(e) => seq![e] + raw_events(s, i + consumed),
                    None => raw_events(s, i + consumed),
                }
            }
        } else if ' ' <= c && c <= '~' {
            seq![plain(KeyCode::Char(c))] + raw_events(s, i + 1)
        } else {
            raw_events(s, i + 1)
        }
    }
}

/// One plain character key per character of `s`.
pub open spec fn typed_events(s: Seq<char>) -> Seq<KeyEvent>
    decreases s.len(),
{
    if s.len() == 0 {
        Seq::empty()
    } else {
        typed_events(s.drop_last()).push(plain(KeyCode::Char(s.last())))
    }
}

/// The keys of one token.
pub open spec fn token_events(token: Seq<char>) -> Seq<KeyEvent> {
    let t = trimmed(token);
    if token.len() == 0 {
        Seq::empty()
    } else if t.len() > 0 && symbolic_key(t) is Some {
        seq![symbolic_key(t).unwrap()]
    } else if t.len() >= 5 && ascii_upper(t.take(5)) == "TYPE="@ {
        typed_events(t.skip(5))
    } else {
        raw_events(token, 0)
    }
}

/// The comma-separated pieces of `s`.
pub open spec fn split_commas(s: Seq<char>) -> Seq<Seq<char>>
    decreases s.len(),
{
    if s.len() == 0 {
        seq![Seq::empty()]
    } else if s.last() == ',' {
        split_commas(s.drop_last()).push(Seq::empty())
    } else {
        let p = split_commas(s.drop_last());
        p.update(p.len() - 1, p.last().push(s.last()))
    }
}

/// The keys of a sequence of tokens, in order.
pub open spec fn tokens_events(ts: Seq<Seq<char>>) -> Seq<KeyEvent>
    decreases ts.len(),
{
    if ts.len() == 0 {
        Seq::empty()
    } else {
        tokens_events(ts.drop_last()) + token_events(ts.last())
    }
}

/// The keys of a `--and-keys` payload.
pub open spec fn spec_parse_and_keys(keys: Seq<char>) -> Seq<KeyEvent> {
    tokens_events(split_commas(keys))
}

/// The number of UTF-8 bytes of a character.
pub open spec fn utf8_len(c: char) -> nat {
    if (c as int) < 0x80 {
        1
    } else if (c as int) < 0x800 {
        2
    } else if (c as int) < 0x10000 {
        3
    } else {
        4
    }
}

/// The number of UTF-8 bytes of a text.
pub open spec fn byte_len(s: Seq<char>) -> nat
    decreases s.len(),
{
    if s.len() == 0 {
        0
    } else {
        byte_len(s.drop_last()) + utf8_len(s.last())
    }
}

/// A token whose check for the `TYPE=` prefix can look at its first five
/// bytes: it is a symbolic key, or shorter than five bytes, or five bytes
/// end on a character boundary.
pub open spec fn token_prefix_readable(token: Seq<char>) -> bool {
    let t = trimmed(token);
    ||| token.len() == 0
    ||| t.len() == 0
    ||| symbolic_key(t) is Some
    ||| byte_len(t) < 5
    ||| exists|k: int| 0 <= k <= t.len() && byte_len(#[trigger] t.take(k)) == 5
}

/// Every token of `keys` can be read.
pub open spec fn keys_readable(keys: Seq<char>) -> bool {
    forall|k: int| 0 <= k < split_commas(keys).len() ==> token_prefix_readable(
        #[trigger] split_commas(keys)[k],
    )
}

fn plain_key(code: KeyCode) -> (r: KeyEvent)
    ensures
        r == plain(code),
{
    KeyEvent::new(code, KeyModifiers::none())
}

/// A plain character key.
pub fn char_key(ch: char) -> (r: KeyEvent)
    ensures
        r == plain(KeyCode::Char(ch)),
{
    plain_key(KeyCode::Char(ch))
}

fn upper_chars(s: &Vec<char>) -> (r: Vec<char>)
    ensures
        r@ == ascii_upper(s@),
{
    let mut r: Vec<char> = Vec::new();
    let mut i: usize = 0;
    while i < s.len()
        invariant
            i <= s@.len(),
            r@ == ascii_upper(s@.take(i as int)),
        decreases s@.len() - i,
    {
        let c = s[i];
        let u = if 'a' <= c && c <= 'z' {
            ((c as u32) - 32) as u8 as char
        } else {
            c
        };
        proof {
            if 'a' <= c && c <= 'z' {
                assert(u == (c as int - 32) as char);
            }
        }
        r.push(u);
        proof {
            assert(r@ =~= ascii_upper(s@.take(i + 1)));
        }
        i = i + 1;
    }
    proof {
        assert(s@.take(i as int) =~= s@);
    }
    r
}

fn is_word(s: &Vec<char>, w: &str) -> (r: bool)
    ensures
        r == (s@ == w@),
{
    let wv = chars_of(w);
    if wv.len() != s.len() {
        return false;
    }
    let mut i: usize = 0;
    while i < s.len()
        invariant
            i <= s@.len(),
            wv@.len() == s@.len(),
            wv@ == w@,
            forall|k: int| 0 <= k < i ==> s@[k] == wv@[k],
        decreases s@.len() - i,
    {
        if s[i] != wv[i] {
            return false;
        }
        i = i + 1;
    }
    proof {
        assert(s@ =~= w@);
    }
    true
}

fn parse_ctrl_symbolic(upper: &Vec<char>) -> (r: Option<KeyEvent>)
    ensures
        r == ctrl_symbolic(upper@),
{
    if upper.len() != 6 {
        return None;
    }
    let head = crate::text::slice_vec(upper.as_slice(), 0, 5);
    proof {
        assert(head@ =~= upper@.take(5));
    }
    if !is_word(&head, "CTRL-") {
        return None;
    }
    let ch = upper[5];
    if !('A' <= ch && ch <= 'Z') {
        return None;
    }
    if ch == 'H' {
        return Some(plain_key(KeyCode::Backspace));
    }
    let lower = ((ch as u32) + 32) as u8 as char;
    proof {
        assert(lower == (ch as int + 32) as char);
    }
    Some(KeyEvent::new(KeyCode::Char(lower), KeyModifiers::control()))
}

fn parse_symbolic_key(token: &str) -> (r: Option<KeyEvent>)
    ensures
        r == symbolic_key(token@),
{
    let t = trim_text(token);
    let upper = upper_chars(&chars_of(t.as_str()));
    if is_word(&upper, "UP") {
        Some(plain_key(KeyCode::Up))
    } else if is_word(&upper, "DOWN") {
        Some(plain_key(KeyCode::Down))
    } else if is_word(&upper, "LEFT") {
        Some(plain_key(KeyCode::Left))
    } else if is_word(&upper, "RIGHT") {
        Some(plain_key(KeyCode::Right))
    } else if is_word(&upper, "HOME") {
        Some(plain_key(KeyCode::Home))
    } else if is_word(&upper, "END") {
        Some(plain_key(KeyCode::End))
    } else if is_word(&upper, "PAGEUP") {
        Some(plain_key(KeyCode::PageUp))
    } else if is_word(&upper, "PAGEDOWN") {
        Some(plain_key(KeyCode::PageDown))
    } else if is_word(&upper, "ENTER") || is_word(&upper, "RETURN") || is_word(&upper, "CR") {
        Some(plain_key(KeyCode::Enter))
    } else if is_word(&upper, "ESC") || is_word(&upper, "ESCAPE") {
        Some(plain_key(KeyCode::Esc))
    } else if is_word(&upper, "BACKSPACE") || is_word(&upper, "BS") {
        Some(plain_key(KeyCode::Backspace))
    } else if is_word(&upper, "TAB") {
        Some(plain_key(KeyCode::Tab))
    } else if is_word(&upper, "SHIFT-TAB") {
        Some(KeyEvent::new(KeyCode::BackTab, KeyModifiers::shift()))
    } else if is_word(&upper, "SPACE") {
        Some(char_key(' '))
    } else {
        parse_ctrl_symbolic(&upper)
    }
}

fn tilde_sequence_key(params: &Vec<char>) -> (r: Option<KeyEvent>)
    ensures
        r == tilde_key(params@),
{
    if params.len() != 2 || params[1] != '~' {
        proof {
            assert(params@ != seq!['1', '~'] && params@ != seq!['7', '~'] && params@ != seq!['4', '~']
                && params@ != seq!['8', '~'] && params@ != seq!['5', '~'] && params@ != seq!['6', '~'])
                by {
                if params@.len() == 2 {
                    assert(params@[1] != '~');
                }
            }
        }
        return None;
    }
    let p = params[0];
    proof {
        assert(params@ =~= seq![p, '~']);
    }
    if p == '1' || p == '7' {
        Some(plain_key(KeyCode::Home))
    } else if p == '4' || p == '8' {
        Some(plain_key(KeyCode::End))
    } else if p == '5' {
        Some(plain_key(KeyCode::PageUp))
    } else if p == '6' {
        Some(plain_key(KeyCode::PageDown))
    } else {
        proof {
            assert(seq![p, '~'] != seq!['1', '~']) by {
                assert(seq![p, '~'][0] != seq!['1', '~'][0]);
            }
            assert(seq![p, '~'] != seq!['7', '~']) by {
                assert(seq![p, '~'][0] != seq!['7', '~'][0]);
            }
            assert(seq![p, '~'] != seq!['4', '~']) by {
                assert(seq![p, '~'][0] != seq!['4', '~'][0]);
            }
            assert(seq![p, '~'] != seq!['8', '~']) by {
                assert(seq![p, '~'][0] != seq!['8', '~'][0]);
            }
            assert(seq![p, '~'] != seq!['5', '~']) by {
                assert(seq![p, '~'][0] != seq!['5', '~'][0]);
            }
            assert(seq![p, '~'] != seq!['6', '~']) by {
                assert(seq![p, '~'][0] != seq!['6', '~'][0]);
            }
        }
        None
    }
}

/// Reads the escape sequence starting at `start`: the key, if any, and how
/// many characters it takes.
fn parse_escape_sequence(s: &Vec<char>, start: usize) -> (r: (Option<KeyEvent>, usize))
    requires
        start < s@.len(),
    ensures
        r.0 == escape_at(s@, start as int).0,
        r.1 == escape_at(s@, start as int).1,
        r.1 >= 1,
        start + r.1 <= s@.len(),
{
    let room = s.len() - start > 2;
    if room && s[start + 1] == '[' {
        let c = s[start + 2];
        if c == 'A' {
            return (Some(plain_key(KeyCode::Up)), 3);
        } else if c == 'B' {
            return (Some(plain_key(KeyCode::Down)), 3);
        } else if c == 'C' {
            return (Some(plain_key(KeyCode::Right)), 3);
        } else if c == 'D' {
            return (Some(plain_key(KeyCode::Left)), 3);
        } else if c == 'H' {
            return (Some(plain_key(KeyCode::Home)), 3);
        } else if c == 'F' {
            return (Some(plain_key(KeyCode::End)), 3);
        } else if c == 'Z' {
            return (Some(KeyEvent::new(KeyCode::BackTab, KeyModifiers::shift())), 3);
        }
        let mut end = start + 2;
        while end < s.len() && !(s[end] == '~' || ('A' <= s[end] && s[end] <= 'Z') || ('a' <= s[end]
            && s[end] <= 'z'))
            invariant
                start + 2 <= end <= s@.len(),
                csi_end(s@, start + 2) == csi_end(s@, end as int),
            decreases s@.len() - end,
        {
            end = end + 1;
        }
        if end < s.len() {
            let params = crate::text::slice_vec(s.as_slice(), start + 2, end + 1);
            return (tilde_sequence_key(&params), end - start + 1);
        }
    }
    if room && s[start + 1] == 'O' {
        let c = s[start + 2];
        let event = if c == 'H' {
            Some(plain_key(KeyCode::Home))
        } else if c == 'F' {
            Some(plain_key(KeyCode::End))
        } else {
            None
        };
        return (event, 3);
    }
    (Some(plain_key(KeyCode::Esc)), 1)
}

/// The keys of raw terminal input.
fn parse_raw_or_literal(input: &Vec<char>) -> (r: Vec<KeyEvent>)
    ensures
        r@ == raw_events(input@, 0),
{
    let mut events: Vec<KeyEvent> = Vec::new();
    let mut index: usize = 0;
    while index < input.len()
        invariant
            index <= input@.len(),
            events@ + raw_events(input@, index as int) == raw_events(input@, 0),
        decreases input@.len() - index,
    {
        let c = input[index];
        let ghost before = events@;
        let ghost i0 = index as int;
        if c == '\r' {
            events.push(plain_key(KeyCode::Enter));
            index = index + 1;
        } else if c == '\t' {
            events.push(plain_key(KeyCode::Tab));
            index = index + 1;
        } else if c == '\u{8}' || c == '\u{7f}' {
            events.push(plain_key(KeyCode::Backspace));
            index = index + 1;
        } else if '\u{1}' <= c && c <= '\u{1a}' {
            let letter = ((c as u32) - 1 + ('a' as u32)) as u8 as char;
            proof {
                assert(letter == (c as int - 1 + 'a' as int) as char);
            }
            events.push(KeyEvent::new(KeyCode::Char(letter), KeyModifiers::control()));
            index = index + 1;
        } else if c == '\u{1b}' {
            let (event, consumed) = parse_escape_sequence(input, index);
            match event {
                Some(e) => events.push(e),
                None => {},
            }
            index = index + consumed;
        } else if ' ' <= c && c <= '~' {
            events.push(char_key(c));
            index = index + 1;
        } else {
            index = index + 1;
        }
        proof {
            assert(events@ + raw_events(input@, index as int) =~= before + raw_events(input@, i0));
        }
    }
    proof {
        assert(events@ + raw_events(input@, index as int) =~= events@);
    }
    events
}


/// Appends the keys of one token.
fn parse_token(token: &str, events: &mut Vec<KeyEvent>)
    ensures
        final(events)@ == old(events)@ + token_events(token@),
{
    let chars = chars_of(token);
    if chars.len() == 0 {
        proof {
            assert(old(events)@ + token_events(token@) =~= old(events)@);
        }
        return;
    }
    let trimmed_token = trim_text(token);
    let tv = chars_of(trimmed_token.as_str());
    if tv.len() > 0 {
        match parse_symbolic_key(trimmed_token.as_str()) {
            Some(event) => {
                proof {
                    assert(symbolic_key(trimmed(token@)) == symbolic_key(trimmed_token@));
                }
                events.push(event);
                proof {
                    assert(final(events)@ =~= old(events)@ + token_events(token@));
                }
                return;
            },
            None => {},
        }
        if tv.len() >= 5 {
            let head = upper_chars(&crate::text::slice_vec(tv.as_slice(), 0, 5));
            proof {
                assert(ascii_upper(tv@.subrange(0, 5)) == ascii_upper(tv@.take(5)));
            }
            if is_word(&head, "TYPE=") {
                let ghost base = events@;
                let mut k: usize = 5;
                proof {
                    assert(tv@.subrange(5, 5) =~= Seq::<char>::empty());
                    assert(base + Seq::<KeyEvent>::empty() =~= base);
                }
                while k < tv.len()
                    invariant
                        5 <= k <= tv@.len(),
                        events@ == base + typed_events(tv@.subrange(5, k as int)),
                    decreases tv@.len() - k,
                {
                    let ghost prev = events@;
                    events.push(char_key(tv[k]));
                    proof {
                        assert(tv@.subrange(5, k + 1).drop_last() =~= tv@.subrange(5, k as int));
                        assert(events@ =~= base + typed_events(tv@.subrange(5, k + 1)));
                    }
                    k = k + 1;
                }
                proof {
                    assert(tv@.subrange(5, k as int) =~= tv@.skip(5));
                }
                return;
            }
        }
    }
    let raw = parse_raw_or_literal(&chars);
    let mut k: usize = 0;
    let ghost base = events@;
    while k < raw.len()
        invariant
            k <= raw@.len(),
            events@ == base + raw@.take(k as int),
        decreases raw@.len() - k,
    {
        events.push(raw[k]);
        proof {
            assert(events@ =~= base + raw@.take(k + 1));
        }
        k = k + 1;
    }
    proof {
        assert(raw@.take(k as int) =~= raw@);
    }
}

/// Parse a `--and-keys` payload into a sequence of key events.
pub fn parse_and_keys(keys: &str) -> (r: Vec<KeyEvent>)
    requires
        keys_readable(keys@),
    ensures
        r@ == spec_parse_and_keys(keys@),
{
    let v = chars_of(keys);
    let mut events: Vec<KeyEvent> = Vec::new();
    let mut cur: Vec<char> = Vec::new();
    let ghost mut done: Seq<Seq<char>> = Seq::empty();
    let mut i: usize = 0;
    proof {
        assert(keys@.take(0) =~= Seq::<char>::empty());
        assert(done.push(cur@) =~= seq![Seq::<char>::empty()]);
    }
    while i < v.len()
        invariant
            i <= v@.len(),
            v@ == keys@,
            split_commas(keys@.take(i as int)) == done.push(cur@),
            events@ == tokens_events(done),
        decreases v@.len() - i,
    {
        let c = v[i];
        proof {
            assert(keys@.take(i + 1).drop_last() =~= keys@.take(i as int));
            assert(keys@.take(i + 1).last() == c);
        }
        if c == ',' {
            let token = crate::text::string_of(cur.as_slice());
            parse_token(token.as_str(), &mut events);
            proof {
                assert(done.push(cur@).drop_last() =~= done);
                done = done.push(cur@);
            }
            cur = Vec::new();
            proof {
                assert(split_commas(keys@.take(i + 1)) =~= done.push(cur@));
            }
        } else {
            let ghost old_cur = cur@;
            cur.push(c);
            proof {
                assert(split_commas(keys@.take(i + 1)) =~= done.push(cur@));
            }
        }
        i = i + 1;
    }
    let token = crate::text::string_of(cur.as_slice());
    parse_token(token.as_str(), &mut events);
    proof {
        assert(keys@.take(i as int) =~= keys@);
        assert(done.push(cur@).drop_last() =~= done);
    }
    events
}

fn utf8_width(c: char) -> (r: usize)
    ensures
        r == utf8_len(c),
{
    let n = c as u32;
    if n < 0x80 {
        1
    } else if n < 0x800 {
        2
    } else if n < 0x10000 {
        3
    } else {
        4
    }
}

proof fn lemma_byte_len_grows(s: Seq<char>, j: int, k: int)
    requires
        0 <= j <= k <= s.len(),
    ensures
        byte_len(s.take(j)) + (k - j) <= byte_len(s.take(k)),
    decreases k - j,
{
    if j < k {
        lemma_byte_len_grows(s, j, k - 1);
        assert(s.take(k).drop_last() =~= s.take(k - 1));
    }
}

/// Whether one token can be read.
pub fn token_is_readable(token: &str) -> (r: bool)
    ensures
        r == token_prefix_readable(token@),
{
    if chars_of(token).len() == 0 {
        return true;
    }
    let t = trim_text(token);
    let tv = chars_of(t.as_str());
    if tv.len() == 0 {
        return true;
    }
    if parse_symbolic_key(t.as_str()).is_some() {
        proof {
            assert(symbolic_key(trimmed(token@)) == symbolic_key(t@));
        }
        return true;
    }
    proof {
        assert(symbolic_key(trimmed(token@)) == symbolic_key(t@));
    }
    let mut bytes: usize = 0;
    let mut k: usize = 0;
    proof {
        assert(tv@.take(0) =~= Seq::<char>::empty());
    }
    while k < tv.len() && bytes < 5
        invariant
            k <= tv@.len(),
            tv@ == t@,
            bytes == byte_len(tv@.take(k as int)),
            k > 0 ==> byte_len(tv@.take(k - 1)) < 5,
        decreases tv@.len() - k,
    {
        proof {
            assert(tv@.take(k + 1).drop_last() =~= tv@.take(k as int));
        }
        bytes = bytes + utf8_width(tv[k]);
        k = k + 1;
    }
    if bytes == 5 {
        return true;
    }
    if bytes < 5 {
        proof {
            assert(tv@.take(k as int) =~= tv@);
        }
        return true;
    }
    proof {
        assert forall|j: int| 0 <= j <= t@.len() implies byte_len(#[trigger] t@.take(j)) != 5 by {
            if j < k {
                lemma_byte_len_grows(t@, j, k - 1);
            } else {
                lemma_byte_len_grows(t@, k as int, j);
            }
        }
        lemma_byte_len_grows(t@, k as int, t@.len() as int);
        assert(t@.take(t@.len() as int) =~= t@);
    }
    false
}

/// Whether every token of a `--and-keys` payload can be read.
pub fn keys_are_readable(keys: &str) -> (r: bool)
    ensures
        r == keys_readable(keys@),
{
    let v = chars_of(keys);
    let mut ok = true;
    let mut cur: Vec<char> = Vec::new();
    let ghost mut done: Seq<Seq<char>> = Seq::empty();
    let mut i: usize = 0;
    proof {
        assert(keys@.take(0) =~= Seq::<char>::empty());
        assert(done.push(cur@) =~= seq![Seq::<char>::empty()]);
    }
    while i < v.len()
        invariant
            i <= v@.len(),
            v@ == keys@,
            split_commas(keys@.take(i as int)) == done.push(cur@),
            ok == forall|k: int| 0 <= k < done.len() ==> token_prefix_readable(#[trigger] done[k]),
        decreases v@.len() - i,
    {
        let c = v[i];
        proof {
            assert(keys@.take(i + 1).drop_last() =~= keys@.take(i as int));
            assert(keys@.take(i + 1).last() == c);
        }
        if c == ',' {
            let token = crate::text::string_of(cur.as_slice());
            let readable = token_is_readable(token.as_str());
            proof {
                let nd = done.push(cur@);
                assert(forall|k: int| 0 <= k < done.len() ==> nd[k] == done[k]);
                assert(nd[done.len() as int] == cur@);
                done = nd;
            }
            ok = ok && readable;
            cur = Vec::new();
            proof {
                assert(split_commas(keys@.take(i + 1)) =~= done.push(cur@));
            }
        } else {
            cur.push(c);
            proof {
                assert(split_commas(keys@.take(i + 1)) =~= done.push(cur@));
            }
        }
        i = i + 1;
    }
    let token = crate::text::string_of(cur.as_slice());
    let readable = token_is_readable(token.as_str());
    proof {
        assert(keys@.take(i as int) =~= keys@);
        let all = done.push(cur@);
        assert(forall|k: int| 0 <= k < done.len() ==> all[k] == done[k]);
        assert(all[done.len() as int] == cur@);
    }
    ok && readable
}

/// Deterministic key source backed by a queue of injected events.
#[derive(Debug)]
pub struct TestKeySource {
    /// The keys still to come.
    pub events: VecDeque<KeyEvent>,
}

impl TestKeySource {
    /// Create a key source from an optional `--and-keys` payload.
    pub fn new(and_keys: Option<&str>) -> (r: Self)
        requires
            and_keys matches Some(k) ==> keys_readable(k@),
        ensures
            r.events@ == match and_keys {
                Some(k) => spec_parse_and_keys(k@),
                None => Seq::<KeyEvent>::empty(),
            },
    {
        let parsed = match and_keys {
            Some(keys) => parse_and_keys(keys),
            None => Vec::new(),
        };
        let mut events: VecDeque<KeyEvent> = VecDeque::new();
        let mut k: usize = 0;
        while k < parsed.len()
            invariant
                k <= parsed@.len(),
                events@ == parsed@.take(k as int),
            decreases parsed@.len() - k,
        {
            events.push_back(parsed[k]);
            proof {
                assert(events@ =~= parsed@.take(k + 1));
            }
            k = k + 1;
        }
        proof {
            assert(parsed@.take(k as int) =~= parsed@);
        }
        TestKeySource { events }
    }

    /// Return the next queued key, or Escape once the queue is empty.
    pub fn next_key_event(&mut self) -> (r: KeyEvent)
        ensures
            old(self).events@.len() > 0 ==> r == old(self).events@[0] && final(self).events@
                == old(self).events@.drop_first(),
            old(self).events@.len() == 0 ==> r == plain(KeyCode::Esc) && final(self).events@
                == old(self).events@,
    {
        match self.events.pop_front() {
            Some(event) => event,
            None => plain_key(KeyCode::Esc),
        }
    }
}

} // verus!
