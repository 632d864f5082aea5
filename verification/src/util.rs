//! Shell quoting and lab names: quoting paths for scripts, dated names, and
//! names made unique within the labs directory.

use vstd::prelude::*;
use crate::entries::spec_has_date_prefix;
use crate::text::{
    all_digits, chars_of, decimal, decimal_value, is_digit, lemma_decimal_grows,
    owned, push_char, push_decimal, push_str, slice_vec, string_of,
};

verus! {

/// The quoted form of one character inside a single-quoted shell word.
pub open spec fn quote_char(c: char) -> Seq<char> {
    if c == '\'' {
        seq!['\'', '"', '\'', '"', '\'']
    } else {
        seq![c]
    }
}

/// The body of a single-quoted shell word: each `'` becomes `'"'"'`.
pub open spec fn quote_body(s: Seq<char>) -> Seq<char>
    decreases s.len(),
{
    if s.len() == 0 {
        Seq::empty()
    } else {
        quote_body(s.drop_last()) + quote_char(s.last())
    }
}

/// `path` wrapped in single quotes with its own single quotes escaped.
pub open spec fn quoted(s: Seq<char>) -> Seq<char> {
    seq!['\''] + quote_body(s) + seq!['\'']
}

/// Quote a path for safe use in shell scripts. A POSIX shell reads the
/// result back as `path` itself, with no expansion
/// (`law_quoted_path_reads_back`).
pub fn quote_path(path: &str) -> (result: String)
    ensures
        result@ == quoted(path@),
{
    let mut result = String::new();
    push_char(&mut result, '\'');
    for ch in it: path.chars()
        invariant
            it.seq() == path@,
            result@ == seq!['\''] + quote_body(path@.take(it.index() as int)),
    {
        proof {
            assert(path@.take(it.index() + 1).drop_last() =~= path@.take(it.index() as int));
        }
        if ch == '\'' {
            push_char(&mut result, '\'');
            push_char(&mut result, '"');
            push_char(&mut result, '\'');
            push_char(&mut result, '"');
            push_char(&mut result, '\'');
        } else {
            push_char(&mut result, ch);
        }
        proof {
            assert(result@ =~= seq!['\''] + quote_body(path@.take(it.index() + 1)));
        }
    }
    proof {
        assert(path@.take(path@.len() as int) =~= path@);
    }
    push_char(&mut result, '\'');
    result
}


/// `t` with `s` in front, when there is a `t`.
pub open spec fn prefixed_by(s: Seq<char>, o: Option<Seq<char>>) -> Option<Seq<char>> {
    match o {
        Some(t) => Some(s + t),
        None => None,
    }
}

/// What a POSIX shell reads from `s` as one word made only of quoted
/// parts, starting outside quotes (`state` 0), inside single quotes (1) or
/// inside double quotes (2). `None` when `s` is not such a word: an
/// unquoted character, an unclosed quote, or an expansion or escape
/// inside double quotes.
pub open spec fn shell_word(s: Seq<char>, state: int) -> Option<Seq<char>>
    decreases s.len(),
{
    if s.len() == 0 {
        if state == 0 {
            Some(Seq::empty())
        } else {
            None
        }
    } else {
        let c = s[0];
        let rest = s.subrange(1, s.len() as int);
        if state == 1 {
            if c == '\'' {
                shell_word(rest, 0)
            } else {
                prefixed_by(seq![c], shell_word(rest, 1))
            }
        } else if state == 2 {
            if c == '"' {
                shell_word(rest, 0)
            } else if c == '\\' || c == '$' || c == '`' {
                None
            } else {
                prefixed_by(seq![c], shell_word(rest, 2))
            }
        } else {
            if c == '\'' {
                shell_word(rest, 1)
            } else if c == '"' {
                shell_word(rest, 2)
            } else {
                None
            }
        }
    }
}

proof fn lemma_quote_char_read(c: char, tail: Seq<char>)
    ensures
        shell_word(quote_char(c) + tail, 1) == prefixed_by(seq![c], shell_word(tail, 1)),
{
    let x = quote_char(c) + tail;
    if c == '\'' {
        let x1 = x.subrange(1, x.len() as int);
        let x2 = x1.subrange(1, x1.len() as int);
        let x3 = x2.subrange(1, x2.len() as int);
        let x4 = x3.subrange(1, x3.len() as int);
        let x5 = x4.subrange(1, x4.len() as int);
        assert(x1 =~= seq!['"', '\'', '"', '\''] + tail);
        assert(x2 =~= seq!['\'', '"', '\''] + tail);
        assert(x3 =~= seq!['"', '\''] + tail);
        assert(x4 =~= seq!['\''] + tail);
        assert(x5 =~= tail);
        assert(shell_word(x4, 0) == shell_word(x5, 1));
        assert(shell_word(x3, 2) == shell_word(x4, 0));
        assert(shell_word(x2, 2) == prefixed_by(seq!['\''], shell_word(x3, 2)));
        assert(shell_word(x1, 0) == shell_word(x2, 2));
        assert(shell_word(x, 1) == shell_word(x1, 0));
    } else {
        assert(x.subrange(1, x.len() as int) =~= tail);
    }
}

proof fn lemma_quote_body_read(s: Seq<char>, tail: Seq<char>)
    ensures
        shell_word(quote_body(s) + tail, 1) == prefixed_by(s, shell_word(tail, 1)),
    decreases s.len(),
{
    if s.len() == 0 {
        assert(quote_body(s) + tail =~= tail);
        match shell_word(tail, 1) {
            Some(t) => assert(s + t =~= t),
            None => {},
        }
    } else {
        let init = s.drop_last();
        let c = s.last();
        let tail2 = quote_char(c) + tail;
        lemma_quote_body_read(init, tail2);
        assert(quote_body(s) + tail =~= quote_body(init) + tail2);
        lemma_quote_char_read(c, tail);
        match shell_word(tail, 1) {
            Some(t) => assert(init + (seq![c] + t) =~= s + t),
            None => {},
        }
    }
}

/// A quoted path reads back, in a POSIX shell, as the path itself.
pub proof fn law_quoted_path_reads_back(path: Seq<char>)
    ensures
        shell_word(quoted(path), 0) == Some(path),
{
    let q = quoted(path);
    let body_and_close = quote_body(path) + seq!['\''];
    assert(q.subrange(1, q.len() as int) =~= body_and_close);
    lemma_quote_body_read(path, seq!['\'']);
    let close = seq!['\''];
    assert(close.subrange(1, 1) =~= Seq::<char>::empty());
    assert(shell_word(Seq::<char>::empty(), 0) == Some(Seq::<char>::empty()));
    assert(shell_word(close, 1) == Some(Seq::<char>::empty()));
    assert(path + Seq::<char>::empty() =~= path);
}

/// Where the trailing ASCII digits of `s` begin (`s.len()` when there are none).
pub open spec fn digits_start(s: Seq<char>) -> int
    decreases s.len(),
{
    if s.len() > 0 && is_digit(s.last()) {
        digits_start(s.drop_last())
    } else {
        s.len() as int
    }
}

/// The number the trailing digits of `s` spell, or 0 when it does not fit
/// in a `u64`.
pub open spec fn trailing_number(s: Seq<char>) -> int {
    let d = s.skip(digits_start(s));
    if decimal_value(d) <= u64::MAX {
        decimal_value(d)
    } else {
        0
    }
}

/// `date-name`.
pub open spec fn dated(date: Seq<char>, name: Seq<char>) -> Seq<char> {
    date + seq!['-'] + name
}

/// Whether the lab `date-name` is among the names `existing`.
pub open spec fn taken(existing: Seq<Seq<char>>, date: Seq<char>, name: Seq<char>) -> bool {
    existing.contains(dated(date, name))
}

/// The name tried for `base` with the number `k`: the stem of `base`
/// followed by `k` when `base` ends in digits, else `base-k`.
pub open spec fn numbered(base: Seq<char>, k: int) -> Seq<char> {
    if digits_start(base) < base.len() {
        base.take(digits_start(base)) + decimal(k as nat)
    } else {
        base + seq!['-'] + decimal(k as nat)
    }
}

/// The first number tried for `base`: one past its trailing number (0 past
/// `u64::MAX`), or 2 when it has no trailing digits.
pub open spec fn first_number(base: Seq<char>) -> int {
    if digits_start(base) < base.len() {
        if trailing_number(base) == u64::MAX {
            0
        } else {
            trailing_number(base) + 1
        }
    } else {
        2
    }
}

/// The first number from `k` on whose name is free, stopping at `u64::MAX`.
pub open spec fn first_free_from(existing: Seq<Seq<char>>, date: Seq<char>, base: Seq<char>, k: int) -> int
    decreases u64::MAX - k,
{
    if k >= u64::MAX || !taken(existing, date, numbered(base, k)) {
        k
    } else {
        first_free_from(existing, date, base, k + 1)
    }
}

/// The name given to `base` when the labs `existing` are there: `base`
/// itself when `date-base` is free, else the first free numbered name.
pub open spec fn spec_unique_name(existing: Seq<Seq<char>>, date: Seq<char>, base: Seq<char>) -> Seq<char> {
    if !taken(existing, date, base) {
        base
    } else {
        numbered(base, first_free_from(existing, date, base, first_number(base)))
    }
}

proof fn lemma_first_free_from(existing: Seq<Seq<char>>, date: Seq<char>, base: Seq<char>, k: int)
    requires
        k <= u64::MAX,
    ensures
        k <= first_free_from(existing, date, base, k) <= u64::MAX,
        forall|j: int| k <= j < first_free_from(existing, date, base, k) ==> taken(existing, date, #[trigger] numbered(base, j)),
        first_free_from(existing, date, base, k) < u64::MAX ==> !taken(
            existing,
            date,
            numbered(base, first_free_from(existing, date, base, k)),
        ),
    decreases u64::MAX - k,
{
    if k < u64::MAX && taken(existing, date, numbered(base, k)) {
        lemma_first_free_from(existing, date, base, k + 1);
    }
}

/// A name made unique among the existing labs is free, and every name
/// tried before it is taken: when `date-base` is taken, the result is the
/// first numbered name from `first_number(base)` on that is free, the
/// search stopping only at the number `u64::MAX`.
pub proof fn law_unique_name_is_first_free(existing: Seq<Seq<char>>, date: Seq<char>, base: Seq<char>)
    ensures
        !taken(existing, date, base) ==> spec_unique_name(existing, date, base) == base,
        taken(existing, date, base) ==> {
            let n = first_free_from(existing, date, base, first_number(base));
            &&& spec_unique_name(existing, date, base) == numbered(base, n)
            &&& first_number(base) <= n <= u64::MAX
            &&& forall|j: int| first_number(base) <= j < n ==> taken(existing, date, #[trigger] numbered(base, j))
            &&& (n < u64::MAX ==> !taken(existing, date, spec_unique_name(existing, date, base)))
        },
{
    lemma_first_free_from(existing, date, base, first_number(base));
}

proof fn lemma_digits_start(s: Seq<char>)
    ensures
        0 <= digits_start(s) <= s.len(),
        forall|i: int| digits_start(s) <= i < s.len() ==> is_digit(#[trigger] s[i]),
        digits_start(s) > 0 ==> !is_digit(s[digits_start(s) - 1]),
    decreases s.len(),
{
    if s.len() > 0 && is_digit(s.last()) {
        lemma_digits_start(s.drop_last());
        assert forall|i: int| digits_start(s) <= i < s.len() implies is_digit(#[trigger] s[i]) by {
            if i < s.len() - 1 {
                assert(s.drop_last()[i] == s[i]);
            }
        }
    }
}

fn with_number(stem: &str, n: u64) -> (r: String)
    ensures
        r@ == stem@ + decimal(n as nat),
{
    let mut r = owned(stem);
    push_decimal(&mut r, n);
    r
}

fn with_dash_number(base: &str, n: u64) -> (r: String)
    ensures
        r@ == base@ + seq!['-'] + decimal(n as nat),
{
    let mut r = owned(base);
    push_char(&mut r, '-');
    push_decimal(&mut r, n);
    r
}

/// Whether the lab `date-name` is among `existing`.
fn is_taken(existing: &Vec<String>, date: &str, name: &str) -> (r: bool)
    ensures
        r == taken(existing.deep_view(), date@, name@),
{
    let full = dated_name(date, name);
    let mut i: usize = 0;
    while i < existing.len()
        invariant
            i <= existing@.len(),
            full@ == dated(date@, name@),
            forall|j: int| 0 <= j < i ==> existing.deep_view()[j] != full@,
        decreases existing@.len() - i,
    {
        if existing[i] == full {
            proof {
                assert(existing.deep_view()[i as int] == full@);
            }
            return true;
        }
        i = i + 1;
    }
    false
}

/// Resolve a unique lab name among the names `existing` in the labs
/// directory by handling collisions.
///
/// When `date_prefix-base` is already there: a `base` that ends in digits
/// gets its number increased until the name is free (`feature1` →
/// `feature2`, ...); any other `base` gets `-2`, `-3`, ... appended.
/// Returns the base name, without the date prefix. Numbering past
/// `u64::MAX` wraps to 0; should every number up to `u64::MAX` be taken,
/// the last candidate is returned.
pub fn resolve_unique_name(existing: &Vec<String>, date_prefix: &str, base: &str) -> (r: String)
    ensures
        r@ == spec_unique_name(existing.deep_view(), date_prefix@, base@),
{
    let ghost ex = existing.deep_view();
    if !is_taken(existing, date_prefix, base) {
        return owned(base);
    }
    let v = chars_of(base);
    let mut start: usize = v.len();
    proof {
        assert(base@.take(base@.len() as int) =~= base@);
    }
    while start > 0 && '0' <= v[start - 1] && v[start - 1] <= '9'
        invariant
            start <= v@.len(),
            v@ == base@,
            digits_start(base@) == digits_start(base@.take(start as int)),
        decreases start,
    {
        proof {
            assert(base@.take(start as int).drop_last() =~= base@.take(start - 1));
        }
        start = start - 1;
    }
    proof {
        lemma_digits_start(base@);
        if start > 0 {
            assert(base@.take(start as int).last() == base@[start - 1]);
        } else {
            assert(base@.take(0) =~= Seq::<char>::empty());
        }
    }
    if start < v.len() {
        let stem = string_of(slice_vec(v.as_slice(), 0, start).as_slice());
        proof {
            assert(stem@ =~= base@.take(start as int));
        }
        let ghost d = base@.skip(start as int);
        let mut num: u64 = 0;
        let mut overflow = false;
        let mut i: usize = start;
        while i < v.len()
            invariant
                start <= i <= v@.len(),
                v@ == base@,
                start == digits_start(base@),
                d == base@.skip(start as int),
                all_digits(d),
                !overflow ==> num == decimal_value(d.take(i - start)),
                overflow ==> decimal_value(d) > u64::MAX,
            decreases v@.len() - i,
        {
            if !overflow {
                proof {
                    assert(d[i - start] == v@[i as int]);
                    assert(is_digit(d[i - start]));
                }
                let digit = (v[i] as u32 - '0' as u32) as u64;
                proof {
                    assert(d.take(i - start + 1).drop_last() =~= d.take(i - start));
                    assert(d.take(i - start + 1).last() == v@[i as int]);
                }
                if num > 1844674407370955161 || (num == 1844674407370955161 && digit > 5) {
                    overflow = true;
                    proof {
                        lemma_decimal_grows(d, i - start + 1);
                    }
                } else {
                    num = num * 10 + digit;
                }
            }
            i = i + 1;
        }
        proof {
            assert(d.take(i - start) =~= d);
        }
        let mut candidate: u64 = if overflow {
            1
        } else if num == u64::MAX {
            0
        } else {
            num + 1
        };
        proof {
            assert(candidate == first_number(base@));
        }
        loop
            invariant
                stem@ == base@.take(digits_start(base@)),
                digits_start(base@) < base@.len(),
                ex == existing.deep_view(),
                taken(ex, date_prefix@, base@),
                first_free_from(ex, date_prefix@, base@, first_number(base@))
                    == first_free_from(ex, date_prefix@, base@, candidate as int),
            decreases u64::MAX - candidate,
        {
            let name = with_number(stem.as_str(), candidate);
            proof {
                assert(name@ == numbered(base@, candidate as int));
            }
            if candidate == u64::MAX || !is_taken(existing, date_prefix, name.as_str()) {
                return name;
            }
            candidate = candidate + 1;
        }
    } else {
        let mut k: u64 = 2;
        loop
            invariant
                digits_start(base@) == base@.len(),
                ex == existing.deep_view(),
                taken(ex, date_prefix@, base@),
                first_free_from(ex, date_prefix@, base@, first_number(base@))
                    == first_free_from(ex, date_prefix@, base@, k as int),
            decreases u64::MAX - k,
        {
            let name = with_dash_number(base, k);
            proof {
                assert(name@ == numbered(base@, k as int));
            }
            if k == u64::MAX || !is_taken(existing, date_prefix, name.as_str()) {
                return name;
            }
            k = k + 1;
        }
    }
}

/// `date-name`.
pub fn dated_name(date: &str, name: &str) -> (r: String)
    ensures
        r@ == dated(date@, name@),
{
    let mut r = owned(date);
    push_char(&mut r, '-');
    push_str(&mut r, name);
    r
}

/// Whether `date` has the `YYYY-MM-DD` shape.
pub open spec fn date_shaped(date: Seq<char>) -> bool {
    &&& date.len() == 10
    &&& forall|i: int| 0 <= i < 10 && i != 4 && i != 7 ==> is_digit(#[trigger] date[i])
    &&& date[4] == '-'
    &&& date[7] == '-'
}

/// A name made from a `YYYY-MM-DD` date and any name carries a date
/// prefix, so the selector and the naming rules agree on dated labs.
pub proof fn law_dated_name_has_date_prefix(date: Seq<char>, name: Seq<char>)
    requires
        date_shaped(date),
    ensures
        spec_has_date_prefix(dated(date, name)),
{
    let d = dated(date, name);
    assert forall|i: int| 0 <= i < 10 implies d[i] == date[i] by {}
    assert(d[10] == '-');
    assert(is_digit(date[0]) && is_digit(date[1]) && is_digit(date[2]) && is_digit(date[3]));
    assert(is_digit(date[5]) && is_digit(date[6]) && is_digit(date[8]) && is_digit(date[9]));
}

} // verus!
