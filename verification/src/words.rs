//! Whitespace-aware name normalisation.

use vstd::prelude::*;
use crate::line_edit::{is_space, is_whitespace_char};
use crate::text::string_of;

verus! {

/// The whitespace-separated, non-empty words of `s`, in order.
pub open spec fn words(s: Seq<char>) -> Seq<Seq<char>>
    decreases s.len(),
{
    if s.len() == 0 {
        Seq::empty()
    } else {
        let w = words(s.drop_last());
        let c = s.last();
        if is_space(c) {
            w
        } else if s.len() >= 2 && !is_space(s[s.len() - 2]) {
            w.update(w.len() - 1, w.last().push(c))
        } else {
            w.push(seq![c])
        }
    }
}

/// The words joined with `-` between them.
pub open spec fn join_dash(ws: Seq<Seq<char>>) -> Seq<char>
    decreases ws.len(),
{
    if ws.len() == 0 {
        Seq::empty()
    } else if ws.len() == 1 {
        ws[0]
    } else {
        join_dash(ws.drop_last()) + seq!['-'] + ws.last()
    }
}

/// `s` with every run of whitespace turned into one `-`.
pub open spec fn collapse_spaces(s: Seq<char>) -> Seq<char>
    decreases s.len(),
{
    if s.len() == 0 {
        Seq::empty()
    } else if is_space(s.last()) {
        if s.len() >= 2 && is_space(s[s.len() - 2]) {
            collapse_spaces(s.drop_last())
        } else {
            collapse_spaces(s.drop_last()).push('-')
        }
    } else {
        collapse_spaces(s.drop_last()).push(s.last())
    }
}

proof fn lemma_words_nonempty(s: Seq<char>)
    requires
        s.len() > 0,
        !is_space(s.last()),
    ensures
        words(s).len() > 0,
    decreases s.len(),
{
    if s.len() >= 2 && !is_space(s[s.len() - 2]) {
        let t = s.drop_last();
        assert(t.last() == s[s.len() - 2]);
        lemma_words_nonempty(t);
    }
}

proof fn lemma_join_extend(ws: Seq<Seq<char>>, c: char)
    requires
        ws.len() > 0,
    ensures
        join_dash(ws.update(ws.len() - 1, ws.last().push(c))) == join_dash(ws).push(c),
{
    let u = ws.update(ws.len() - 1, ws.last().push(c));
    if ws.len() >= 2 {
        assert(u.drop_last() =~= ws.drop_last());
    }
    assert(join_dash(u) =~= join_dash(ws).push(c));
}

proof fn lemma_join_push(ws: Seq<Seq<char>>, c: char)
    requires
        ws.len() > 0,
    ensures
        join_dash(ws.push(seq![c])) == join_dash(ws) + seq!['-', c],
{
    assert(ws.push(seq![c]).drop_last() =~= ws);
    assert(join_dash(ws.push(seq![c])) =~= join_dash(ws) + seq!['-', c]);
}

/// The whitespace-separated words of `text` joined with `-`.
pub fn join_words_with_dash(text: &str) -> (r: String)
    ensures
        r@ == join_dash(words(text@)),
{
    let mut out: Vec<char> = Vec::new();
    let mut in_word = false;
    for c in it: text.chars()
        invariant
            it.seq() == text@,
            out@ == join_dash(words(text@.take(it.index() as int))),
            in_word == (it.index() > 0 && !is_space(text@[it.index() - 1])),
            (out@.len() == 0) == (words(text@.take(it.index() as int)).len() == 0),
    {
        let ghost i = it.index();
        let ghost pre = text@.take(i as int);
        let ghost next = text@.take(i + 1);
        proof {
            assert(next.drop_last() =~= pre);
            assert(next.last() == c);
            if i > 0 {
                assert(next[next.len() - 2] == text@[i - 1]);
            }
        }
        if is_whitespace_char(c) {
            in_word = false;
        } else {
            if in_word {
                proof {
                    lemma_words_nonempty(pre);
                    lemma_join_extend(words(pre), c);
                }
                out.push(c);
            } else {
                if out.len() > 0 {
                    proof {
                        lemma_join_push(words(pre), c);
                    }
                    out.push('-');
                    out.push(c);
                    proof {
                        assert(out@ =~= join_dash(words(pre)) + seq!['-', c]);
                    }
                } else {
                    out.push(c);
                    proof {
                        assert(words(pre) =~= Seq::<Seq<char>>::empty());
                        assert(words(next) =~= seq![seq![c]]);
                        assert(out@ =~= seq![c]);
                    }
                }
            }
            in_word = true;
        }
    }
    proof {
        assert(text@.take(text@.len() as int) =~= text@);
    }
    string_of(&out)
}

/// `text` with every run of whitespace turned into one `-`.
pub fn collapse_whitespace(text: &str) -> (r: String)
    ensures
        r@ == collapse_spaces(text@),
{
    let mut out: Vec<char> = Vec::new();
    let mut previous_was_whitespace = false;
    for c in it: text.chars()
        invariant
            it.seq() == text@,
            out@ == collapse_spaces(text@.take(it.index() as int)),
            previous_was_whitespace == (it.index() > 0 && is_space(text@[it.index() - 1])),
    {
        let ghost i = it.index();
        let ghost next = text@.take(i + 1);
        proof {
            assert(next.drop_last() =~= text@.take(i as int));
            assert(next.last() == c);
            if i > 0 {
                assert(next[next.len() - 2] == text@[i - 1]);
            }
        }
        if is_whitespace_char(c) {
            if !previous_was_whitespace {
                out.push('-');
                previous_was_whitespace = true;
            }
        } else {
            out.push(c);
            previous_was_whitespace = false;
        }
    }
    proof {
        assert(text@.take(text@.len() as int) =~= text@);
    }
    string_of(&out)
}

} // verus!
