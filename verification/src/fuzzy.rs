//! Which entries a query matches, and where.
//!
//! A query matches a name when its characters occur in the name in order,
//! ignoring case; the match takes, for each query character, its first
//! occurrence after the previous one. Ranking the matches is done by the
//! caller.

use vstd::prelude::*;
use crate::sys::{lowered, to_lowercase};
use crate::text::{chars_of, find_from, lemma_find_from};

verus! {

/// A word character: an ASCII lowercase letter or digit.
pub open spec fn spec_is_word_char(c: char) -> bool {
    ('a' <= c <= 'z') || ('0' <= c <= '9')
}

/// Check if a character is a word character `[a-z0-9]`, used for word
/// boundary detection.
pub fn is_word_char(c: char) -> (r: bool)
    ensures
        r == spec_is_word_char(c),
{
    ('a' <= c && c <= 'z') || ('0' <= c && c <= '9')
}

/// The positions of `query` in `text` from index `from` on, each character
/// taken at its first occurrence after the previous one; `None` when some
/// character has no such occurrence.
pub open spec fn greedy_positions(text: Seq<char>, query: Seq<char>, from: int) -> Option<Seq<int>>
    decreases query.len(),
{
    if query.len() == 0 {
        Some(Seq::empty())
    } else {
        match find_from(text, query[0], from) {
            None => None,
            Some(p) => match greedy_positions(text, query.drop_first(), p + 1) {
                None => None,
                Some(rest) => Some(seq![p] + rest),
            },
        }
    }
}

/// `ps` put in front of the positions `rest`, if there are any.
pub open spec fn prefixed(ps: Seq<int>, rest: Option<Seq<int>>) -> Option<Seq<int>> {
    match rest {
        None => None,
        Some(r) => Some(ps + r),
    }
}

/// The positions of a vector as integers.
pub open spec fn as_ints(v: Seq<usize>) -> Seq<int> {
    v.map_values(|p: usize| p as int)
}

/// Where `query` matches `text`: the greedy positions, or `None` when the
/// characters of `query` do not all occur in order.
pub fn match_positions(text: &[char], query: &[char]) -> (r: Option<Vec<usize>>)
    ensures
        match r {
            Some(v) => greedy_positions(text@, query@, 0) == Some(as_ints(v@)),
            None => greedy_positions(text@, query@, 0) is None,
        },
{
    let mut positions: Vec<usize> = Vec::new();
    let mut pos: usize = 0;
    let mut i: usize = 0;
    proof {
        assert(query@.skip(0) =~= query@);
        assert(as_ints(positions@) =~= Seq::<int>::empty());
        match greedy_positions(text@, query@, 0) {
            None => {},
            Some(r) => {
                assert(Seq::<int>::empty() + r =~= r);
            },
        }
    }
    while i < query.len()
        invariant
            i <= query@.len(),
            pos <= text@.len(),
            greedy_positions(text@, query@, 0) == prefixed(
                as_ints(positions@),
                greedy_positions(text@, query@.skip(i as int), pos as int),
            ),
        decreases query@.len() - i,
    {
        let qc = query[i];
        let ghost rest = query@.skip(i as int);
        proof {
            assert(rest[0] == qc);
            assert(rest.drop_first() =~= query@.skip(i + 1));
            lemma_find_from(text@, qc, pos as int);
        }
        let mut k: usize = pos;
        while k < text.len() && text[k] != qc
            invariant
                pos <= k <= text@.len(),
                find_from(text@, qc, pos as int) == find_from(text@, qc, k as int),
            decreases text@.len() - k,
        {
            k = k + 1;
        }
        if k == text.len() {
            return None;
        }
        positions.push(k);
        proof {
            assert(as_ints(positions@) =~= as_ints(positions@.drop_last()) + seq![k as int]);
            assert(seq![k as int] + seq![] =~= seq![k as int]);
            match greedy_positions(text@, query@.skip(i + 1), k + 1) {
                None => {},
                Some(r) => {
                    assert(as_ints(positions@.drop_last()) + (seq![k as int] + r) =~= as_ints(
                        positions@,
                    ) + r);
                },
            }
        }
        pos = k + 1;
        i = i + 1;
    }
    proof {
        assert(query@.skip(i as int) =~= Seq::<char>::empty());
        assert(as_ints(positions@) + Seq::<int>::empty() =~= as_ints(positions@));
    }
    Some(positions)
}

/// Where `query` matches `name`, ignoring case: the positions index the
/// characters of the lowercased name.
pub fn match_name(name: &str, query_lower: &[char]) -> (r: Option<Vec<usize>>)
    ensures
        match r {
            Some(v) => greedy_positions(lowered(name@), query_lower@, 0) == Some(
                as_ints(v@),
            ),
            None => greedy_positions(lowered(name@), query_lower@, 0) is None,
        },
{
    let lower = to_lowercase(name);
    let text = chars_of(lower.as_str());
    match_positions(text.as_slice(), query_lower)
}

/// The positions of a match spell the query: one per query character, each
/// on that character, strictly increasing, from `from` on.
pub proof fn law_match_positions_spell_query(text: Seq<char>, query: Seq<char>, from: int)
    requires
        0 <= from,
        greedy_positions(text, query, from) is Some,
    ensures
        ({
            let ps = greedy_positions(text, query, from)->0;
            &&& ps.len() == query.len()
            &&& forall|i: int| 0 <= i < ps.len() ==> from <= #[trigger] ps[i] < text.len() && text[ps[i]] == query[i]
            &&& forall|i: int, j: int| 0 <= i < j < ps.len() ==> ps[i] < ps[j]
        }),
    decreases query.len(),
{
    if query.len() > 0 {
        lemma_find_from(text, query[0], from);
        let p = find_from(text, query[0], from)->0;
        law_match_positions_spell_query(text, query.drop_first(), p + 1);
        let rest = greedy_positions(text, query.drop_first(), p + 1)->0;
        let ps = seq![p] + rest;
        assert forall|i: int| 0 <= i < ps.len() implies from <= #[trigger] ps[i] < text.len() && text[ps[i]] == query[i] by {
            if i > 0 {
                assert(ps[i] == rest[i - 1]);
            }
        }
        assert forall|i: int, j: int| 0 <= i < j < ps.len() implies ps[i] < ps[j] by {
            if i > 0 {
                assert(ps[i] == rest[i - 1]);
            }
            assert(ps[j] == rest[j - 1]);
        }
    }
}

} // verus!
