//! Splitting text into lines and counting.
//!
//! Text is modelled as a `Seq<char>`; a line is a maximal run between
//! separators. Splitting on a separator always yields one more piece than
//! there are separators, which is the line-counting rule the command-line
//! tool reports.

use crate::chars::is_space_char;
use crate::chars::is_whitespace_char;
use vstd::prelude::*;

verus! {

/// How often a character occurs in a string.
pub open spec fn count_char(s: Seq<char>, c: char) -> nat
    decreases s.len(),
{
    if s.len() == 0 {
        0
    } else {
        count_char(s.drop_last(), c) + if s.last() == c {
            1nat
        } else {
            0nat
        }
    }
}

/// The pieces of `s` between occurrences of `sep`. An empty string has one
/// (empty) piece; a trailing separator contributes a final empty piece.
pub open spec fn spec_split(s: Seq<char>, sep: char) -> Seq<Seq<char>>
    decreases s.len(),
{
    if s.len() == 0 {
        seq![Seq::<char>::empty()]
    } else if s.last() == sep {
        spec_split(s.drop_last(), sep).push(Seq::<char>::empty())
    } else {
        let prev = spec_split(s.drop_last(), sep);
        prev.update(prev.len() - 1, prev.last().push(s.last()))
    }
}

/// The number of words in `s`: maximal runs of non-whitespace characters.
/// Each run is counted at its first character.
pub open spec fn spec_word_count(s: Seq<char>) -> nat
    decreases s.len(),
{
    if s.len() == 0 {
        0
    } else {
        spec_word_count(s.drop_last()) + if !is_space_char(s.last()) && (s.len() == 1
            || is_space_char(s[s.len() - 2])) {
            1nat
        } else {
            0nat
        }
    }
}

/// A character cannot occur more often than the string is long.
pub proof fn lemma_count_char_le_len(s: Seq<char>, c: char)
    ensures
        count_char(s, c) <= s.len(),
    decreases s.len(),
{
    if s.len() > 0 {
        lemma_count_char_le_len(s.drop_last(), c);
    }
}

/// Splitting never yields an empty list of pieces.
pub proof fn lemma_split_len_pos(s: Seq<char>, sep: char)
    ensures
        spec_split(s, sep).len() >= 1,
    decreases s.len(),
{
    if s.len() > 0 {
        lemma_split_len_pos(s.drop_last(), sep);
    }
}

/// Splitting on a separator yields exactly one piece more than the number
/// of occurrences of the separator.
pub proof fn lemma_split_count(s: Seq<char>, sep: char)
    ensures
        spec_split(s, sep).len() == count_char(s, sep) + 1,
    decreases s.len(),
{
    if s.len() > 0 {
        lemma_split_count(s.drop_last(), sep);
        lemma_split_len_pos(s.drop_last(), sep);
    }
}

/// Splits a character vector on a separator character.
pub fn split_char(v: &Vec<char>, sep: char) -> (r: Vec<Vec<char>>)
    ensures
        r.deep_view() == spec_split(v@, sep),
{
    let n = v.len();
    let mut r: Vec<Vec<char>> = Vec::new();
    let mut cur: Vec<char> = Vec::new();
    let mut i: usize = 0;
    proof {
        assert(v@.take(0) =~= Seq::<char>::empty());
        assert(r.deep_view().push(cur@) =~~= spec_split(v@.take(0), sep));
    }
    while i < n
        invariant
            i <= n,
            n == v@.len(),
            r.deep_view().push(cur@) == spec_split(v@.take(i as int), sep),
        decreases n - i,
    {
        let ghost prefix = v@.take(i as int);
        let c = v[i];
        if c == sep {
            r.push(cur);
            cur = Vec::new();
        } else {
            cur.push(c);
        }
        i = i + 1;
        proof {
            let now = v@.take(i as int);
            assert(now.drop_last() =~= prefix);
            assert(now.last() == v@[i - 1]);
            if v@[i - 1] == sep {
                assert(r.deep_view().push(cur@) =~~= spec_split(now, sep));
            } else {
                let prev = spec_split(prefix, sep);
                lemma_split_len_pos(prefix, sep);
                assert(r.deep_view().push(cur@) =~~= prev.update(
                    prev.len() - 1,
                    prev.last().push(v@[i - 1]),
                ));
            }
        }
    }
    r.push(cur);
    proof {
        assert(v@.take(n as int) =~= v@);
        assert(r.deep_view() =~~= spec_split(v@, sep));
    }
    r
}

/// Counts the occurrences of a character.
pub fn count_char_occurrences(v: &Vec<char>, c: char) -> (r: usize)
    ensures
        r == count_char(v@, c),
{
    let n = v.len();
    let mut r: usize = 0;
    let mut i: usize = 0;
    proof {
        assert(v@.take(0) =~= Seq::<char>::empty());
    }
    while i < n
        invariant
            i <= n,
            n == v@.len(),
            r <= i,
            r == count_char(v@.take(i as int), c),
        decreases n - i,
    {
        let ghost prefix = v@.take(i as int);
        if v[i] == c {
            r = r + 1;
        }
        i = i + 1;
        proof {
            let now = v@.take(i as int);
            assert(now.drop_last() =~= prefix);
            assert(now.last() == v@[i - 1]);
        }
    }
    proof {
        assert(v@.take(n as int) =~= v@);
    }
    r
}

/// Counts the words of a character vector: maximal runs of non-whitespace.
pub fn count_words_chars(v: &Vec<char>) -> (r: usize)
    ensures
        r == spec_word_count(v@),
{
    let n = v.len();
    let mut r: usize = 0;
    let mut prev_space = true;
    let mut i: usize = 0;
    proof {
        assert(v@.take(0) =~= Seq::<char>::empty());
    }
    while i < n
        invariant
            i <= n,
            n == v@.len(),
            r <= i,
            r == spec_word_count(v@.take(i as int)),
            prev_space == (i == 0 || is_space_char(v@[i - 1])),
        decreases n - i,
    {
        let ghost prefix = v@.take(i as int);
        let space = is_whitespace_char(v[i]);
        if !space && prev_space {
            r = r + 1;
        }
        prev_space = space;
        i = i + 1;
        proof {
            let now = v@.take(i as int);
            assert(now.drop_last() =~= prefix);
            assert(now.last() == v@[i - 1]);
            if now.len() > 1 {
                assert(now[now.len() - 2] == v@[i - 2]);
            }
        }
    }
    proof {
        assert(v@.take(n as int) =~= v@);
    }
    r
}

} // verus!
