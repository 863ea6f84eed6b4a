//! The searching core of the `find` sub-command: the 1-based line number
//! and trimmed text of every line that contains a literal pattern.

use crate::lines::spec_split;
use crate::lines::split_char;
use crate::strings::chars_of;
use crate::strings::contains_seq;
use crate::strings::contains_sub;
use crate::strings::spec_trim;
use crate::strings::string_from_chars;
use crate::strings::trim_chars;
use vstd::prelude::*;

verus! {

/// The lines of a text: the pieces between newline characters.
pub open spec fn spec_lines(s: Seq<char>) -> Seq<Seq<char>> {
    spec_split(s, '\n')
}

/// One reported match: the line's 1-based number and its trimmed text.
#[derive(Debug, PartialEq)]
pub struct MatchLine {
    pub line_number: usize,
    pub text: String,
}

/// The (1-based number, trimmed text) pairs of the lines that contain the
/// pattern, in line order.
pub open spec fn spec_matches(lines: Seq<Seq<char>>, pat: Seq<char>) -> Seq<(int, Seq<char>)>
    decreases lines.len(),
{
    if lines.len() == 0 {
        Seq::<(int, Seq<char>)>::empty()
    } else {
        let prev = spec_matches(lines.drop_last(), pat);
        if contains_seq(lines.last(), pat) {
            prev.push((lines.len() as int, spec_trim(lines.last())))
        } else {
            prev
        }
    }
}

/// How many lines contain the pattern.
pub open spec fn count_matching(lines: Seq<Seq<char>>, pat: Seq<char>) -> nat
    decreases lines.len(),
{
    if lines.len() == 0 {
        0
    } else {
        count_matching(lines.drop_last(), pat) + if contains_seq(lines.last(), pat) {
            1nat
        } else {
            0nat
        }
    }
}

/// The pair view of a reported match.
pub open spec fn match_pair(m: MatchLine) -> (int, Seq<char>) {
    (m.line_number as int, m.text@)
}

/// Reports every line of `content` that contains `pattern`, with its
/// 1-based line number and trimmed text, in order.
pub fn find_matches(content: &str, pattern: &str) -> (r: Vec<MatchLine>)
    requires
        content@.len() < usize::MAX,
    ensures
        r@.map_values(|m: MatchLine| match_pair(m)) == spec_matches(
            spec_lines(content@),
            pattern@,
        ),
{
    let cs = chars_of(content);
    let ps = chars_of(pattern);
    let lines = split_char(&cs, '\n');
    let ghost all = spec_lines(content@);
    proof {
        crate::lines::lemma_split_count(content@, '\n');
        crate::lines::lemma_count_char_le_len(content@, '\n');
        assert(all.take(0) =~= Seq::<Seq<char>>::empty());
    }
    let n = lines.len();
    let mut r: Vec<MatchLine> = Vec::new();
    let mut i: usize = 0;
    proof {
        assert(Seq::<MatchLine>::empty().map_values(|m: MatchLine| match_pair(m))
            =~= Seq::<(int, Seq<char>)>::empty());
    }
    while i < n
        invariant
            i <= n,
            n == lines@.len(),
            n == all.len(),
            n <= usize::MAX,
            lines.deep_view() == all,
            ps@ == pattern@,
            r@.map_values(|m: MatchLine| match_pair(m)) == spec_matches(all.take(i as int), ps@),
        decreases n - i,
    {
        let ghost before = all.take(i as int);
        proof {
            assert(lines@[i as int]@ == lines.deep_view()[i as int]);
        }
        if contains_sub(&lines[i], &ps) {
            let t = trim_chars(&lines[i]);
            let text = string_from_chars(&t);
            r.push(MatchLine { line_number: i + 1, text });
        }
        i = i + 1;
        proof {
            let now = all.take(i as int);
            assert(now.drop_last() =~= before);
            assert(now.last() == all[i - 1]);
            assert(r@.map_values(|m: MatchLine| match_pair(m)) =~= spec_matches(now, ps@));
        }
    }
    proof {
        assert(all.take(n as int) =~= all);
    }
    r
}

/// The `find` report is exact: it has one entry per line containing the
/// pattern; each entry carries a valid 1-based line number whose line does
/// contain the pattern and whose text is that line trimmed; and every
/// containing line is reported.
pub proof fn lemma_find_reports_all(lines: Seq<Seq<char>>, pat: Seq<char>)
    ensures
        spec_matches(lines, pat).len() == count_matching(lines, pat),
        forall|k: int|
            0 <= k < spec_matches(lines, pat).len() ==> {
                let e = #[trigger] spec_matches(lines, pat)[k];
                &&& 1 <= e.0 <= lines.len()
                &&& contains_seq(lines[e.0 - 1], pat)
                &&& e.1 == spec_trim(lines[e.0 - 1])
            },
        forall|i: int|
            0 <= i < lines.len() && contains_seq(#[trigger] lines[i], pat) ==> exists|k: int|
                0 <= k < spec_matches(lines, pat).len() && spec_matches(lines, pat)[k].0 == i
                    + 1,
    decreases lines.len(),
{
    if lines.len() > 0 {
        lemma_find_reports_all(lines.drop_last(), pat);
        let prev = spec_matches(lines.drop_last(), pat);
        let cur = spec_matches(lines, pat);
        assert forall|i: int|
            0 <= i < lines.len() && contains_seq(#[trigger] lines[i], pat) implies exists|k: int|
            0 <= k < cur.len() && cur[k].0 == i + 1 by {
            if i < lines.len() - 1 {
                assert(lines.drop_last()[i] == lines[i]);
                let k = choose|k: int| 0 <= k < prev.len() && prev[k].0 == i + 1;
                assert(cur[k].0 == i + 1);
            } else {
                assert(cur[cur.len() - 1].0 == i + 1);
            }
        }
        assert forall|k: int| 0 <= k < cur.len() implies {
            let e = #[trigger] cur[k];
            &&& 1 <= e.0 <= lines.len()
            &&& contains_seq(lines[e.0 - 1], pat)
            &&& e.1 == spec_trim(lines[e.0 - 1])
        } by {
            if k < prev.len() {
                assert(cur[k] == prev[k]);
                assert(lines.drop_last()[prev[k].0 - 1] == lines[prev[k].0 - 1]);
            }
        }
    }
}

} // verus!
