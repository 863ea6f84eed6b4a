//! Verified text utilities: first words, word counts, palindromes,
//! slicing, reversing, case cleaning, and picking the longer of strings.

use crate::chars::is_space_char;
use crate::chars::is_whitespace_char;
use crate::chars::lower_of;
use crate::chars::to_lowercase_str;
use crate::lines::count_words_chars;
use crate::lines::spec_split;
use crate::lines::spec_word_count;
use crate::lines::split_char;
use crate::strings::chars_of;
use crate::strings::spec_trim;
use crate::strings::string_from_chars;
use crate::strings::trim_chars;
use vstd::prelude::*;
use vstd::string::StrSliceExecFns;
use vstd::string::StringExecFns;

verus! {

/// The position of the first space in `s`, or its length if there is
/// none.
pub open spec fn first_space(s: Seq<char>) -> int
    decreases s.len(),
{
    if s.len() == 0 {
        0
    } else if s.first() == ' ' {
        0
    } else {
        1 + first_space(s.drop_first())
    }
}

/// `first_space` points at a space (or the end), and nothing before it is
/// a space.
pub proof fn lemma_first_space_bounds(s: Seq<char>)
    ensures
        0 <= first_space(s) <= s.len(),
        first_space(s) < s.len() ==> s[first_space(s)] == ' ',
        forall|j: int| 0 <= j < first_space(s) ==> s[j] != ' ',
    decreases s.len(),
{
    if s.len() > 0 && s.first() != ' ' {
        lemma_first_space_bounds(s.drop_first());
        assert forall|j: int| 0 <= j < first_space(s) implies s[j] != ' ' by {
            if j > 0 {
                assert(s.drop_first()[j - 1] != ' ');
            }
        }
    }
}

/// The part of a string before its first space; the whole string when it
/// has no space.
pub fn first_word(s: &str) -> (r: &str)
    ensures
        r@ == s@.subrange(0, first_space(s@)),
{
    let n = s.unicode_len();
    let mut i: usize = 0;
    proof {
        lemma_first_space_bounds(s@);
    }
    while i < n
        invariant
            i <= n,
            n == s@.len(),
            forall|j: int| 0 <= j < i ==> s@[j] != ' ',
        decreases n - i,
    {
        if s.get_char(i) == ' ' {
            proof {
                lemma_first_space_agrees(s@, i as int);
            }
            return s.substring_char(0, i);
        }
        i = i + 1;
    }
    proof {
        lemma_first_space_agrees(s@, n as int);
        assert(s@.subrange(0, n as int) =~= s@);
    }
    s.substring_char(0, n)
}

/// If nothing before position `i` is a space, and `i` is a space or the
/// end, then `i` is the first space position.
proof fn lemma_first_space_agrees(s: Seq<char>, i: int)
    requires
        0 <= i <= s.len(),
        forall|j: int| 0 <= j < i ==> s[j] != ' ',
        i < s.len() ==> s[i] == ' ',
    ensures
        first_space(s) == i,
    decreases s.len(),
{
    if s.len() > 0 && s.first() != ' ' {
        lemma_first_space_agrees(s.drop_first(), i - 1);
    }
}

/// Same as [`first_word`], scanning a slice.
pub fn first_word_slice(s: &str) -> (r: &str)
    ensures
        r@ == s@.subrange(0, first_space(s@)),
{
    first_word(s)
}

/// Same as [`first_word`]; a second name for the same scan.
pub fn first_word_elided(s: &str) -> (r: &str)
    ensures
        r@ == s@.subrange(0, first_space(s@)),
{
    first_word(s)
}

/// Appends `text` to the end of `s`.
pub fn append_text(s: &mut String, text: &str)
    ensures
        final(s)@ == old(s)@ + text@,
{
    s.append(text);
}

/// Counts whitespace-delimited words.
pub fn word_count(s: &str) -> (r: usize)
    ensures
        r == spec_word_count(s@),
{
    let cs = chars_of(s);
    count_words_chars(&cs)
}

/// Counts whitespace-delimited words; an all-whitespace text has none.
pub fn count_words(text: &str) -> (r: usize)
    ensures
        r == spec_word_count(text@),
{
    let cs = chars_of(text);
    count_words_chars(&cs)
}

/// Whether the string reads the same forwards and backwards.
pub fn is_palindrome(s: &str) -> (r: bool)
    ensures
        r == (s@ == s@.reverse()),
{
    let cs = chars_of(s);
    let n = cs.len();
    let mut i: usize = 0;
    while i < n / 2
        invariant
            i <= n,
            n == cs@.len(),
            cs@ == s@,
            forall|k: int| 0 <= k < i ==> #[trigger] cs@[k] == cs@[n - 1 - k],
        decreases n / 2 - i,
    {
        if cs[i] != cs[n - 1 - i] {
            proof {
                if s@ == s@.reverse() {
                    assert(s@.reverse()[i as int] == s@[n - 1 - i]);
                }
            }
            return false;
        }
        i = i + 1;
    }
    proof {
        assert forall|k: int| 0 <= k < n implies s@[k] == s@.reverse()[k] by {
            assert(s@.reverse()[k] == s@[n - 1 - k]);
            if k < n / 2 {
            } else if n - 1 - k < n / 2 {
                assert(s@[n - 1 - k] == s@[n - 1 - (n - 1 - k)]);
            }
        }
        assert(s@ =~= s@.reverse());
    }
    true
}

/// The substring between two character positions, or `None` when the
/// bounds are invalid.
pub fn safe_slice(s: &str, start: usize, end: usize) -> (r: Option<&str>)
    ensures
        match r {
            Some(x) => start <= end <= s@.len() && x@ == s@.subrange(start as int, end as int),
            None => !(start <= end <= s@.len()),
        },
{
    if start <= end && end <= s.unicode_len() {
        Some(s.substring_char(start, end))
    } else {
        None
    }
}

/// The string with its characters in reverse order.
pub fn reverse_string(s: &str) -> (r: String)
    ensures
        r@ == s@.reverse(),
{
    let cs = chars_of(s);
    let n = cs.len();
    let mut out: Vec<char> = Vec::new();
    let mut i: usize = 0;
    while i < n
        invariant
            i <= n,
            n == cs@.len(),
            cs@ == s@,
            out@.len() == i,
            forall|k: int| 0 <= k < i ==> out@[k] == s@[n - 1 - k],
        decreases n - i,
    {
        out.push(cs[n - 1 - i]);
        i = i + 1;
    }
    proof {
        assert(out@ =~= s@.reverse());
    }
    string_from_chars(&out)
}

/// Trims whitespace and lowercases what is left.
pub fn clean_string(s: &str) -> (r: String)
    ensures
        r@ == lower_of(spec_trim(s@)),
{
    let cs = chars_of(s);
    let trimmed = trim_chars(&cs);
    let ts = string_from_chars(&trimmed);
    to_lowercase_str(ts.as_str())
}

/// The longer of two strings, the second on a tie.
pub fn longest<'a>(x: &'a str, y: &'a str) -> (r: &'a str)
    ensures
        x@.len() > y@.len() ==> r@ == x@,
        x@.len() <= y@.len() ==> r@ == y@,
{
    if x.unicode_len() > y.unicode_len() {
        x
    } else {
        y
    }
}

/// The longest of three strings: the first keeps the title on ties.
pub fn longest_of_three<'a>(x: &'a str, y: &'a str, z: &'a str) -> (r: &'a str)
    ensures
        r@ == (if z@.len() > (if y@.len() > x@.len() {
            y@
        } else {
            x@
        }).len() {
            z@
        } else if y@.len() > x@.len() {
            y@
        } else {
            x@
        }),
{
    let mut longest = x;
    if y.unicode_len() > longest.unicode_len() {
        longest = y;
    }
    if z.unicode_len() > longest.unicode_len() {
        longest = z;
    }
    longest
}

/// Compares lengths but always returns its first argument, whose
/// lifetime is the result's.
pub fn longest_explicit<'a, 'b>(x: &'a str, y: &'b str) -> (r: &'a str)
    ensures
        r@ == x@,
{
    if x.unicode_len() > y.unicode_len() {
        x
    } else {
        x
    }
}

/// The first string when the condition holds, the second otherwise.
pub fn conditional_return<'a, 'b: 'a>(condition: bool, x: &'a str, y: &'b str) -> (r: &'a str)
    ensures
        condition ==> r@ == x@,
        !condition ==> r@ == y@,
{
    if condition {
        x
    } else {
        y
    }
}

/// Splits on commas; the pieces of the comma-separated list.
pub fn split_by_comma(text: &str) -> (r: Vec<String>)
    ensures
        r.deep_view() == spec_split(text@, ','),
{
    let cs = chars_of(text);
    let pieces = split_char(&cs, ',');
    let ghost want = spec_split(text@, ',');
    let mut r: Vec<String> = Vec::new();
    let n = pieces.len();
    let mut i: usize = 0;
    while i < n
        invariant
            i <= n,
            n == pieces@.len(),
            pieces.deep_view() == want,
            r@.len() == i,
            forall|k: int| 0 <= k < i ==> r@[k]@ == want[k],
        decreases n - i,
    {
        proof {
            assert(pieces@[i as int]@ == pieces.deep_view()[i as int]);
        }
        r.push(string_from_chars(&pieces[i]));
        i = i + 1;
    }
    proof {
        assert(r.deep_view() =~~= want);
    }
    r
}

/// A closure that yields the captured string each time it is called.
pub fn create_closure<'a>(s: &'a str) -> (r: impl Fn() -> &'a str)
    ensures
        call_requires(r, ()),
        forall|out: &'a str| #[trigger] call_ensures(r, (), out) ==> out@ == s@,
{
    (move || -> (out: &'a str)
        ensures
            out@ == s@,
        {
            s
        })
}

/// The whitespace-delimited words of a text, in order: the maximal runs
/// of non-whitespace characters.
pub open spec fn spec_words(s: Seq<char>) -> Seq<Seq<char>>
    decreases s.len(),
{
    if s.len() == 0 {
        Seq::<Seq<char>>::empty()
    } else {
        let prev = spec_words(s.drop_last());
        if is_space_char(s.last()) {
            prev
        } else if s.len() == 1 || is_space_char(s[s.len() - 2]) {
            prev.push(seq![s.last()])
        } else {
            prev.update(prev.len() - 1, prev.last().push(s.last()))
        }
    }
}

/// Collects the whitespace-delimited words of a text.
pub fn extract_words(text: &str) -> (r: Vec<String>)
    ensures
        r.deep_view() == spec_words(text@),
{
    let cs = chars_of(text);
    let n = cs.len();
    let mut words: Vec<Vec<char>> = Vec::new();
    let mut cur: Vec<char> = Vec::new();
    let mut prev_space = true;
    let mut i: usize = 0;
    proof {
        assert(cs@.take(0) =~= Seq::<char>::empty());
        assert(words.deep_view() =~~= spec_words(cs@.take(0)));
    }
    while i < n
        invariant
            i <= n,
            n == cs@.len(),
            cs@ == text@,
            prev_space == (i == 0 || is_space_char(cs@[i - 1])),
            prev_space ==> cur@.len() == 0 && words.deep_view() == spec_words(
                cs@.take(i as int),
            ),
            !prev_space ==> cur@.len() > 0 && words.deep_view().push(cur@) == spec_words(
                cs@.take(i as int),
            ),
        decreases n - i,
    {
        let ghost prefix = cs@.take(i as int);
        let c = cs[i];
        let space = is_whitespace_char(c);
        if space {
            if !prev_space {
                words.push(cur);
                cur = Vec::new();
            }
        } else {
            cur.push(c);
        }
        proof {
            let now = cs@.take(i + 1);
            assert(now.drop_last() =~= prefix);
            assert(now.last() == cs@[i as int]);
            if now.len() > 1 {
                assert(now[now.len() - 2] == cs@[i - 1]);
            }
            if space {
                assert(words.deep_view() =~~= spec_words(now));
            } else if i == 0 || is_space_char(cs@[i - 1]) {
                assert(words.deep_view().push(cur@) =~~= spec_words(now));
            } else {
                let prev = spec_words(prefix);
                assert(words.deep_view().push(cur@) =~~= prev.update(
                    prev.len() - 1,
                    prev.last().push(cs@[i as int]),
                ));
            }
        }
        prev_space = space;
        i = i + 1;
    }
    if !prev_space {
        words.push(cur);
        proof {
            assert(words.deep_view() =~~= spec_words(cs@.take(n as int)));
        }
    }
    proof {
        assert(cs@.take(n as int) =~= cs@);
        assert(words.deep_view() =~~= spec_words(text@));
    }
    let mut r: Vec<String> = Vec::new();
    let m = words.len();
    let mut k: usize = 0;
    while k < m
        invariant
            k <= m,
            m == words@.len(),
            words.deep_view() == spec_words(text@),
            r@.len() == k,
            forall|j: int| 0 <= j < k ==> r@[j]@ == spec_words(text@)[j],
        decreases m - k,
    {
        proof {
            assert(words@[k as int]@ == words.deep_view()[k as int]);
        }
        r.push(string_from_chars(&words[k]));
        k = k + 1;
    }
    proof {
        assert(r.deep_view() =~~= spec_words(text@));
    }
    r
}

/// The longest line, or `None` when there are no lines. Later lines win
/// ties.
pub fn find_longest_line<'a>(lines: &'a Vec<String>) -> (r: Option<&'a str>)
    ensures
        match r {
            None => lines@.len() == 0,
            Some(x) => exists|i: int|
                {
                    &&& 0 <= i < lines@.len()
                    &&& #[trigger] lines@[i]@ == x@
                    &&& forall|j: int| 0 <= j < lines@.len() ==> lines@[j]@.len() <= x@.len()
                    &&& forall|j: int| i < j < lines@.len() ==> lines@[j]@.len() < x@.len()
                },
        },
{
    let n = lines.len();
    if n == 0 {
        return None;
    }
    let mut best: usize = 0;
    let mut best_len = lines[0].as_str().unicode_len();
    let mut i: usize = 1;
    while i < n
        invariant
            1 <= i <= n,
            n == lines@.len(),
            best < i,
            best_len == lines@[best as int]@.len(),
            forall|j: int| 0 <= j < i ==> lines@[j]@.len() <= best_len,
            forall|j: int| best < j < i ==> lines@[j]@.len() < best_len,
        decreases n - i,
    {
        let len = lines[i].as_str().unicode_len();
        if len >= best_len {
            best = i;
            best_len = len;
        }
        i = i + 1;
    }
    Some(lines[best].as_str())
}

} // verus!
