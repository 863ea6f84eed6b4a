//! Verified string primitives.
//!
//! A `&str` is viewed as a `Seq<char>`; the functions here convert between
//! strings and character vectors, compare strings, search for characters
//! and substrings, trim whitespace, and order strings lexicographically by
//! code point. Except for `string_from_chars`, every function is verified
//! against an exact contract.

use crate::chars::is_space_char;
use crate::chars::is_whitespace_char;
use vstd::prelude::*;
use vstd::string::StrSliceExecFns;

verus! {

/// A needle occurs in a haystack at position `i`.
pub open spec fn matches_at(h: Seq<char>, n: Seq<char>, i: int) -> bool {
    0 <= i && i + n.len() <= h.len() && h.subrange(i, i + n.len()) == n
}

/// A needle occurs somewhere in a haystack.
pub open spec fn contains_seq(h: Seq<char>, n: Seq<char>) -> bool {
    exists|i: int| matches_at(h, n, i)
}

/// The input with leading and trailing whitespace removed.
pub open spec fn spec_trim(s: Seq<char>) -> Seq<char>
    decreases s.len(),
{
    if s.len() == 0 {
        s
    } else if is_space_char(s.first()) {
        spec_trim(s.drop_first())
    } else if is_space_char(s.last()) {
        spec_trim(s.drop_last())
    } else {
        s
    }
}

/// Code-point order on strings: `a` is less than or equal to `b`
/// lexicographically, comparing scalar values position by position.
pub open spec fn lex_le(a: Seq<char>, b: Seq<char>) -> bool
    decreases a.len(),
{
    ||| a.len() == 0
    ||| (a.len() > 0 && b.len() > 0 && ((a.first() as u32) < (b.first() as u32) || ((a.first()
        as u32) == (b.first() as u32) && lex_le(a.drop_first(), b.drop_first()))))
}

/// Collects the characters of a string into a vector, in order.
pub fn chars_of(s: &str) -> (r: Vec<char>)
    ensures
        r@ == s@,
{
    let n = s.unicode_len();
    let mut r: Vec<char> = Vec::new();
    let mut i: usize = 0;
    while i < n
        invariant
            i <= n,
            n == s@.len(),
            r@ == s@.take(i as int),
        decreases n - i,
    {
        r.push(s.get_char(i));
        i = i + 1;
        proof {
            assert(s@.take(i as int) =~= s@.take(i - 1).push(s@[i - 1]));
        }
    }
    proof {
        assert(s@.take(n as int) =~= s@);
    }
    r
}

/// Relies on `String: FromIterator<&char>`: collecting a vector of
/// characters yields the string of exactly those characters.
#[verifier::external_body]
pub fn string_from_chars(v: &Vec<char>) -> (r: String)
    ensures
        r@ == v@,
{
    v.iter().collect()
}

/// Whether two strings hold the same characters.
pub fn eq_str(a: &str, b: &str) -> (r: bool)
    ensures
        r == (a@ == b@),
{
    let na = a.unicode_len();
    let nb = b.unicode_len();
    if na != nb {
        return false;
    }
    let mut i: usize = 0;
    while i < na
        invariant
            i <= na,
            na == a@.len(),
            na == b@.len(),
            forall|j: int| 0 <= j < i ==> a@[j] == b@[j],
        decreases na - i,
    {
        if a.get_char(i) != b.get_char(i) {
            return false;
        }
        i = i + 1;
    }
    proof {
        assert(a@ =~= b@);
    }
    true
}

/// Whether a character occurs in a vector of characters.
pub fn contains_char(v: &Vec<char>, c: char) -> (r: bool)
    ensures
        r == v@.contains(c),
{
    let mut i: usize = 0;
    while i < v.len()
        invariant
            i <= v@.len(),
            forall|j: int| 0 <= j < i ==> v@[j] != c,
        decreases v@.len() - i,
    {
        if v[i] == c {
            return true;
        }
        i = i + 1;
    }
    false
}

/// The first position of `c` in `v` at or after `from`, if any.
pub fn find_char_from(v: &Vec<char>, c: char, from: usize) -> (r: Option<usize>)
    requires
        from <= v@.len(),
    ensures
        match r {
            Some(i) => from <= i < v@.len() && v@[i as int] == c && forall|j: int|
                from <= j < i ==> v@[j] != c,
            None => forall|j: int| from <= j < v@.len() ==> v@[j] != c,
        },
{
    let mut i: usize = from;
    while i < v.len()
        invariant
            from <= i <= v@.len(),
            forall|j: int| from <= j < i ==> v@[j] != c,
        decreases v@.len() - i,
    {
        if v[i] == c {
            return Some(i);
        }
        i = i + 1;
    }
    None
}

/// Whether the needle occurs at position `i` of the haystack.
fn match_at_exec(h: &Vec<char>, n: &Vec<char>, i: usize) -> (r: bool)
    requires
        i + n@.len() <= h@.len(),
    ensures
        r == matches_at(h@, n@, i as int),
{
    let hn = h.len();
    let mut j: usize = 0;
    while j < n.len()
        invariant
            j <= n@.len(),
            i + n@.len() <= h@.len(),
            hn == h@.len(),
            forall|t: int| 0 <= t < j ==> h@[i + t] == n@[t],
        decreases n@.len() - j,
    {
        if h[i + j] != n[j] {
            proof {
                if matches_at(h@, n@, i as int) {
                    assert(h@.subrange(i as int, i + n@.len())[j as int] == n@[j as int]);
                }
            }
            return false;
        }
        j = j + 1;
    }
    proof {
        assert(h@.subrange(i as int, i + n@.len()) =~= n@);
    }
    true
}

/// Whether the needle occurs as a contiguous run inside the haystack.
pub fn contains_sub(h: &Vec<char>, n: &Vec<char>) -> (r: bool)
    ensures
        r == contains_seq(h@, n@),
{
    if n.len() > h.len() {
        return false;
    }
    let last_start: usize = h.len() - n.len();
    let mut i: usize = 0;
    loop
        invariant
            i <= last_start,
            last_start == h@.len() - n@.len(),
            n@.len() <= h@.len(),
            forall|k: int| 0 <= k < i ==> !matches_at(h@, n@, k),
        ensures
            forall|k: int| !matches_at(h@, n@, k),
        decreases last_start - i,
    {
        let m = match_at_exec(h, n, i);
        if m {
            return true;
        }
        if i == last_start {
            assert forall|k: int| !matches_at(h@, n@, k) by {
                if 0 <= k && k + n@.len() <= h@.len() {
                    if k < i {
                    } else {
                        assert(k == i);
                    }
                }
            }
            break;
        }
        i = i + 1;
    }
    false
}

/// Whether the haystack begins with the needle.
pub fn starts_with_chars(h: &Vec<char>, n: &Vec<char>) -> (r: bool)
    ensures
        r == matches_at(h@, n@, 0),
{
    if n.len() > h.len() {
        return false;
    }
    let mut j: usize = 0;
    while j < n.len()
        invariant
            j <= n@.len(),
            n@.len() <= h@.len(),
            forall|t: int| 0 <= t < j ==> h@[t] == n@[t],
        decreases n@.len() - j,
    {
        if h[j] != n[j] {
            proof {
                if matches_at(h@, n@, 0) {
                    assert(h@.subrange(0, n@.len() as int)[j as int] == n@[j as int]);
                }
            }
            return false;
        }
        j = j + 1;
    }
    proof {
        assert(h@.subrange(0, n@.len() as int) =~= n@);
    }
    true
}

/// Stripping a leading space strips it from the trimmed form too.
proof fn lemma_trim_drop_first(s: Seq<char>)
    requires
        s.len() > 0,
        is_space_char(s.first()),
    ensures
        spec_trim(s) == spec_trim(s.drop_first()),
{
}

/// Stripping a trailing space from a string whose first character is not a
/// space strips it from the trimmed form too.
proof fn lemma_trim_drop_last(s: Seq<char>)
    requires
        s.len() > 0,
        is_space_char(s.last()),
        !is_space_char(s.first()),
    ensures
        spec_trim(s) == spec_trim(s.drop_last()),
{
}

/// Removes leading and trailing whitespace from a character vector.
pub fn trim_chars(v: &Vec<char>) -> (r: Vec<char>)
    ensures
        r@ == spec_trim(v@),
{
    let n = v.len();
    proof {
        assert(v@.subrange(0, n as int) =~= v@);
    }
    let mut start: usize = 0;
    loop
        invariant
            start <= n,
            n == v@.len(),
            spec_trim(v@) == spec_trim(v@.subrange(start as int, n as int)),
        ensures
            start <= n,
            n == v@.len(),
            spec_trim(v@) == spec_trim(v@.subrange(start as int, n as int)),
            start < n ==> !is_space_char(v@[start as int]),
        decreases n - start,
    {
        if start >= n {
            break;
        }
        if !is_whitespace_char(v[start]) {
            proof {
                assert(v@.subrange(start as int, n as int).first() == v@[start as int]);
            }
            break;
        }
        proof {
            let sub = v@.subrange(start as int, n as int);
            lemma_trim_drop_first(sub);
            assert(sub.drop_first() =~= v@.subrange(start + 1, n as int));
        }
        start = start + 1;
    }
    let mut end: usize = n;
    loop
        invariant
            start <= end <= n,
            n == v@.len(),
            spec_trim(v@) == spec_trim(v@.subrange(start as int, end as int)),
            start < n ==> !is_space_char(v@[start as int]),
        ensures
            start <= end <= n,
            spec_trim(v@) == spec_trim(v@.subrange(start as int, end as int)),
            start < end ==> !is_space_char(v@[start as int]) && !is_space_char(v@[end - 1]),
        decreases end,
    {
        if end <= start {
            break;
        }
        if !is_whitespace_char(v[end - 1]) {
            proof {
                assert(v@.subrange(start as int, end as int).last() == v@[end - 1]);
            }
            break;
        }
        proof {
            let sub = v@.subrange(start as int, end as int);
            assert(sub.first() == v@[start as int]);
            assert(sub.last() == v@[end - 1]);
            lemma_trim_drop_last(sub);
            assert(sub.drop_last() =~= v@.subrange(start as int, end - 1));
        }
        end = end - 1;
    }
    let mut r: Vec<char> = Vec::new();
    let mut i: usize = start;
    while i < end
        invariant
            start <= i <= end <= n,
            n == v@.len(),
            r@ == v@.subrange(start as int, i as int),
        decreases end - i,
    {
        r.push(v[i]);
        i = i + 1;
        proof {
            assert(v@.subrange(start as int, i as int) =~= v@.subrange(
                start as int,
                i - 1,
            ).push(v@[i - 1]));
        }
    }
    proof {
        let sub = v@.subrange(start as int, end as int);
        if sub.len() > 0 {
            assert(sub.first() == v@[start as int]);
            assert(sub.last() == v@[end - 1]);
        }
        assert(spec_trim(sub) == sub);
    }
    r
}

/// Code-point order is total.
pub proof fn lemma_lex_le_total(a: Seq<char>, b: Seq<char>)
    ensures
        lex_le(a, b) || lex_le(b, a),
    decreases a.len(),
{
    if a.len() > 0 && b.len() > 0 && (a.first() as u32) == (b.first() as u32) {
        lemma_lex_le_total(a.drop_first(), b.drop_first());
    }
}

/// Code-point order is transitive.
pub proof fn lemma_lex_le_trans(a: Seq<char>, b: Seq<char>, c: Seq<char>)
    requires
        lex_le(a, b),
        lex_le(b, c),
    ensures
        lex_le(a, c),
    decreases a.len(),
{
    if a.len() > 0 {
        if (a.first() as u32) == (b.first() as u32) && (b.first() as u32) == (c.first()
            as u32) {
            lemma_lex_le_trans(a.drop_first(), b.drop_first(), c.drop_first());
        }
    }
}

/// Dropping an equal first character on both sides keeps the order.
proof fn lemma_lex_le_step(a: Seq<char>, b: Seq<char>)
    requires
        a.len() > 0,
        b.len() > 0,
        (a.first() as u32) == (b.first() as u32),
    ensures
        lex_le(a, b) == lex_le(a.drop_first(), b.drop_first()),
{
}

/// Compares two strings in code-point order.
pub fn str_le(a: &str, b: &str) -> (r: bool)
    ensures
        r == lex_le(a@, b@),
{
    let na = a.unicode_len();
    let nb = b.unicode_len();
    proof {
        assert(a@.subrange(0, na as int) =~= a@);
        assert(b@.subrange(0, nb as int) =~= b@);
    }
    let mut i: usize = 0;
    loop
        invariant
            i <= na,
            i <= nb,
            na == a@.len(),
            nb == b@.len(),
            lex_le(a@, b@) == lex_le(
                a@.subrange(i as int, na as int),
                b@.subrange(i as int, nb as int),
            ),
            lex_le(b@, a@) == lex_le(
                b@.subrange(i as int, nb as int),
                a@.subrange(i as int, na as int),
            ),
        decreases na - i,
    {
        if i >= na {
            return true;
        }
        if i >= nb {
            return false;
        }
        let ca = a.get_char(i);
        let cb = b.get_char(i);
        if (ca as u32) < (cb as u32) {
            return true;
        }
        if (ca as u32) > (cb as u32) {
            return false;
        }
        proof {
            let sa = a@.subrange(i as int, na as int);
            let sb = b@.subrange(i as int, nb as int);
            lemma_lex_le_step(sa, sb);
            lemma_lex_le_step(sb, sa);
            assert(sa.drop_first() =~= a@.subrange(i + 1, na as int));
            assert(sb.drop_first() =~= b@.subrange(i + 1, nb as int));
        }
        i = i + 1;
    }
}

} // verus!
