//! A small key-value parser over `key=value` pairs separated by commas,
//! and a few cursor types over borrowed data.

use crate::strings::chars_of;
use crate::strings::find_char_from;
use vstd::prelude::*;
use vstd::string::StrSliceExecFns;

verus! {

/// The first position of `c` in `s` at or after `from`; the length when
/// there is none.
pub open spec fn index_of_from(s: Seq<char>, c: char, from: int) -> int
    recommends
        0 <= from,
    decreases s.len() - from,
{
    if from >= s.len() {
        s.len() as int
    } else if s[from] == c {
        from
    } else {
        index_of_from(s, c, from + 1)
    }
}

/// A scan that stops at the first occurrence computes `index_of_from`.
proof fn lemma_index_of_from_agrees(s: Seq<char>, c: char, from: int, i: int)
    requires
        0 <= from <= i <= s.len(),
        forall|j: int| from <= j < i ==> s[j] != c,
        i < s.len() ==> s[i] == c,
    ensures
        index_of_from(s, c, from) == i,
    decreases i - from,
{
    if from < i {
        lemma_index_of_from_agrees(s, c, from + 1, i);
    }
}

/// One parsed `key=value` pair, borrowing from the parser's input.
#[derive(Debug, PartialEq)]
pub struct KeyValue<'a> {
    pub key: &'a str,
    pub value: &'a str,
}

/// A cursor over a comma-separated list of `key=value` pairs. The
/// position counts characters.
#[derive(Debug)]
pub struct Parser<'a> {
    pub input: &'a str,
    pub pos: usize,
}

impl<'a> Parser<'a> {
    pub fn new(input: &'a str) -> (r: Parser<'a>)
        ensures
            r.input@ == input@,
            r.pos == 0,
    {
        Parser { input, pos: 0 }
    }

    /// The next `key=value` pair before the next comma, advancing past
    /// that comma. At the end of the input, or when the piece ahead has
    /// no `=`, returns `None` without advancing.
    pub fn next_key_value(&mut self) -> (r: Option<KeyValue<'a>>)
        requires
            old(self).input@.len() < usize::MAX,
        ensures
            final(self).input@ == old(self).input@,
            ({
                let s = old(self).input@;
                let p = old(self).pos as int;
                if p >= s.len() {
                    r is None && final(self).pos == old(self).pos
                } else {
                    let comma = index_of_from(s, ',', p);
                    let eq = index_of_from(s, '=', p);
                    if eq < comma {
                        &&& r matches Some(kv) && kv.key@ == s.subrange(p, eq)
                            && kv.value@ == s.subrange(eq + 1, comma)
                        &&& final(self).pos == comma + 1
                    } else {
                        r is None && final(self).pos == old(self).pos
                    }
                }
            }),
    {
        let input = self.input;
        let n = input.unicode_len();
        if self.pos >= n {
            return None;
        }
        let cs = chars_of(input);
        let comma = match find_char_from(&cs, ',', self.pos) {
            Some(i) => {
                proof {
                    lemma_index_of_from_agrees(input@, ',', self.pos as int, i as int);
                }
                i
            },
            None => {
                proof {
                    lemma_index_of_from_agrees(input@, ',', self.pos as int, n as int);
                }
                n
            },
        };
        let eq = match find_char_from(&cs, '=', self.pos) {
            Some(i) => {
                proof {
                    lemma_index_of_from_agrees(input@, '=', self.pos as int, i as int);
                }
                i
            },
            None => {
                proof {
                    lemma_index_of_from_agrees(input@, '=', self.pos as int, n as int);
                }
                n
            },
        };
        if eq < comma {
            let key = input.substring_char(self.pos, eq);
            let value = input.substring_char(eq + 1, comma);
            self.pos = comma + 1;
            Some(KeyValue { key, value })
        } else {
            None
        }
    }
}

/// A read-only view over a borrowed list of strings.
#[derive(Debug)]
pub struct StringCache<'a> {
    pub data: &'a [String],
}

impl<'a> StringCache<'a> {
    pub fn new(data: &'a [String]) -> (r: StringCache<'a>)
        ensures
            r.data@ == data@,
    {
        StringCache { data }
    }

    /// The entry at `index`, or `None` past the end.
    pub fn get(&self, index: usize) -> (r: Option<&str>)
        ensures
            match r {
                Some(s) => index < self.data@.len() && s@ == self.data@[index as int]@,
                None => index >= self.data@.len(),
            },
    {
        if index < self.data.len() {
            Some(self.data[index].as_str())
        } else {
            None
        }
    }

    pub fn len(&self) -> (r: usize)
        ensures
            r == self.data@.len(),
    {
        self.data.len()
    }
}

/// A cursor over a borrowed slice of numbers.
#[derive(Debug)]
pub struct NumberIterator<'a> {
    pub data: &'a [i32],
    pub index: usize,
}

impl<'a> NumberIterator<'a> {
    pub fn new(data: &'a [i32]) -> (r: NumberIterator<'a>)
        ensures
            r.data@ == data@,
            r.index == 0,
    {
        NumberIterator { data, index: 0 }
    }

    /// The next number, advancing the cursor; `None` at the end.
    pub fn next(&mut self) -> (r: Option<&'a i32>)
        ensures
            final(self).data@ == old(self).data@,
            ({
                if old(self).index < old(self).data@.len() {
                    &&& r matches Some(v) && *v == old(self).data@[old(self).index as int]
                    &&& final(self).index == old(self).index + 1
                } else {
                    r is None && final(self).index == old(self).index
                }
            }),
    {
        if self.index < self.data.len() {
            let result = &self.data[self.index];
            self.index = self.index + 1;
            Some(result)
        } else {
            None
        }
    }
}

/// Counts from one to five, then stops.
#[derive(Debug, PartialEq, Eq, Structural)]
pub struct Counter {
    pub count: u32,
}

impl Counter {
    pub fn new() -> (r: Counter)
        ensures
            r.count == 0,
    {
        Counter { count: 0 }
    }

    /// The next value up to five; `None` afterwards.
    pub fn next(&mut self) -> (r: Option<u32>)
        ensures
            old(self).count < 5 ==> (r == Some((old(self).count + 1) as u32)
                && final(self).count == old(self).count + 1),
            old(self).count >= 5 ==> r is None && final(self).count == old(self).count,
    {
        if self.count < 5 {
            self.count = self.count + 1;
            Some(self.count)
        } else {
            None
        }
    }
}

/// A highlighted part of a longer text.
#[derive(Debug)]
pub struct ImportantExcerpt<'a> {
    pub part: &'a str,
}

impl<'a> ImportantExcerpt<'a> {
    /// The fixed importance level of an excerpt.
    pub fn level(&self) -> (r: i32)
        ensures
            r == 3,
    {
        3
    }
}

} // verus!
