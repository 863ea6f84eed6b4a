//! The decision core of the `info` and `create` sub-commands: extracting a
//! file name's extension, deciding whether a line count is reported, and
//! verifying written content.
//!
//! Filesystem metadata is read by the caller; this module only decides
//! what the snapshot holds.

use crate::strings::eq_str;
use vstd::prelude::*;
use vstd::string::StrSliceExecFns;

verus! {

/// The position of the last occurrence of `c` in `s`, if any.
pub open spec fn spec_rfind(s: Seq<char>, c: char) -> Option<int>
    decreases s.len(),
{
    if s.len() == 0 {
        None
    } else if s.last() == c {
        Some(s.len() - 1)
    } else {
        spec_rfind(s.drop_last(), c)
    }
}

/// The text after the last dot of a file name, if there is a dot.
pub open spec fn spec_extension(s: Seq<char>) -> Option<Seq<char>> {
    match spec_rfind(s, '.') {
        None => None,
        Some(i) => Some(s.subrange(i + 1, s.len() as int)),
    }
}

/// The extensions for which `info` reads the file and reports a line
/// count.
pub open spec fn counted_extension(ext: Option<Seq<char>>) -> bool {
    ext == Some("txt"@) || ext == Some("rs"@)
}

/// A snapshot of one filesystem entry, as the `info` sub-command reports
/// it. Built fresh per invocation; the line count is present only for
/// regular files with a recognized text extension.
#[derive(Debug, PartialEq)]
pub struct FileInfo {
    pub name: String,
    pub size: u64,
    pub is_file: bool,
    pub line_count: Option<usize>,
}

/// The text after the last `.` of a file name, or `None` without a dot.
pub fn get_extension(filename: &str) -> (r: Option<&str>)
    ensures
        match spec_extension(filename@) {
            None => r is None,
            Some(e) => r matches Some(x) && x@ == e,
        },
{
    let n = filename.unicode_len();
    let mut i: usize = n;
    proof {
        assert(filename@.take(n as int) =~= filename@);
    }
    loop
        invariant
            i <= n,
            n == filename@.len(),
            spec_rfind(filename@, '.') == spec_rfind(filename@.take(i as int), '.'),
        ensures
            i <= n,
            n == filename@.len(),
            i > 0 ==> spec_rfind(filename@, '.') == Some(i - 1) && filename@[i - 1] == '.',
            i == 0 ==> spec_rfind(filename@, '.') is None,
        decreases i,
    {
        if i == 0 {
            break;
        }
        if filename.get_char(i - 1) == '.' {
            proof {
                let sub = filename@.take(i as int);
                assert(sub.last() == filename@[i - 1]);
            }
            break;
        }
        proof {
            let sub = filename@.take(i as int);
            assert(sub.last() == filename@[i - 1]);
            assert(sub.drop_last() =~= filename@.take(i - 1));
        }
        i = i - 1;
    }
    if i == 0 {
        None
    } else {
        let ext = filename.substring_char(i, n);
        Some(ext)
    }
}

/// Whether `info` reports a line count: only for a regular file whose
/// extension is `txt` or `rs`.
pub fn needs_line_count(is_file: bool, extension: Option<&str>) -> (r: bool)
    ensures
        r == (is_file && counted_extension(
            match extension {
                Some(e) => Some(e@),
                None => None,
            },
        )),
{
    proof {
        reveal_strlit("txt");
        reveal_strlit("rs");
        assert("txt"@.len() == 3);
        assert("rs"@.len() == 2);
    }
    if !is_file {
        return false;
    }
    match extension {
        None => false,
        Some(e) => eq_str(e, "txt") || eq_str(e, "rs"),
    }
}

/// Builds the `info` snapshot from its parts.
pub fn make_file_info(name: String, size: u64, is_file: bool, line_count: Option<usize>) -> (r:
    FileInfo)
    ensures
        r.name == name,
        r.size == size,
        r.is_file == is_file,
        r.line_count == line_count,
{
    FileInfo { name, size, is_file, line_count }
}

/// The self-check of the `create` sub-command: whether the content read
/// back equals the content that was to be written, character for
/// character.
pub fn verify_content(expected: &str, actual: &str) -> (r: bool)
    ensures
        r == (expected@ == actual@),
{
    eq_str(expected, actual)
}

} // verus!
