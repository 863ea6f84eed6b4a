//! The counting core of the `count` sub-command: line, character and word
//! counts of a text.

use crate::lines::count_char;
use crate::lines::count_char_occurrences;
use crate::lines::count_words_chars;
use crate::lines::lemma_count_char_le_len;
use crate::lines::lemma_split_count;
use crate::lines::spec_split;
use crate::lines::spec_word_count;
use crate::strings::chars_of;
use vstd::prelude::*;

verus! {

/// The line count of a text: the pieces between newline characters, so one
/// more than the number of newlines. An empty text counts as one empty
/// line.
pub open spec fn spec_line_count(s: Seq<char>) -> nat {
    spec_split(s, '\n').len()
}

/// What the `count` sub-command reports about a text.
#[derive(Debug, PartialEq, Eq, Structural)]
pub struct TextStats {
    /// Newline-separated segments.
    pub line_count: usize,
    /// Unicode scalar values, not bytes.
    pub char_count: usize,
    /// Maximal runs of non-whitespace characters.
    pub word_count: usize,
}

/// Counts lines, characters and words of a text.
pub fn count_stats(content: &str) -> (r: TextStats)
    requires
        content@.len() < usize::MAX,
    ensures
        r.line_count == spec_line_count(content@),
        r.char_count == content@.len(),
        r.word_count == spec_word_count(content@),
{
    let cs = chars_of(content);
    let newlines = count_char_occurrences(&cs, '\n');
    proof {
        lemma_split_count(content@, '\n');
        lemma_count_char_le_len(content@, '\n');
    }
    let words = count_words_chars(&cs);
    TextStats { line_count: newlines + 1, char_count: cs.len(), word_count: words }
}

/// A text with N newline-separated segments is reported as exactly N
/// lines: the line count equals the number of line terminators plus one.
pub proof fn lemma_line_count_is_terminators_plus_one(s: Seq<char>)
    ensures
        spec_line_count(s) == count_char(s, '\n') + 1,
{
    lemma_split_count(s, '\n');
}

} // verus!
