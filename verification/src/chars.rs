//! Character classification.
//!
//! The Unicode character classes used by the library (whitespace, upper and
//! lower case, digits) and the lowercase mapping are large tables; each is
//! given an uninterpreted name, and a thin trusted wrapper ties the name to
//! the standard library call that computes it. Everything else in the crate
//! speaks of these names.

use vstd::prelude::*;

verus! {

/// Whether a character has the Unicode White_Space property.
pub uninterp spec fn is_space_char(c: char) -> bool;

/// Whether a character is Unicode uppercase.
pub uninterp spec fn is_upper_char(c: char) -> bool;

/// Whether a character is Unicode lowercase.
pub uninterp spec fn is_lower_char(c: char) -> bool;

/// Whether a character is Unicode numeric.
pub uninterp spec fn is_numeric_char(c: char) -> bool;

/// Whether a character is Unicode alphanumeric.
pub uninterp spec fn is_alnum_char(c: char) -> bool;

/// The Unicode lowercase mapping of a string's characters.
pub uninterp spec fn lower_of(s: Seq<char>) -> Seq<char>;

/// Relies on `char::is_whitespace`: whether `c` has the Unicode White_Space
/// property. The result depends on the character alone.
#[verifier::external_body]
pub fn is_whitespace_char(c: char) -> (r: bool)
    ensures
        r == is_space_char(c),
{
    c.is_whitespace()
}

/// Relies on `char::is_uppercase`: whether `c` is Unicode uppercase. The
/// result depends on the character alone.
#[verifier::external_body]
pub fn is_uppercase_char(c: char) -> (r: bool)
    ensures
        r == is_upper_char(c),
{
    c.is_uppercase()
}

/// Relies on `char::is_lowercase`: whether `c` is Unicode lowercase. The
/// result depends on the character alone.
#[verifier::external_body]
pub fn is_lowercase_char(c: char) -> (r: bool)
    ensures
        r == is_lower_char(c),
{
    c.is_lowercase()
}

/// Relies on `char::is_numeric`: whether `c` is Unicode numeric. The result
/// depends on the character alone.
#[verifier::external_body]
pub fn is_numeric_char_exec(c: char) -> (r: bool)
    ensures
        r == is_numeric_char(c),
{
    c.is_numeric()
}

/// Relies on `char::is_alphanumeric`: whether `c` is Unicode
/// alphanumeric. The result depends on the character alone.
#[verifier::external_body]
pub fn is_alphanumeric_char(c: char) -> (r: bool)
    ensures
        r == is_alnum_char(c),
{
    c.is_alphanumeric()
}

/// Relies on `str::to_lowercase`: the lowercase form of a string. The
/// result depends on the characters alone.
#[verifier::external_body]
pub fn to_lowercase_str(s: &str) -> (r: String)
    ensures
        r@ == lower_of(s@),
{
    s.to_lowercase()
}

} // verus!
