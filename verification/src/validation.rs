//! Validation rules for e-mail addresses and passwords.

use crate::chars::is_alnum_char;
use crate::chars::is_alphanumeric_char;
use crate::chars::is_lower_char;
use crate::chars::is_lowercase_char;
use crate::chars::is_numeric_char;
use crate::chars::is_numeric_char_exec;
use crate::chars::is_upper_char;
use crate::chars::is_uppercase_char;
use crate::strings::chars_of;
use crate::strings::contains_char;
use vstd::prelude::*;
use vstd::string::StringSliceAdditionalSpecFns;

verus! {

/// Why a value was rejected.
#[derive(Debug, PartialEq, Eq, Structural)]
pub enum ValidationError {
    InvalidEmail,
    WeakPassword,
}

impl ValidationError {
    /// A human-readable description of the error.
    pub fn message(&self) -> (r: &'static str)
        ensures
            *self is InvalidEmail ==> r@ == "邮箱格式无效"@,
            *self is WeakPassword ==> r@ == "密码强度不够"@,
    {
        match self {
            ValidationError::InvalidEmail => "邮箱格式无效",
            ValidationError::WeakPassword => "密码强度不够",
        }
    }
}

/// An acceptable e-mail address contains both an `@` and a dot.
pub open spec fn acceptable_email(s: Seq<char>) -> bool {
    s.contains('@') && s.contains('.')
}

/// A strong password has at least eight bytes and holds an uppercase, a
/// lowercase, and a numeric character.
pub open spec fn strong_password(s: &str) -> bool {
    &&& s.spec_bytes().len() >= 8
    &&& exists|i: int| 0 <= i < s@.len() && is_upper_char(#[trigger] s@[i])
    &&& exists|i: int| 0 <= i < s@.len() && is_lower_char(#[trigger] s@[i])
    &&& exists|i: int| 0 <= i < s@.len() && is_numeric_char(#[trigger] s@[i])
}

/// Accepts an e-mail address exactly when it contains `@` and a dot,
/// returning it unchanged.
pub fn validate_email(email: &str) -> (r: Result<&str, ValidationError>)
    ensures
        acceptable_email(email@) ==> (r matches Ok(e) && e@ == email@),
        !acceptable_email(email@) ==> r == Err::<&str, ValidationError>(
            ValidationError::InvalidEmail,
        ),
{
    let cs = chars_of(email);
    if contains_char(&cs, '@') && contains_char(&cs, '.') {
        Ok(email)
    } else {
        Err(ValidationError::InvalidEmail)
    }
}

/// Accepts a password exactly when it is strong: eight bytes or more with
/// an uppercase, a lowercase and a numeric character.
pub fn validate_password(password: &str) -> (r: Result<(), ValidationError>)
    ensures
        strong_password(password) ==> r is Ok,
        !strong_password(password) ==> r == Err::<(), ValidationError>(
            ValidationError::WeakPassword,
        ),
{
    let bytes = password.as_bytes();
    if bytes.len() < 8 {
        return Err(ValidationError::WeakPassword);
    }
    let cs = chars_of(password);
    let has_upper = any_upper(&cs);
    let has_lower = any_lower(&cs);
    let has_digit = any_numeric(&cs);
    if has_upper && has_lower && has_digit {
        Ok(())
    } else {
        Err(ValidationError::WeakPassword)
    }
}

/// Whether any character is Unicode uppercase.
fn any_upper(cs: &Vec<char>) -> (r: bool)
    ensures
        r == exists|i: int| 0 <= i < cs@.len() && is_upper_char(#[trigger] cs@[i]),
{
    let mut i: usize = 0;
    while i < cs.len()
        invariant
            i <= cs@.len(),
            forall|k: int| 0 <= k < i ==> !is_upper_char(#[trigger] cs@[k]),
        decreases cs@.len() - i,
    {
        if is_uppercase_char(cs[i]) {
            return true;
        }
        i = i + 1;
    }
    false
}

/// Whether any character is Unicode lowercase.
fn any_lower(cs: &Vec<char>) -> (r: bool)
    ensures
        r == exists|i: int| 0 <= i < cs@.len() && is_lower_char(#[trigger] cs@[i]),
{
    let mut i: usize = 0;
    while i < cs.len()
        invariant
            i <= cs@.len(),
            forall|k: int| 0 <= k < i ==> !is_lower_char(#[trigger] cs@[k]),
        decreases cs@.len() - i,
    {
        if is_lowercase_char(cs[i]) {
            return true;
        }
        i = i + 1;
    }
    false
}

/// Whether any character is Unicode numeric.
fn any_numeric(cs: &Vec<char>) -> (r: bool)
    ensures
        r == exists|i: int| 0 <= i < cs@.len() && is_numeric_char(#[trigger] cs@[i]),
{
    let mut i: usize = 0;
    while i < cs.len()
        invariant
            i <= cs@.len(),
            forall|k: int| 0 <= k < i ==> !is_numeric_char(#[trigger] cs@[k]),
        decreases cs@.len() - i,
    {
        if is_numeric_char_exec(cs[i]) {
            return true;
        }
        i = i + 1;
    }
    false
}

/// Whether any character is not alphanumeric.
fn any_special(cs: &Vec<char>) -> (r: bool)
    ensures
        r == exists|i: int| 0 <= i < cs@.len() && !is_alnum_char(#[trigger] cs@[i]),
{
    let mut i: usize = 0;
    while i < cs.len()
        invariant
            i <= cs@.len(),
            forall|k: int| 0 <= k < i ==> is_alnum_char(#[trigger] cs@[k]),
        decreases cs@.len() - i,
    {
        if !is_alphanumeric_char(cs[i]) {
            return true;
        }
        i = i + 1;
    }
    false
}

/// A password's grade.
#[derive(Debug, PartialEq, Eq, Structural)]
pub enum PasswordStrength {
    Weak,
    Medium,
    Strong,
}

/// The grading rule: long passwords with every character class are
/// strong; long ones with lowercase and digits are medium; the rest are
/// weak.
pub open spec fn spec_strength(s: &str) -> PasswordStrength {
    let long = s.spec_bytes().len() >= 8;
    let upper = exists|i: int| 0 <= i < s@.len() && is_upper_char(#[trigger] s@[i]);
    let lower = exists|i: int| 0 <= i < s@.len() && is_lower_char(#[trigger] s@[i]);
    let digit = exists|i: int| 0 <= i < s@.len() && is_numeric_char(#[trigger] s@[i]);
    let special = exists|i: int| 0 <= i < s@.len() && !is_alnum_char(#[trigger] s@[i]);
    if long && upper && lower && digit && special {
        PasswordStrength::Strong
    } else if long && lower && digit {
        PasswordStrength::Medium
    } else {
        PasswordStrength::Weak
    }
}

/// Grades a password by length and the character classes it uses.
pub fn password_strength(password: &str) -> (r: PasswordStrength)
    ensures
        r == spec_strength(password),
{
    let cs = chars_of(password);
    let bytes = password.as_bytes();
    let long = bytes.len() >= 8;
    let has_upper = any_upper(&cs);
    let has_lower = any_lower(&cs);
    let has_digit = any_numeric(&cs);
    let has_special = any_special(&cs);
    if long && has_upper && has_lower && has_digit && has_special {
        PasswordStrength::Strong
    } else if long && has_lower && has_digit {
        PasswordStrength::Medium
    } else {
        PasswordStrength::Weak
    }
}

} // verus!
