//! Fallible operations with exact error contracts: user validation,
//! searching, registration with a verified decimal parser, and a mock
//! network request.

use crate::strings::chars_of;
use crate::strings::contains_char;
use crate::strings::contains_seq;
use crate::strings::contains_sub;
use crate::strings::matches_at;
use crate::strings::starts_with_chars;
use vstd::prelude::*;

verus! {

/// Why a user record was rejected.
#[derive(Debug, PartialEq, Eq, Structural)]
pub enum UserValidationError {
    EmptyName,
    InvalidAge,
    TooYoung,
}

/// A validated user record.
#[derive(Debug, PartialEq)]
pub struct ValidatedUser {
    pub name: String,
    pub age: u32,
}

/// Accepts a user with a non-empty name and an age of at least eighteen.
pub fn validate_user(name: &str, age: u32) -> (r: Result<ValidatedUser, UserValidationError>)
    ensures
        name@.len() == 0 ==> r == Err::<ValidatedUser, UserValidationError>(
            UserValidationError::EmptyName,
        ),
        name@.len() > 0 && age < 18 ==> r == Err::<ValidatedUser, UserValidationError>(
            UserValidationError::TooYoung,
        ),
        name@.len() > 0 && age >= 18 ==> (r matches Ok(u) && u.name@ == name@ && u.age
            == age),
{
    if name.is_empty() {
        return Err(UserValidationError::EmptyName);
    }
    if age < 18 {
        return Err(UserValidationError::TooYoung);
    }
    Ok(ValidatedUser { name: name.to_owned(), age })
}

/// The first occurrence of `target`, as a value: `Some(target)` exactly
/// when the slice holds it.
pub fn find_number(numbers: &[i32], target: i32) -> (r: Option<i32>)
    ensures
        numbers@.contains(target) ==> r == Some(target),
        !numbers@.contains(target) ==> r is None,
{
    let n = numbers.len();
    let mut i: usize = 0;
    while i < n
        invariant
            i <= n,
            n == numbers@.len(),
            forall|j: int| 0 <= j < i ==> numbers@[j] != target,
        decreases n - i,
    {
        if numbers[i] == target {
            return Some(numbers[i]);
        }
        i = i + 1;
    }
    None
}

/// A digit character.
pub open spec fn is_digit(c: char) -> bool {
    48 <= c as u32 <= 57
}

/// The numeric value of a digit string, most significant digit first.
pub open spec fn digits_value(s: Seq<char>) -> nat
    decreases s.len(),
{
    if s.len() == 0 {
        0
    } else {
        digits_value(s.drop_last()) * 10 + (s.last() as u32 - 48) as nat
    }
}

/// The digit part of a decimal string: everything after an optional
/// leading plus sign.
pub open spec fn digit_part(s: Seq<char>) -> Seq<char> {
    if s.len() > 0 && s[0] == '+' {
        s.drop_first()
    } else {
        s
    }
}

/// A well-formed `u32` literal: an optional plus sign, then one or more
/// digits, with a value in range.
pub open spec fn valid_u32_literal(s: Seq<char>) -> bool {
    let d = digit_part(s);
    &&& d.len() > 0
    &&& forall|i: int| 0 <= i < d.len() ==> is_digit(#[trigger] d[i])
    &&& digits_value(d) <= u32::MAX
}

/// Parses a decimal `u32`: `Some` exactly on well-formed literals whose
/// value fits.
pub fn parse_u32(s: &str) -> (r: Option<u32>)
    ensures
        valid_u32_literal(s@) ==> r == Some(digits_value(digit_part(s@)) as u32),
        !valid_u32_literal(s@) ==> r is None,
{
    let cs = chars_of(s);
    let n = cs.len();
    let start: usize = if n > 0 && cs[0] == '+' {
        1
    } else {
        0
    };
    let ghost d = digit_part(s@);
    proof {
        assert(d =~= s@.subrange(start as int, n as int));
        assert(d.take(0) =~= Seq::<char>::empty());
    }
    if start >= n {
        return None;
    }
    let mut value: u32 = 0;
    let mut i: usize = start;
    while i < n
        invariant
            start <= i <= n,
            n == cs@.len(),
            cs@ == s@,
            d == digit_part(s@),
            d =~= s@.subrange(start as int, n as int),
            forall|k: int| 0 <= k < i - start ==> is_digit(#[trigger] d[k]),
            value == digits_value(d.take(i - start)),
            digits_value(d.take(i - start)) <= u32::MAX,
        decreases n - i,
    {
        let c = cs[i];
        let code = c as u32;
        if code < 48 || code > 57 {
            proof {
                assert(d[i - start] == s@[i as int]);
                assert(!is_digit(d[i - start]));
            }
            return None;
        }
        let digit = code - 48;
        let ghost before = d.take(i - start);
        proof {
            let now = d.take(i + 1 - start);
            assert(now.drop_last() =~= before);
            assert(now.last() == d[i - start]);
            assert(d[i - start] == s@[i as int]);
        }
        if value > (u32::MAX - digit) / 10 {
            proof {
                lemma_digits_value_monotonic(d, i + 1 - start);
                assert(digits_value(d.take(i + 1 - start)) > u32::MAX) by (nonlinear_arith)
                    requires
                        digits_value(d.take(i + 1 - start)) == digits_value(d.take(i - start))
                            * 10 + digit,
                        digits_value(d.take(i - start)) == value,
                        value > (u32::MAX - digit) / 10,
                        0 <= digit <= 9,
                        u32::MAX == 4294967295,
                ;
            }
            return None;
        }
        proof {
            assert(value * 10 + digit <= u32::MAX) by (nonlinear_arith)
                requires
                    value <= (u32::MAX - digit) / 10,
                    0 <= digit <= 9,
                    0 <= value,
                    u32::MAX == 4294967295,
            ;
        }
        value = value * 10 + digit;
        i = i + 1;
    }
    proof {
        assert(d.take(n - start) =~= d);
    }
    Some(value)
}

/// Once some prefix of the digits exceeds `u32::MAX`, every longer
/// prefix does too.
proof fn lemma_digits_value_monotonic(d: Seq<char>, from: int)
    requires
        0 <= from <= d.len(),
    ensures
        forall|k: int|
            from <= k <= d.len() ==> digits_value(#[trigger] d.take(k)) >= digits_value(
                d.take(from),
            ),
    decreases d.len() - from,
{
    if from < d.len() {
        lemma_digits_value_monotonic(d, from + 1);
        let a = d.take(from);
        let b = d.take(from + 1);
        assert(b.drop_last() =~= a);
        let x = (b.last() as u32 - 48) as nat;
        assert(digits_value(b) >= digits_value(a)) by (nonlinear_arith)
            requires
                digits_value(b) == digits_value(a) * 10 + x,
                digits_value(a) >= 0,
                x >= 0,
        ;
    }
}

/// Why a registration was rejected.
#[derive(Debug, PartialEq, Eq, Structural)]
pub enum RegistrationError {
    InvalidAge,
    InvalidEmail,
    UserTooYoung,
}

/// A completed registration.
#[derive(Debug, PartialEq)]
pub struct RegisteredUser {
    pub name: String,
    pub age: u32,
    pub email: String,
}

/// Registers a user: the age must be a decimal number of at least 18,
/// and the e-mail must contain `@` and a dot. Checked in that order.
pub fn process_user_registration(name: &str, age_str: &str, email: &str) -> (r: Result<
    RegisteredUser,
    RegistrationError,
>)
    ensures
        !valid_u32_literal(age_str@) ==> r == Err::<RegisteredUser, RegistrationError>(
            RegistrationError::InvalidAge,
        ),
        valid_u32_literal(age_str@) && digits_value(digit_part(age_str@)) < 18 ==> r
            == Err::<RegisteredUser, RegistrationError>(RegistrationError::UserTooYoung),
        valid_u32_literal(age_str@) && digits_value(digit_part(age_str@)) >= 18 && !(
        email@.contains('@') && email@.contains('.')) ==> r == Err::<
            RegisteredUser,
            RegistrationError,
        >(RegistrationError::InvalidEmail),
        valid_u32_literal(age_str@) && digits_value(digit_part(age_str@)) >= 18 && (
        email@.contains('@') && email@.contains('.')) ==> (r matches Ok(u) && u.name@
            == name@ && u.age == digits_value(digit_part(age_str@)) && u.email@ == email@),
{
    let age: u32 = match crate::errors::parse_u32(age_str) {
        Some(v) => v,
        None => {
            return Err(RegistrationError::InvalidAge);
        },
    };
    if age < 18 {
        return Err(RegistrationError::UserTooYoung);
    }
    let ecs = chars_of(email);
    if !(contains_char(&ecs, '@') && contains_char(&ecs, '.')) {
        return Err(RegistrationError::InvalidEmail);
    }
    Ok(RegisteredUser { name: name.to_owned(), age, email: email.to_owned() })
}

/// Why a mock request failed.
#[derive(Debug, PartialEq, Eq, Structural)]
pub enum NetworkError {
    InvalidUrl,
    ConnectionTimeout,
    ServerError(u16),
}

/// Simulates a network request: the URL must start with `https://`;
/// URLs mentioning `invalid` time out; URLs mentioning `posts` hit a
/// server error; anything else succeeds.
pub fn simulate_network_request(url: &str) -> (r: Result<String, NetworkError>)
    ensures
        !matches_at(url@, "https://"@, 0) ==> r == Err::<String, NetworkError>(
            NetworkError::InvalidUrl,
        ),
        matches_at(url@, "https://"@, 0) && contains_seq(url@, "invalid"@) ==> r == Err::<
            String,
            NetworkError,
        >(NetworkError::ConnectionTimeout),
        matches_at(url@, "https://"@, 0) && !contains_seq(url@, "invalid"@) && contains_seq(
            url@,
            "posts"@,
        ) ==> r == Err::<String, NetworkError>(NetworkError::ServerError(500)),
        matches_at(url@, "https://"@, 0) && !contains_seq(url@, "invalid"@)
            && !contains_seq(url@, "posts"@) ==> (r matches Ok(body) && body@
            == "请求成功"@),
{
    let cs = chars_of(url);
    let scheme = chars_of("https://");
    if !starts_with_chars(&cs, &scheme) {
        return Err(NetworkError::InvalidUrl);
    }
    let invalid = chars_of("invalid");
    if contains_sub(&cs, &invalid) {
        return Err(NetworkError::ConnectionTimeout);
    }
    let posts = chars_of("posts");
    if contains_sub(&cs, &posts) {
        return Err(NetworkError::ServerError(500));
    }
    Ok(String::from_str("请求成功"))
}

} // verus!
