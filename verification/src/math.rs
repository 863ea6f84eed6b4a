//! Verified integer arithmetic helpers: the four basic operations on `i32`,
//! division with remainder, and the classic recursive functions.

use vstd::prelude::*;

verus! {

/// Truncating (round-toward-zero) division, the semantics of `/` on Rust's
/// signed integers, written over the Euclidean `/` of spec arithmetic.
pub open spec fn trunc_div(x: int, d: int) -> int {
    if x == 0 {
        0
    } else if x > 0 && d > 0 {
        x / d
    } else if x < 0 && d < 0 {
        (x * -1) / (d * -1)
    } else if x < 0 {
        ((x * -1) / d) * -1
    } else {
        (x / (d * -1)) * -1
    }
}

/// Truncating remainder, the semantics of `%` on Rust's signed integers.
pub open spec fn trunc_rem(x: int, d: int) -> int {
    if x == 0 {
        0
    } else if x > 0 && d > 0 {
        x % d
    } else if x < 0 && d < 0 {
        ((x * -1) % (d * -1)) * -1
    } else if x < 0 {
        ((x * -1) % d) * -1
    } else {
        x % (d * -1)
    }
}

/// n! as a mathematical function.
pub open spec fn spec_factorial(n: nat) -> nat
    decreases n,
{
    if n <= 1 {
        1
    } else {
        n * spec_factorial((n - 1) as nat)
    }
}

/// The Fibonacci sequence.
pub open spec fn spec_fib(n: nat) -> nat
    decreases n,
{
    if n == 0 {
        0
    } else if n == 1 {
        1
    } else {
        spec_fib((n - 2) as nat) + spec_fib((n - 1) as nat)
    }
}

pub fn add(a: i32, b: i32) -> (r: i32)
    requires
        i32::MIN <= a + b <= i32::MAX,
    ensures
        r == a + b,
{
    a + b
}

pub fn subtract(a: i32, b: i32) -> (r: i32)
    requires
        i32::MIN <= a - b <= i32::MAX,
    ensures
        r == a - b,
{
    a - b
}

pub fn multiply(a: i32, b: i32) -> (r: i32)
    requires
        i32::MIN <= a * b <= i32::MAX,
    ensures
        r == a * b,
{
    a * b
}

/// Integer division. Division by zero and the one overflowing quotient
/// (`i32::MIN / -1`) are ruled out by the precondition.
pub fn divide(a: i32, b: i32) -> (r: i32)
    requires
        b != 0,
        !(a == i32::MIN && b == -1),
    ensures
        r == trunc_div(a as int, b as int),
{
    proof {
        lemma_trunc_div_fits_i32(a as int, b as int);
    }
    match a.checked_div(b) {
        Some(q) => q,
        None => 0,  // ruled out by the precondition
    }
}

/// Quotient and remainder in one call, with Rust's truncating semantics.
pub fn divide_with_remainder(dividend: i32, divisor: i32) -> (r: (i32, i32))
    requires
        divisor != 0,
        !(dividend == i32::MIN && divisor == -1),
    ensures
        r.0 == trunc_div(dividend as int, divisor as int),
        r.1 == trunc_rem(dividend as int, divisor as int),
{
    proof {
        lemma_trunc_div_fits_i32(dividend as int, divisor as int);
        lemma_trunc_rem_fits_i32(dividend as int, divisor as int);
    }
    let q = match dividend.checked_div(divisor) {
        Some(q) => q,
        None => 0,  // ruled out by the precondition
    };
    let m = match dividend.checked_rem(divisor) {
        Some(m) => m,
        None => 0,  // ruled out by the precondition
    };
    (q, m)
}

/// For `i32` operands not excluded by `divide`'s precondition, the
/// truncating quotient stays within `i32` range.
proof fn lemma_trunc_div_fits_i32(x: int, d: int)
    requires
        i32::MIN <= x <= i32::MAX,
        i32::MIN <= d <= i32::MAX,
        d != 0,
        !(x == i32::MIN && d == -1),
    ensures
        i32::MIN <= trunc_div(x, d) <= i32::MAX,
{
    if x == 0 {
    } else if x > 0 && d > 0 {
        vstd::arithmetic::div_mod::lemma_div_pos_is_pos(x, d);
        vstd::arithmetic::div_mod::lemma_div_nonincreasing(x, d);
    } else if x < 0 && d < 0 {
        vstd::arithmetic::div_mod::lemma_div_pos_is_pos(x * -1, d * -1);
        vstd::arithmetic::div_mod::lemma_div_nonincreasing(x * -1, d * -1);
        if d == -1 {
            // then x > i32::MIN, so -x <= i32::MAX
            assert((x * -1) / 1 == x * -1) by {
                vstd::arithmetic::div_mod::lemma_div_basics(x * -1);
            }
        } else {
            assert((x * -1) / (d * -1) <= (x * -1) / 2) by {
                vstd::arithmetic::div_mod::lemma_div_is_ordered_by_denominator(x * -1, 2, d * -1);
            }
            assert((x * -1) / 2 <= (i32::MAX + 1) / 2) by {
                vstd::arithmetic::div_mod::lemma_div_is_ordered(x * -1, i32::MAX + 1, 2);
            }
        }
    } else if x < 0 {
        vstd::arithmetic::div_mod::lemma_div_pos_is_pos(x * -1, d);
        vstd::arithmetic::div_mod::lemma_div_nonincreasing(x * -1, d);
    } else {
        vstd::arithmetic::div_mod::lemma_div_pos_is_pos(x, d * -1);
        vstd::arithmetic::div_mod::lemma_div_nonincreasing(x, d * -1);
    }
}

/// Under the same conditions, the truncating remainder stays within `i32`
/// range.
proof fn lemma_trunc_rem_fits_i32(x: int, d: int)
    requires
        i32::MIN <= x <= i32::MAX,
        i32::MIN <= d <= i32::MAX,
        d != 0,
        !(x == i32::MIN && d == -1),
    ensures
        i32::MIN <= trunc_rem(x, d) <= i32::MAX,
{
    if x == 0 {
    } else if x > 0 && d > 0 {
        vstd::arithmetic::div_mod::lemma_mod_division_less_than_divisor(x, d);
    } else if x < 0 && d < 0 {
        vstd::arithmetic::div_mod::lemma_mod_division_less_than_divisor(x * -1, d * -1);
    } else if x < 0 {
        vstd::arithmetic::div_mod::lemma_mod_division_less_than_divisor(x * -1, d);
    } else {
        vstd::arithmetic::div_mod::lemma_mod_division_less_than_divisor(x, d * -1);
    }
}

/// Classifies an integer by sign.
pub fn check_positive(number: i32) -> (r: &'static str)
    ensures
        number > 0 ==> r@ == "正数"@,
        number < 0 ==> r@ == "负数"@,
        number == 0 ==> r@ == "零"@,
{
    if number > 0 {
        return "正数";
    }
    if number < 0 {
        return "负数";
    }
    "零"
}

pub fn factorial(n: u32) -> (r: u32)
    requires
        spec_factorial(n as nat) <= u32::MAX,
    ensures
        r == spec_factorial(n as nat),
    decreases n,
{
    if n <= 1 {
        1
    } else {
        proof {
            lemma_factorial_monotonic((n - 1) as nat, n as nat);
        }
        n * factorial(n - 1)
    }
}

pub fn fibonacci(n: u32) -> (r: u32)
    requires
        spec_fib(n as nat) <= u32::MAX,
    ensures
        r == spec_fib(n as nat),
    decreases n,
{
    match n {
        0 => 0,
        1 => 1,
        _ => {
            proof {
                lemma_fib_monotonic((n - 2) as nat, n as nat);
                lemma_fib_monotonic((n - 1) as nat, n as nat);
            }
            fibonacci(n - 1) + fibonacci(n - 2)
        },
    }
}

/// The factorial function never decreases as its argument grows.
pub proof fn lemma_factorial_monotonic(i: nat, j: nat)
    requires
        i <= j,
    ensures
        spec_factorial(i) <= spec_factorial(j),
    decreases j,
{
    if i < j {
        lemma_factorial_monotonic(i, (j - 1) as nat);
        assert(spec_factorial(j) == j * spec_factorial((j - 1) as nat));
        assert(1 * spec_factorial((j - 1) as nat) <= j * spec_factorial((j - 1) as nat))
            by (nonlinear_arith)
            requires
                j >= 1,
        ;
    }
}

/// The Fibonacci sequence never decreases.
pub proof fn lemma_fib_monotonic(i: nat, j: nat)
    requires
        i <= j,
    ensures
        spec_fib(i) <= spec_fib(j),
    decreases j - i,
{
    if i < 2 && j < 2 {
    } else if i == j {
    } else if i == j - 1 {
        lemma_fib_monotonic(i, (j - 1) as nat);
    } else {
        lemma_fib_monotonic(i, (j - 1) as nat);
        lemma_fib_monotonic(i, (j - 2) as nat);
    }
}

/// Applies a binary integer operation to two operands. Whatever holds of
/// every outcome of the operation holds of the result.
pub fn apply_operation<F: Fn(i32, i32) -> i32>(a: i32, b: i32, operation: F) -> (r: i32)
    requires
        call_requires(operation, (a, b)),
    ensures
        call_ensures(operation, (a, b), r),
{
    operation(a, b)
}

/// Adds one to a small integer.
pub fn plus_one_regular(x: i8) -> (r: i8)
    requires
        x < i8::MAX,
    ensures
        r == x + 1,
{
    x + 1
}

/// Adds one inside an `Option`, passing `None` through.
pub fn plus_one_option(x: Option<i8>) -> (r: Option<i8>)
    requires
        x is Some ==> x->0 < i8::MAX,
    ensures
        match x {
            None => r is None,
            Some(i) => r == Some((i + 1) as i8),
        },
{
    match x {
        None => None,
        Some(i) => Some(i + 1),
    }
}

} // verus!
