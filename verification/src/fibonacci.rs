//! Fibonacci numbers of any size, computed on `num_bigint::BigUint`.

use vstd::prelude::*;
use num_bigint::BigUint;
use crate::text::{decimal_text, last_chars, last_of};

verus! {

/// `num_bigint::BigUint`, declared so that it can stand in signatures.
/// Nothing inside a value is visible here: what it holds goes by the name
/// `big_value`, and only the trusted functions below say anything of it.
#[verifier::external_type_specification]
#[verifier::external_body]
pub struct ExBigUint(BigUint);

/// The natural number that a `BigUint` holds. It has no definition: each
/// trusted function below states what the number of its result is.
pub uninterp spec fn big_value(number: BigUint) -> nat;

/// The Fibonacci sequence: 0, 1, and from there on the sum of the two
/// numbers before.
pub open spec fn fib(n: nat) -> nat
    decreases n,
{
    if n == 0 {
        0
    } else if n == 1 {
        1
    } else {
        fib((n - 2) as nat) + fib((n - 1) as nat)
    }
}

/// `num_traits::Zero::zero` for `BigUint`: the number 0.
#[verifier::external_body]
fn big_zero() -> (zero: BigUint)
    ensures
        big_value(zero) == 0,
{
    num_traits::Zero::zero()
}

/// `num_traits::One::one` for `BigUint`: the number 1.
#[verifier::external_body]
fn big_one() -> (one: BigUint)
    ensures
        big_value(one) == 1,
{
    num_traits::One::one()
}

/// `&BigUint + &BigUint`: the sum of the two numbers, which has no upper
/// limit and so never overflows.
#[verifier::external_body]
fn big_sum(left: &BigUint, right: &BigUint) -> (sum: BigUint)
    ensures
        big_value(sum) == big_value(*left) + big_value(*right),
{
    left + right
}

/// The `n`th Fibonacci number, by iteration from the first two.
pub fn fibonacci_big(n: u64) -> (number: BigUint)
    ensures
        big_value(number) == fib(n as nat),
{
    if n == 0 {
        return big_zero();
    } else if n == 1 {
        return big_one();
    }
    let mut a: BigUint = big_zero();
    let mut b: BigUint = big_one();
    let mut i: u64 = 1;
    while i < n
        invariant
            1 <= i <= n,
            big_value(a) == fib((i - 1) as nat),
            big_value(b) == fib(i as nat),
        decreases n - i,
    {
        let c = big_sum(&a, &b);
        a = b;
        b = c;
        i = i + 1;
    }
    b
}

/// `BigUint::to_str_radix` with a radix of ten: the decimal digits of the
/// number, most significant first, with no zero in front, and `0` for
/// the number 0.
#[verifier::external_body]
fn big_decimal(number: &BigUint) -> (text: String)
    ensures
        text@ == decimal_text(big_value(*number)),
{
    number.to_str_radix(10)
}

/// The last `count` decimal digits of `number`, or all of them where it
/// has no more than that.
pub fn last_digits(number: &BigUint, count: usize) -> (digits: String)
    ensures
        digits@ == last_of(decimal_text(big_value(*number)), count as nat),
{
    let text = big_decimal(number);
    last_chars(text.as_str(), count).to_owned()
}

} // verus!
