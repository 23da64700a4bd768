//! Functions that return a value: a constant, and a successor.

use vstd::prelude::*;

verus! {

/// The number of seconds in a minute.
pub const SECONDS_IN_MINUTE: u32 = 60;

/// The number five.
pub fn returns_five() -> (five: i32)
    ensures
        five == 5,
{
    5
}

/// The integer after `x`. The largest `i32` has none.
pub fn plus_one(x: i32) -> (next: i32)
    requires
        x < i32::MAX,
    ensures
        next == x + 1,
{
    x + 1
}

/// The first of 4, 3 and 2 that divides `number`, if one of them does.
pub open spec fn first_divisor_of(number: int) -> Option<int> {
    if number % 4 == 0 {
        Some(4)
    } else if number % 3 == 0 {
        Some(3)
    } else if number % 2 == 0 {
        Some(2)
    } else {
        None
    }
}

/// The first of 4, 3 and 2 that divides `number`, if one of them does.
pub fn first_divisor(number: i32) -> (divisor: Option<i32>)
    ensures
        divisor is Some <==> first_divisor_of(number as int) is Some,
        divisor is Some ==> divisor->0 == first_divisor_of(number as int)->0,
{
    if number % 4 == 0 {
        Some(4)
    } else if number % 3 == 0 {
        Some(3)
    } else if number % 2 == 0 {
        Some(2)
    } else {
        None
    }
}

} // verus!
