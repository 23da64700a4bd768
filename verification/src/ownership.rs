//! Strings that move into a function and out of it again.

use vstd::prelude::*;
use vstd::utf8::encode_utf8;

verus! {

/// A new string, `yours`, which the caller owns from here on.
pub fn gives_ownership() -> (some_string: String)
    ensures
        some_string@ == "yours"@,
{
    let some_string = "yours".to_owned();
    some_string
}

/// Takes a string and hands the same string back.
pub fn takes_and_gives_back(a_string: String) -> (same: String)
    ensures
        same == a_string,
{
    a_string
}

/// Hands `s` back together with its length: the number of bytes that its
/// UTF-8 encoding takes.
pub fn calculate_length(s: String) -> (measured: (String, usize))
    ensures
        measured.0 == s,
        measured.1 == encode_utf8(s@).len() as usize,
{
    let length: usize = s.as_str().len();
    (s, length)
}

} // verus!
