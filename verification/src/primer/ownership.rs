//! Strings that change hands.

use vstd::prelude::*;

verus! {

/// Makes a greeting and hands it to the caller.
pub fn gives_ownership() -> (greeting: String)
    ensures
        greeting@ == "Hello"@,
{
    let some_string = "Hello".to_owned();
    some_string
}

/// Takes a string and hands the same string back.
pub fn takes_and_gives_back(some_string: String) -> (back: String)
    ensures
        back == some_string,
{
    some_string
}

} // verus!
