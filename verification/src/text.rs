//! Conversions between `String`/`&str` and `Vec<char>`, used by the JSON
//! writer and reader, which work on character vectors.

use vstd::prelude::*;

verus! {

/// Relies on str::chars together with Iterator::collect: the collected
/// vector holds exactly the characters of the string, in order.
#[verifier::external_body]
pub fn str_chars(s: &str) -> (r: Vec<char>)
    ensures
        r@ == s@,
{
    s.chars().collect()
}

/// Relies on String::from_iter over a character iterator: the resulting
/// string holds exactly the given characters, in order.
#[verifier::external_body]
pub fn chars_string(v: &Vec<char>) -> (r: String)
    ensures
        r@ == v@,
{
    v.iter().collect()
}

} // verus!
