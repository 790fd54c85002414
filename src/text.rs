use vstd::prelude::*;

verus! {

/// Relies on `str::chars` collected into a `Vec`: the characters of `s` in order.
/// A `Vec<char>` holds at most `isize::MAX` bytes, four to a character.
#[verifier::external_body]
pub fn chars_of(s: &str) -> (r: Vec<char>)
    ensures
        r@ == s@,
        r@.len() * 4 <= isize::MAX,
{
    s.chars().collect()
}

/// Relies on collecting characters into a `String`: the same characters in order.
#[verifier::external_body]
pub fn string_of(v: &Vec<char>) -> (r: String)
    ensures
        r@ == v@,
{
    v.iter().collect()
}

} // verus!
