//! Turning the characters that the library computes into a `String`.
use vstd::prelude::*;

verus! {

/// Relies on `String`'s `FromIterator<char>`: collecting characters yields
/// a string that holds exactly those characters, in order.
#[verifier::external_body]
pub(crate) fn string_of(chars: &Vec<char>) -> (r: String)
    ensures
        r@ == chars@,
{
    chars.iter().collect()
}

} // verus!
