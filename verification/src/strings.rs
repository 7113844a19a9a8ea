//! Small string utilities around ownership and borrowing.

use vstd::prelude::*;
use vstd::string::StringExecFns;
use vstd::utf8::encode_utf8;

verus! {

/// The length of the string, counted in bytes of its UTF-8 encoding.
pub fn calculate_length(s: &String) -> (r: usize)
    ensures
        r == encode_utf8(s@).len(),
{
    s.as_str().as_bytes().len()
}

/// Greets back: appends ", Neo!" to the string.
pub fn change(s: &mut String)
    ensures
        final(s)@ == old(s)@ + ", Neo!"@,
{
    s.append(", Neo!");
}

/// Appends ", Neo!" through the one permitted mutable borrow.
pub fn change2(s: &mut String)
    ensures
        final(s)@ == old(s)@ + ", Neo!"@,
{
    s.append(", Neo!");
}

/// Hands a freshly made string out to the caller.
pub fn gives_ownership() -> (r: String)
    ensures
        r@ == "yours"@,
{
    "yours".to_owned()
}

/// Takes ownership of a string and gives the very same string back.
pub fn takes_and_gives_back(a_string: String) -> (r: String)
    ensures
        r == a_string,
{
    a_string
}

} // verus!
