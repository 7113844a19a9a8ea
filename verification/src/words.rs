//! The first word of a string, as a byte index into its encoding.

use vstd::prelude::*;
use vstd::slice::slice_index_get;
use vstd::utf8::encode_utf8;

use crate::framer::{lemma_prefix_until_is_first, prefix_until};

verus! {

/// The byte length of the first word of `s`: the index of the first space
/// in its UTF-8 bytes, or the length of the whole string when no space
/// occurs.  (The index counts bytes, so it indexes the encoding, not the
/// characters.)
pub fn first_word(s: &String) -> (r: usize)
    ensures
        r == prefix_until(encode_utf8(s@), 32u8),
{
    let bytes: &[u8] = s.as_str().as_bytes();
    assert(bytes@ == encode_utf8(s@));
    let mut i: usize = 0;
    while i < bytes.len()
        invariant
            0 <= i <= bytes@.len(),
            bytes@ == encode_utf8(s@),
            forall|m: int| 0 <= m < i ==> bytes@[m] != 32u8,
        decreases bytes@.len() - i,
    {
        if *slice_index_get(bytes, i) == 32 {
            proof {
                lemma_prefix_until_is_first(bytes@, 32u8, i as int);
            }
            return i;
        }
        i = i + 1;
    }
    proof {
        lemma_prefix_until_is_first(bytes@, 32u8, i as int);
    }
    i
}

} // verus!
