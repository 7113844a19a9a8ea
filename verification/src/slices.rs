//! The first word of a string, as a borrowed slice of it.

use vstd::prelude::*;
use vstd::string::StrSliceExecFns;

use crate::framer::{lemma_prefix_until_is_first, prefix_until};

verus! {

/// The first word of `s`: its characters up to the first space, or the
/// whole string when no space occurs.
pub fn first_word(s: &String) -> (r: &str)
    ensures
        r@ == s@.subrange(0, prefix_until(s@, ' ')),
{
    let text: &str = s.as_str();
    let n: usize = text.unicode_len();
    let mut i: usize = 0;
    while i < n
        invariant
            0 <= i <= n,
            n == text@.len(),
            text@ == s@,
            forall|m: int| 0 <= m < i ==> text@[m] != ' ',
        decreases n - i,
    {
        if text.get_char(i) == ' ' {
            proof {
                lemma_prefix_until_is_first(s@, ' ', i as int);
            }
            return text.substring_char(0, i);
        }
        i = i + 1;
    }
    proof {
        lemma_prefix_until_is_first(s@, ' ', i as int);
    }
    text.substring_char(0, n)
}

} // verus!
