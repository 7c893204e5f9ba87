//! Measuring texts by their UTF-8 length.
use vstd::prelude::*;
use vstd::utf8::encode_utf8;

verus! {

/// Hands `s` back together with its length in bytes of UTF-8.
pub fn calculate_length(s: String) -> (r: (String, usize))
    ensures
        r.0 == s,
        r.1 == encode_utf8(s@).len() as usize,
{
    let length = s.as_str().len();
    (s, length)
}

/// The length of `b` in bytes of UTF-8.
pub fn calculate_breadth(b: &String) -> (r: usize)
    ensures
        r == encode_utf8(b@).len() as usize,
{
    b.as_str().len()
}

} // verus!
