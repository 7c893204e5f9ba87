//! Moving between `String`s and the sequences of characters they hold.
use vstd::prelude::*;

verus! {

/// Builds a `String` out of characters, in order.
///
/// Trusted: calls std's `FromIterator<char>` for `String` (`collect`), which
/// appends each character in turn, so the text is exactly `chars`.
#[verifier::external_body]
pub(crate) fn text_from_chars(chars: &Vec<char>) -> (s: String)
    ensures
        s@ == chars@,
{
    chars.iter().collect()
}

/// The characters of a text, in order.
pub fn chars_of(s: &str) -> (v: Vec<char>)
    ensures
        v@ == s@,
{
    let n = s.unicode_len();
    let mut v: Vec<char> = Vec::new();
    let mut i: usize = 0;
    while i < n
        invariant
            n == s@.len(),
            i <= n,
            v@ == s@.take(i as int),
        decreases n - i,
    {
        let c = s.get_char(i);
        v.push(c);
        assert(s@.take(i + 1) == s@.take(i as int).push(c));
        i = i + 1;
    }
    assert(s@.take(n as int) == s@);
    v
}

} // verus!
