//! The identifiers the ledger hands out: account numbers, transaction
//! identifiers and references, each cut from a random UUID.
use vstd::prelude::*;
use crate::text::{chars_of, text_from_chars};

verus! {

/// The lowercase hexadecimal digit for `d` (`0 <= d < 16`).
pub open spec fn hex_digit(d: u8) -> char {
    if d < 10 {
        (48 + d) as char
    } else {
        (87 + d) as char
    }
}

/// Two lowercase hexadecimal digits per byte, most significant first.
pub open spec fn hex_bytes(b: Seq<u8>) -> Seq<char>
    decreases b.len(),
{
    if b.len() == 0 {
        Seq::empty()
    } else {
        hex_bytes(b.drop_last()) + seq![hex_digit(b.last() / 16), hex_digit(b.last() % 16)]
    }
}

/// The hyphenated text of a UUID's 16 bytes: lowercase hex in groups of
/// 8-4-4-4-12 digits joined by `-`.
pub open spec fn hyphenated(b: Seq<u8>) -> Seq<char> {
    hex_bytes(b.subrange(0, 4)) + seq!['-'] + hex_bytes(b.subrange(4, 6)) + seq!['-']
        + hex_bytes(b.subrange(6, 8)) + seq!['-'] + hex_bytes(b.subrange(8, 10)) + seq!['-']
        + hex_bytes(b.subrange(10, 16))
}

/// Random UUID bytes.
///
/// Trusted: calls uuid's `Uuid::new_v4()` and hands back `into_bytes()`.
/// The bytes are random; the crate masks in the version (high nibble of
/// byte 6 is 4) and the variant (top bits of byte 8 are `10`), which is all
/// that is stated. The call panics if the system's random source fails.
#[verifier::external_body]
pub(crate) fn fresh_uuid() -> (b: [u8; 16])
    ensures
        0x40 <= b@[6] < 0x50,
        0x80 <= b@[8] < 0xc0,
{
    uuid::Uuid::new_v4().into_bytes()
}

/// The text of a UUID.
///
/// Trusted: calls uuid's `Display` (`to_string`) on `Uuid::from_bytes(bytes)`,
/// which writes the hyphenated lowercase form (see [`hyphenated`]).
#[verifier::external_body]
fn uuid_text(bytes: [u8; 16]) -> (s: String)
    ensures
        s@ == hyphenated(bytes@),
{
    uuid::Uuid::from_bytes(bytes).to_string()
}

/// `s` with every `-` removed.
pub open spec fn without_hyphens(s: Seq<char>) -> Seq<char>
    decreases s.len(),
{
    if s.len() == 0 {
        Seq::empty()
    } else if s.last() == '-' {
        without_hyphens(s.drop_last())
    } else {
        without_hyphens(s.drop_last()).push(s.last())
    }
}

/// The uppercase form of an ASCII letter; other characters unchanged.
pub open spec fn upper(c: char) -> char {
    if 'a' <= c && c <= 'z' {
        ((c as int) - 32) as char
    } else {
        c
    }
}

/// `s` with its ASCII letters in uppercase.
pub open spec fn upper_text(s: Seq<char>) -> Seq<char> {
    s.map_values(|c: char| upper(c))
}

/// The account number cut from UUID bytes `b`: `ACC` and the first ten hex
/// digits of the UUID's text, hyphens removed, in uppercase.
pub open spec fn account_number_for(b: Seq<u8>) -> Seq<char> {
    "ACC"@ + upper_text(without_hyphens(hyphenated(b)).take(10))
}

/// The transaction identifier cut from UUID bytes `b`: `TXN` and the first
/// twelve hex digits of the UUID's text, hyphens removed, in uppercase.
pub open spec fn transaction_id_for(b: Seq<u8>) -> Seq<char> {
    "TXN"@ + upper_text(without_hyphens(hyphenated(b)).take(12))
}

/// The transaction reference cut from UUID bytes `b`: `REF` and the first
/// eight characters of the UUID's text, in uppercase.
pub open spec fn reference_for(b: Seq<u8>) -> Seq<char> {
    "REF"@ + upper_text(hyphenated(b).take(8))
}

proof fn lemma_hex_bytes_len(b: Seq<u8>)
    ensures
        hex_bytes(b).len() == 2 * b.len(),
    decreases b.len(),
{
    if b.len() > 0 {
        lemma_hex_bytes_len(b.drop_last());
    }
}

proof fn lemma_without_hyphens_append(s: Seq<char>, t: Seq<char>)
    ensures
        without_hyphens(s + t) == without_hyphens(s) + without_hyphens(t),
    decreases t.len(),
{
    if t.len() == 0 {
        assert(s + t == s);
    } else {
        lemma_without_hyphens_append(s, t.drop_last());
        assert((s + t).drop_last() == s + t.drop_last());
    }
}

proof fn lemma_hex_has_no_hyphen(b: Seq<u8>)
    ensures
        without_hyphens(hex_bytes(b)) == hex_bytes(b),
    decreases b.len(),
{
    if b.len() > 0 {
        let pair = seq![hex_digit(b.last() / 16), hex_digit(b.last() % 16)];
        lemma_hex_has_no_hyphen(b.drop_last());
        lemma_without_hyphens_append(hex_bytes(b.drop_last()), pair);
        let first = seq![hex_digit(b.last() / 16)];
        assert(pair.drop_last() == first);
        assert(first.drop_last() == Seq::<char>::empty());
        assert(hex_digit(b.last() / 16) != '-');
        assert(hex_digit(b.last() % 16) != '-');
        assert(without_hyphens(Seq::<char>::empty()) == Seq::<char>::empty());
        assert(without_hyphens(first) == first) by {
            assert(Seq::<char>::empty().push(first.last()) == first);
        }
        assert(without_hyphens(pair) == pair) by {
            assert(first.push(pair.last()) == pair);
        }
    }
}

/// The hyphen-free text of a UUID is its 32 hex digits.
proof fn lemma_plain_uuid_text(b: Seq<u8>)
    requires
        b.len() == 16,
    ensures
        without_hyphens(hyphenated(b)).len() == 32,
        without_hyphens(hyphenated(b)) == hex_bytes(b.subrange(0, 4)) + hex_bytes(b.subrange(4, 6))
            + hex_bytes(b.subrange(6, 8)) + hex_bytes(b.subrange(8, 10)) + hex_bytes(
            b.subrange(10, 16),
        ),
{
    let h0 = hex_bytes(b.subrange(0, 4));
    let h1 = hex_bytes(b.subrange(4, 6));
    let h2 = hex_bytes(b.subrange(6, 8));
    let h3 = hex_bytes(b.subrange(8, 10));
    let h4 = hex_bytes(b.subrange(10, 16));
    let d = seq!['-'];
    assert(without_hyphens(d) == Seq::<char>::empty()) by {
        assert(d.drop_last() == Seq::<char>::empty());
        assert(d.last() == '-');
        assert(without_hyphens(Seq::<char>::empty()) == Seq::<char>::empty());
    }
    lemma_hex_has_no_hyphen(b.subrange(0, 4));
    lemma_hex_has_no_hyphen(b.subrange(4, 6));
    lemma_hex_has_no_hyphen(b.subrange(6, 8));
    lemma_hex_has_no_hyphen(b.subrange(8, 10));
    lemma_hex_has_no_hyphen(b.subrange(10, 16));
    lemma_hex_bytes_len(b.subrange(0, 4));
    lemma_hex_bytes_len(b.subrange(4, 6));
    lemma_hex_bytes_len(b.subrange(6, 8));
    lemma_hex_bytes_len(b.subrange(8, 10));
    lemma_hex_bytes_len(b.subrange(10, 16));
    lemma_without_hyphens_append(h0, d);
    lemma_without_hyphens_append(h0 + d, h1);
    lemma_without_hyphens_append(h0 + d + h1, d);
    lemma_without_hyphens_append(h0 + d + h1 + d, h2);
    lemma_without_hyphens_append(h0 + d + h1 + d + h2, d);
    lemma_without_hyphens_append(h0 + d + h1 + d + h2 + d, h3);
    lemma_without_hyphens_append(h0 + d + h1 + d + h2 + d + h3, d);
    lemma_without_hyphens_append(h0 + d + h1 + d + h2 + d + h3 + d, h4);
}

proof fn lemma_hex_bytes_append(x: Seq<u8>, y: Seq<u8>)
    ensures
        hex_bytes(x + y) == hex_bytes(x) + hex_bytes(y),
    decreases y.len(),
{
    if y.len() == 0 {
        assert(x + y == x);
    } else {
        lemma_hex_bytes_append(x, y.drop_last());
        assert((x + y).drop_last() == x + y.drop_last());
    }
}

proof fn lemma_hex_bytes_take(b: Seq<u8>, k: int)
    requires
        0 <= k <= b.len(),
    ensures
        hex_bytes(b).take(2 * k) == hex_bytes(b.take(k)),
{
    assert(b == b.take(k) + b.skip(k));
    lemma_hex_bytes_append(b.take(k), b.skip(k));
    lemma_hex_bytes_len(b.take(k));
}

/// With its hyphens removed, the text of a UUID is the hex of its bytes.
proof fn lemma_plain_uuid_is_hex(b: Seq<u8>)
    requires
        b.len() == 16,
    ensures
        without_hyphens(hyphenated(b)) == hex_bytes(b),
{
    lemma_plain_uuid_text(b);
    let p0 = b.subrange(0, 4);
    let p1 = b.subrange(4, 6);
    let p2 = b.subrange(6, 8);
    let p3 = b.subrange(8, 10);
    let p4 = b.subrange(10, 16);
    lemma_hex_bytes_append(p0, p1);
    lemma_hex_bytes_append(p0 + p1, p2);
    lemma_hex_bytes_append(p0 + p1 + p2, p3);
    lemma_hex_bytes_append(p0 + p1 + p2 + p3, p4);
    assert(p0 + p1 + p2 + p3 + p4 == b);
}

/// The generated identifiers in terms of the UUID's bytes: an account number
/// is `ACC` and the first five bytes in uppercase hex (13 characters), a
/// transaction identifier `TXN` and the first six (15 characters), a
/// reference `REF` and the first four (11 characters).
pub proof fn law_identifier_shapes(b: Seq<u8>)
    requires
        b.len() == 16,
    ensures
        account_number_for(b) == "ACC"@ + upper_text(hex_bytes(b.take(5))),
        transaction_id_for(b) == "TXN"@ + upper_text(hex_bytes(b.take(6))),
        reference_for(b) == "REF"@ + upper_text(hex_bytes(b.take(4))),
        account_number_for(b).len() == 13,
        transaction_id_for(b).len() == 15,
        reference_for(b).len() == 11,
{
    reveal_strlit("ACC");
    reveal_strlit("TXN");
    reveal_strlit("REF");
    lemma_plain_uuid_is_hex(b);
    lemma_hex_bytes_take(b, 5);
    lemma_hex_bytes_take(b, 6);
    lemma_hex_bytes_take(b, 4);
    lemma_hex_bytes_len(b.take(5));
    lemma_hex_bytes_len(b.take(6));
    lemma_hex_bytes_len(b.take(4));
    let p0 = b.subrange(0, 4);
    assert(p0 == b.take(4));
    lemma_hex_bytes_len(p0);
    assert(hyphenated(b).take(8) == hex_bytes(p0));
}

/// The hyphenated text of a UUID is 36 characters long.
proof fn lemma_uuid_text_len(b: Seq<u8>)
    requires
        b.len() == 16,
    ensures
        hyphenated(b).len() == 36,
{
    lemma_hex_bytes_len(b.subrange(0, 4));
    lemma_hex_bytes_len(b.subrange(4, 6));
    lemma_hex_bytes_len(b.subrange(6, 8));
    lemma_hex_bytes_len(b.subrange(8, 10));
    lemma_hex_bytes_len(b.subrange(10, 16));
}

fn strip_hyphens(s: &Vec<char>) -> (r: Vec<char>)
    ensures
        r@ == without_hyphens(s@),
{
    let mut r: Vec<char> = Vec::new();
    let mut i: usize = 0;
    while i < s.len()
        invariant
            i <= s.len(),
            r@ == without_hyphens(s@.take(i as int)),
        decreases s.len() - i,
    {
        assert(s@.take(i + 1).drop_last() == s@.take(i as int));
        if s[i] != '-' {
            r.push(s[i]);
        }
        i = i + 1;
    }
    assert(s@.take(s.len() as int) == s@);
    r
}

fn upper_char(c: char) -> (u: char)
    ensures
        u == upper(c),
{
    if 'a' <= c && c <= 'z' {
        let b: u8 = ((c as u32) - 32) as u8;
        b as char
    } else {
        c
    }
}

fn upper_prefix(s: &Vec<char>, n: usize) -> (r: Vec<char>)
    requires
        n <= s.len(),
    ensures
        r@ == upper_text(s@.take(n as int)),
{
    let mut r: Vec<char> = Vec::new();
    let mut i: usize = 0;
    while i < n
        invariant
            i <= n <= s.len(),
            r@ == upper_text(s@.take(i as int)),
        decreases n - i,
    {
        let u = upper_char(s[i]);
        r.push(u);
        assert(upper_text(s@.take(i + 1)) == upper_text(s@.take(i as int)).push(u));
        i = i + 1;
    }
    r
}

fn prefixed(prefix: &str, body: &Vec<char>) -> (s: String)
    ensures
        s@ == prefix@ + body@,
{
    let mut s = String::from_str(prefix);
    let tail = text_from_chars(body);
    s.append(tail.as_str());
    s
}

/// The account number for UUID bytes `bytes` (see [`account_number_for`]).
pub fn account_number_from_uuid(bytes: [u8; 16]) -> (s: String)
    ensures
        s@ == account_number_for(bytes@),
{
    let text = uuid_text(bytes);
    let plain = strip_hyphens(&chars_of(text.as_str()));
    proof {
        lemma_plain_uuid_text(bytes@);
    }
    prefixed("ACC", &upper_prefix(&plain, 10))
}

/// The transaction identifier for UUID bytes `bytes` (see
/// [`transaction_id_for`]).
pub fn transaction_id_from_uuid(bytes: [u8; 16]) -> (s: String)
    ensures
        s@ == transaction_id_for(bytes@),
{
    let text = uuid_text(bytes);
    let plain = strip_hyphens(&chars_of(text.as_str()));
    proof {
        lemma_plain_uuid_text(bytes@);
    }
    prefixed("TXN", &upper_prefix(&plain, 12))
}

/// The transaction reference for UUID bytes `bytes` (see [`reference_for`]).
pub fn reference_from_uuid(bytes: [u8; 16]) -> (s: String)
    ensures
        s@ == reference_for(bytes@),
{
    let text = uuid_text(bytes);
    let chars = chars_of(text.as_str());
    proof {
        lemma_uuid_text_len(bytes@);
    }
    prefixed("REF", &upper_prefix(&chars, 8))
}

} // verus!
