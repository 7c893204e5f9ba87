//! Writing amounts held in minor units (kobo) as naira with two decimals.
use vstd::prelude::*;

verus! {

/// The decimal digit character for `d` (`0 <= d < 10`).
pub open spec fn digit_char(d: int) -> char {
    (48 + d) as char
}

/// The decimal numeral of `n`, without leading zeros.
pub open spec fn decimal(n: nat) -> Seq<char>
    decreases n,
{
    if n < 10 {
        seq![digit_char(n as int)]
    } else {
        decimal(n / 10) + seq![digit_char((n % 10) as int)]
    }
}

/// The text of `kobo / 100` written with exactly two decimals, with a
/// leading `-` when `kobo` is negative: `123456` is `1234.56`, `-5` is
/// `-0.05`, `0` is `0.00`.
pub open spec fn naira_text(kobo: int) -> Seq<char> {
    let a: nat = if kobo < 0 { (-kobo) as nat } else { kobo as nat };
    let sign: Seq<char> = if kobo < 0 { seq!['-'] } else { Seq::empty() };
    sign + decimal(a / 100) + seq![
        '.',
        digit_char(((a % 100) / 10) as int),
        digit_char((a % 10) as int),
    ]
}

/// Writing amounts: a non-negative amount of `100 * naira + kobo` kobo
/// (with `kobo < 100`) reads as the naira, a point and the two kobo digits;
/// a negative amount reads as `-` and its magnitude.
pub proof fn law_naira_text(naira: nat, kobo: nat, v: int)
    requires
        kobo < 100,
    ensures
        naira_text((100 * naira + kobo) as int) == decimal(naira) + seq![
            '.',
            digit_char((kobo / 10) as int),
            digit_char((kobo % 10) as int),
        ],
        v > 0 ==> naira_text(-v) == seq!['-'] + naira_text(v),
{
    let a: nat = 100 * naira + kobo;
    assert(a / 100 == naira);
    assert(a % 100 == kobo);
    assert(Seq::<char>::empty() + decimal(naira) == decimal(naira));
    if v > 0 {
        assert(seq!['-'] + (Seq::<char>::empty() + decimal((v as nat) / 100)) == seq!['-'] + decimal((v as nat) / 100));
    }
}

fn digit(d: u64) -> (c: char)
    requires
        d < 10,
    ensures
        c == digit_char(d as int),
{
    let b: u8 = (d as u8) + 48u8;
    b as char
}

fn push_decimal(n: u64, out: &mut Vec<char>)
    ensures
        final(out)@ == old(out)@ + decimal(n as nat),
    decreases n,
{
    if n >= 10 {
        push_decimal(n / 10, out);
    }
    out.push(digit(n % 10));
}

/// Writes `kobo` as naira with two decimals (see [`naira_text`]).
pub fn format_naira(kobo: i64) -> (s: String)
    ensures
        s@ == naira_text(kobo as int),
{
    let a: u64 = if kobo < 0 {
        (0i128 - (kobo as i128)) as u64
    } else {
        kobo as u64
    };
    let mut out: Vec<char> = Vec::new();
    if kobo < 0 {
        out.push('-');
    }
    push_decimal(a / 100, &mut out);
    out.push('.');
    out.push(digit((a % 100) / 10));
    out.push(digit(a % 10));
    crate::text::text_from_chars(&out)
}

} // verus!
