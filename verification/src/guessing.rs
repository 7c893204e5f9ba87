//! The number-guessing game's rules: reading a guess, judging it against
//! the secret, counting attempts and praising the winner. The console loop
//! that asks and answers lives outside the library.
use vstd::prelude::*;
use crate::money::{decimal, digit_char};

verus! {

/// An ASCII decimal digit.
pub open spec fn is_digit(c: char) -> bool {
    '0' <= c && c <= '9'
}

/// The value of a string of decimal digits (0 for the empty string).
pub open spec fn digits_value(s: Seq<char>) -> nat
    decreases s.len(),
{
    if s.len() == 0 {
        0
    } else {
        digits_value(s.drop_last()) * 10 + ((s.last() as int) - 48) as nat
    }
}

/// Every character of `s` is a decimal digit.
pub open spec fn all_digits(s: Seq<char>) -> bool {
    forall|i: int| 0 <= i < s.len() ==> is_digit(#[trigger] s[i])
}

/// `s` without one leading `+`, if it has one.
pub open spec fn unsigned_part(s: Seq<char>) -> Seq<char> {
    if s.len() > 0 && s[0] == '+' {
        s.drop_first()
    } else {
        s
    }
}

/// What reading `s` as a `u32` gives: an optional `+` followed by one or
/// more decimal digits whose value fits in `u32`; anything else is no number.
pub open spec fn parsed_u32(s: Seq<char>) -> Option<u32> {
    let body = unsigned_part(s);
    if body.len() > 0 && all_digits(body) && digits_value(body) <= u32::MAX {
        Some(digits_value(body) as u32)
    } else {
        None
    }
}

proof fn lemma_digits_value_grows(s: Seq<char>, i: int)
    requires
        0 <= i <= s.len(),
        forall|k: int| 0 <= k < s.len() ==> is_digit(#[trigger] s[k]),
    ensures
        digits_value(s.take(i)) <= digits_value(s),
    decreases s.len() - i,
{
    if i < s.len() {
        lemma_digits_value_grows(s, i + 1);
        assert(s.take(i + 1).drop_last() == s.take(i));
    } else {
        assert(s.take(i) == s);
    }
}

proof fn lemma_decimal_digits(n: nat)
    ensures
        decimal(n).len() > 0,
        all_digits(decimal(n)),
        digits_value(decimal(n)) == n,
    decreases n,
{
    let d = digit_char((n % 10) as int);
    assert(d as int == 48 + n % 10);
    assert(seq![d].drop_last() == Seq::<char>::empty());
    if n >= 10 {
        assert((n / 10) * 10 + n % 10 == n);
        lemma_decimal_digits(n / 10);
        let s = decimal(n / 10);
        let t = s + seq![digit_char((n % 10) as int)];
        assert(t.drop_last() == s);
        assert(decimal(n) == t);
        assert(t.last() == d);
        assert(digits_value(t) == digits_value(s) * 10 + ((d as int) - 48) as nat);
        assert forall|i: int| 0 <= i < t.len() implies is_digit(#[trigger] t[i]) by {
            if i < s.len() {
                assert(t[i] == s[i]);
            }
        }
    } else {
        assert(decimal(n) == seq![d]);
        assert(seq![d].last() == d);
        assert(digits_value(Seq::<char>::empty()) == 0);
        assert(digits_value(seq![d]) == digits_value(Seq::<char>::empty()) * 10 + ((d as int) - 48) as nat);
    }
}

/// Reading numbers back: the decimal numeral of any `u32`, with or without
/// a leading `+`, reads as that number; the empty text, a lone `+`, and any
/// text holding a character other than a digit after the optional `+` read
/// as no number.
pub proof fn law_parse_reads_numerals(n: u32, s: Seq<char>)
    ensures
        parsed_u32(decimal(n as nat)) == Some(n),
        parsed_u32(seq!['+'] + decimal(n as nat)) == Some(n),
        parsed_u32(Seq::empty()) is None,
        parsed_u32(seq!['+']) is None,
        (exists|i: int| 0 <= i < unsigned_part(s).len() && !is_digit(#[trigger] unsigned_part(s)[i]))
            ==> parsed_u32(s) is None,
{
    lemma_decimal_digits(n as nat);
    let d = decimal(n as nat);
    assert(is_digit(d[0]));
    assert((seq!['+'] + d).drop_first() == d);
    assert(seq!['+'].drop_first() == Seq::<char>::empty());
}

/// Reads `s` as a `u32` (see [`parsed_u32`]).
pub fn parse_u32(s: &str) -> (r: Option<u32>)
    ensures
        r == parsed_u32(s@),
{
    let n = s.unicode_len();
    let mut start: usize = 0;
    if n > 0 && s.get_char(0) == '+' {
        start = 1;
    }
    let ghost body = unsigned_part(s@);
    assert(body == s@.subrange(start as int, n as int));
    if start == n {
        return None;
    }
    let mut value: u64 = 0;
    let mut i: usize = start;
    while i < n
        invariant
            start <= i <= n,
            n == s@.len(),
            start < n,
            body == s@.subrange(start as int, n as int),
            body == unsigned_part(s@),
            forall|k: int| start <= k < i ==> is_digit(#[trigger] s@[k]),
            value == digits_value(s@.subrange(start as int, i as int)),
            value <= u32::MAX,
        decreases n - i,
    {
        let c = s.get_char(i);
        if !('0' <= c && c <= '9') {
            assert(body[i - start] == c);
            assert(!is_digit(body[i - start]));
            assert(!all_digits(body));
            return None;
        }
        let d: u64 = ((c as u32) - 48) as u64;
        assert(s@.subrange(start as int, i + 1).drop_last() == s@.subrange(start as int, i as int));
        value = value * 10 + d;
        if value > 4294967295 {
            proof {
                if all_digits(body) {
                    lemma_digits_value_grows(body, i + 1 - start);
                    assert(body.take(i + 1 - start) == s@.subrange(start as int, i + 1));
                    assert(digits_value(body) > u32::MAX);
                }
            }
            return None;
        }
        i = i + 1;
    }
    Some(value as u32)
}

/// A character of the Unicode `White_Space` property, the whitespace that
/// std's `char::is_whitespace` and `str::trim` recognise.
pub open spec fn is_white_space(c: char) -> bool {
    let u = c as u32;
    ||| 0x09 <= u <= 0x0d
    ||| u == 0x20
    ||| u == 0x85
    ||| u == 0xa0
    ||| u == 0x1680
    ||| 0x2000 <= u <= 0x200a
    ||| u == 0x2028
    ||| u == 0x2029
    ||| u == 0x202f
    ||| u == 0x205f
    ||| u == 0x3000
}

/// `s` without its leading whitespace.
pub open spec fn trim_leading(s: Seq<char>) -> Seq<char>
    decreases s.len(),
{
    if s.len() > 0 && is_white_space(s[0]) {
        trim_leading(s.drop_first())
    } else {
        s
    }
}

/// `s` without its trailing whitespace.
pub open spec fn trim_trailing(s: Seq<char>) -> Seq<char>
    decreases s.len(),
{
    if s.len() > 0 && is_white_space(s.last()) {
        trim_trailing(s.drop_last())
    } else {
        s
    }
}

/// `s` with leading and trailing whitespace removed.
pub open spec fn trimmed(s: Seq<char>) -> Seq<char> {
    trim_trailing(trim_leading(s))
}

/// Trusted: calls std's `str::trim`, which returns the text with leading
/// and trailing whitespace (the Unicode `White_Space` characters, see
/// [`is_white_space`]) removed and the rest unchanged.
#[verifier::external_body]
fn trim_text(s: &str) -> (r: &str)
    ensures
        r@ == trimmed(s@),
{
    s.trim()
}

/// A secret number for a new game.
///
/// Trusted: calls rand's `thread_rng().gen_range(1..=100)`, which draws
/// uniformly from the inclusive range; only the range is stated.
#[verifier::external_body]
fn random_secret() -> (n: u32)
    ensures
        1 <= n <= 100,
{
    rand::Rng::gen_range(&mut rand::thread_rng(), 1..=100u32)
}

/// How a guess is answered.
#[derive(Debug, Clone, Copy, PartialEq, Eq, Structural)]
pub enum GuessOutcome {
    /// The line was not a number; it does not count as an attempt.
    NotANumber,
    /// The number was outside 1..=100; it does not count as an attempt.
    OutOfRange,
    /// The number guessed is below the secret.
    TooSmall(u32),
    /// The number guessed is above the secret.
    TooBig(u32),
    /// The number guessed is the secret.
    Correct(u32),
}

/// The answer to guessing `guess` (`None`: the line held no number) when
/// the secret is `secret`.
pub open spec fn judge(secret: u32, guess: Option<u32>) -> GuessOutcome {
    match guess {
        None => GuessOutcome::NotANumber,
        Some(n) => if n < 1 || n > 100 {
            GuessOutcome::OutOfRange
        } else if n < secret {
            GuessOutcome::TooSmall(n)
        } else if n > secret {
            GuessOutcome::TooBig(n)
        } else {
            GuessOutcome::Correct(n)
        },
    }
}

/// How a guess is answered, in terms of the guess and the secret: no
/// number is `NotANumber`; a number outside 1..=100 is `OutOfRange`; inside
/// it, the answer carries the number and is `Correct` exactly when it equals
/// the secret, `TooSmall` exactly when it is below, `TooBig` exactly when it
/// is above.
pub proof fn law_judge_compares_with_secret(secret: u32, n: u32)
    ensures
        judge(secret, None) == GuessOutcome::NotANumber,
        (n < 1 || n > 100) ==> judge(secret, Some(n)) == GuessOutcome::OutOfRange,
        1 <= n <= 100 ==> {
            &&& (judge(secret, Some(n)) == GuessOutcome::Correct(n) <==> n == secret)
            &&& (judge(secret, Some(n)) == GuessOutcome::TooSmall(n) <==> n < secret)
            &&& (judge(secret, Some(n)) == GuessOutcome::TooBig(n) <==> n > secret)
        },
{
}

/// Whether a guess counts as an attempt: it is a number within 1..=100.
pub open spec fn counts(guess: Option<u32>) -> bool {
    guess matches Some(n) && 1 <= n <= 100
}

/// A guess counts as an attempt exactly when it is a number from 1 to 100,
/// which is exactly when it is answered too small, too big or correct.
pub proof fn law_attempts_are_judged_guesses(secret: u32, guess: Option<u32>)
    ensures
        counts(guess) <==> (guess is Some && 1 <= guess->0 <= 100),
        counts(guess) <==> (judge(secret, guess) is TooSmall || judge(secret, guess) is TooBig
            || judge(secret, guess) is Correct),
{
}

/// Whether an input line would count as an attempt: trimmed, it reads as a
/// number within 1..=100.
pub fn counts_as_attempt(line: &str) -> (b: bool)
    ensures
        b == counts(parsed_u32(trimmed(line@))),
{
    match parse_u32(trim_text(line)) {
        Some(n) => 1 <= n && n <= 100,
        None => false,
    }
}

/// A game in progress: the secret and the attempts counted so far.
pub struct GuessingGame {
    secret: u32,
    attempts: i32,
}

impl GuessingGame {
    /// The number to be guessed.
    pub closed spec fn secret_number(&self) -> u32 {
        self.secret
    }

    /// The attempts counted so far.
    pub closed spec fn attempt_count(&self) -> i32 {
        self.attempts
    }

    /// A new game with a random secret between 1 and 100.
    pub fn new() -> (g: GuessingGame)
        ensures
            1 <= g.secret_number() <= 100,
            g.attempt_count() == 0,
    {
        GuessingGame::with_secret(random_secret())
    }

    /// A new game whose secret is `secret`.
    pub fn with_secret(secret: u32) -> (g: GuessingGame)
        ensures
            g.secret_number() == secret,
            g.attempt_count() == 0,
    {
        GuessingGame { secret, attempts: 0 }
    }

    /// The attempts counted so far.
    pub fn attempts(&self) -> (n: i32)
        ensures
            n == self.attempt_count(),
    {
        self.attempts
    }

    /// Answers an input line: it is trimmed, read as a number and judged.
    pub fn guess(&mut self, line: &str) -> (o: GuessOutcome)
        requires
            counts(parsed_u32(trimmed(line@))) ==> old(self).attempt_count() < i32::MAX,
        ensures
            o == judge(old(self).secret_number(), parsed_u32(trimmed(line@))),
            final(self).secret_number() == old(self).secret_number(),
            final(self).attempt_count() == old(self).attempt_count() + if counts(
                parsed_u32(trimmed(line@)),
            ) {
                1int
            } else {
                0int
            },
    {
        let text = trim_text(line);
        self.guess_trimmed(text)
    }

    /// Answers a guess already stripped of surrounding whitespace.
    pub fn guess_trimmed(&mut self, text: &str) -> (o: GuessOutcome)
        requires
            counts(parsed_u32(text@)) ==> old(self).attempt_count() < i32::MAX,
        ensures
            o == judge(old(self).secret_number(), parsed_u32(text@)),
            final(self).secret_number() == old(self).secret_number(),
            final(self).attempt_count() == old(self).attempt_count() + if counts(
                parsed_u32(text@),
            ) {
                1int
            } else {
                0int
            },
    {
        let n = match parse_u32(text) {
            None => { return GuessOutcome::NotANumber; },
            Some(n) => n,
        };
        if n < 1 || n > 100 {
            return GuessOutcome::OutOfRange;
        }
        self.attempts = self.attempts + 1;
        if n < self.secret {
            GuessOutcome::TooSmall(n)
        } else if n > self.secret {
            GuessOutcome::TooBig(n)
        } else {
            GuessOutcome::Correct(n)
        }
    }
}

/// How a win is praised, by the number of attempts it took.
#[derive(Debug, Clone, Copy, PartialEq, Eq, Structural)]
pub enum Praise {
    /// One attempt.
    Incredible,
    /// Two to five attempts.
    Excellent,
    /// Six to ten attempts.
    GoodJob,
    /// Any other count.
    MadeIt,
}

/// The praise for a win in `attempts` attempts.
pub open spec fn praise_spec(attempts: i32) -> Praise {
    if attempts == 1 {
        Praise::Incredible
    } else if 2 <= attempts <= 5 {
        Praise::Excellent
    } else if 6 <= attempts <= 10 {
        Praise::GoodJob
    } else {
        Praise::MadeIt
    }
}

/// A win in one attempt is incredible, in two to five excellent, in six to
/// ten good, and in any other number of attempts made.
pub proof fn law_praise_by_attempts(attempts: i32)
    ensures
        attempts == 1 <==> praise_spec(attempts) == Praise::Incredible,
        2 <= attempts <= 5 <==> praise_spec(attempts) == Praise::Excellent,
        6 <= attempts <= 10 <==> praise_spec(attempts) == Praise::GoodJob,
        (attempts < 1 || attempts > 10) <==> praise_spec(attempts) == Praise::MadeIt,
{
}

/// The praise for a win in `attempts` attempts.
pub fn praise_for(attempts: i32) -> (p: Praise)
    ensures
        p == praise_spec(attempts),
{
    if attempts == 1 {
        Praise::Incredible
    } else if 2 <= attempts && attempts <= 5 {
        Praise::Excellent
    } else if 6 <= attempts && attempts <= 10 {
        Praise::GoodJob
    } else {
        Praise::MadeIt
    }
}

/// The word for `attempts` attempts: singular for exactly one.
pub fn attempt_word(attempts: i32) -> (w: &'static str)
    ensures
        attempts == 1 ==> w@ == "attempt"@,
        attempts != 1 ==> w@ == "attempts"@,
{
    if attempts == 1 {
        "attempt"
    } else {
        "attempts"
    }
}

} // verus!
