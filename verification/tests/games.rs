use bank_app::branches::{below_three, divisibility, Divisibility};
use bank_app::guessing::{attempt_word, counts_as_attempt, parse_u32, praise_for, GuessOutcome, GuessingGame, Praise};
use bank_app::rects::Rectangle;
use bank_app::strings::{calculate_breadth, calculate_length};

#[test]
fn parse_reads_unsigned_numbers() {
    assert_eq!(parse_u32("42"), Some(42));
    assert_eq!(parse_u32("+7"), Some(7));
    assert_eq!(parse_u32("007"), Some(7));
    assert_eq!(parse_u32("4294967295"), Some(u32::MAX));
    assert_eq!(parse_u32("4294967296"), None);
    assert_eq!(parse_u32("99999999999999999999x"), None);
    assert_eq!(parse_u32(""), None);
    assert_eq!(parse_u32("+"), None);
    assert_eq!(parse_u32("-1"), None);
    assert_eq!(parse_u32("1 2"), None);
    assert_eq!(parse_u32("abc"), None);
    assert_eq!(parse_u32("１"), None);
    for s in ["0", "12", "+300", "4294967295", "4294967296", "", "+", "x1", "1x"] {
        assert_eq!(parse_u32(s), s.parse::<u32>().ok(), "{}", s);
    }
}

#[test]
fn guessing_game_counts_only_valid_guesses() {
    let mut g = GuessingGame::with_secret(37);
    assert_eq!(g.guess("hello\n"), GuessOutcome::NotANumber);
    assert_eq!(g.guess("0\n"), GuessOutcome::OutOfRange);
    assert_eq!(g.guess("101\n"), GuessOutcome::OutOfRange);
    assert_eq!(g.attempts(), 0);
    assert_eq!(g.guess("  50 \r\n"), GuessOutcome::TooBig(50));
    assert_eq!(g.guess("\t+20\n"), GuessOutcome::TooSmall(20));
    assert_eq!(g.guess("37\n"), GuessOutcome::Correct(37));
    assert_eq!(g.attempts(), 3);
}

#[test]
fn guess_on_trimmed_text() {
    let mut g = GuessingGame::with_secret(1);
    assert_eq!(g.guess_trimmed(" 1"), GuessOutcome::NotANumber);
    assert_eq!(g.guess_trimmed("1"), GuessOutcome::Correct(1));
    assert_eq!(g.attempts(), 1);
}

#[test]
fn new_game_has_secret_in_range() {
    for _ in 0..50 {
        let mut g = GuessingGame::new();
        let mut found = false;
        for n in 1..=100u32 {
            if g.guess(&n.to_string()) == GuessOutcome::Correct(n) {
                found = true;
                break;
            }
        }
        assert!(found);
    }
}

#[test]
fn praise_by_attempts() {
    assert_eq!(praise_for(1), Praise::Incredible);
    assert_eq!(praise_for(2), Praise::Excellent);
    assert_eq!(praise_for(5), Praise::Excellent);
    assert_eq!(praise_for(6), Praise::GoodJob);
    assert_eq!(praise_for(10), Praise::GoodJob);
    assert_eq!(praise_for(11), Praise::MadeIt);
    assert_eq!(attempt_word(1), "attempt");
    assert_eq!(attempt_word(2), "attempts");
}

#[test]
fn string_lengths_count_bytes() {
    let (s, len) = calculate_length(String::from("hello"));
    assert_eq!(s, "hello");
    assert_eq!(len, 5);
    assert_eq!(calculate_breadth(&String::from("aloha")), 5);
    assert_eq!(calculate_breadth(&String::from("héllo")), 6);
    assert_eq!(calculate_breadth(&String::new()), 0);
}

#[test]
fn rectangle_width_check() {
    let rect1 = Rectangle { width: 50, _height: 70 };
    assert!(rect1.width());
    let flat = Rectangle { width: 0, _height: 70 };
    assert!(!flat.width());
}

#[test]
fn divisibility_classes() {
    assert_eq!(divisibility(9), Divisibility::ByThree);
    assert_eq!(divisibility(12), Divisibility::ByFour);
    assert_eq!(divisibility(10), Divisibility::ByTwo);
    assert_eq!(divisibility(7), Divisibility::ByNone);
    assert_eq!(divisibility(-6), Divisibility::ByThree);
    assert_eq!(divisibility(0), Divisibility::ByFour);
    assert!(!below_three(9));
    assert!(below_three(2));
}

#[test]
fn which_lines_count_as_attempts() {
    assert!(counts_as_attempt("  50 \n"));
    assert!(counts_as_attempt("\u{3000}100\u{a0}"));
    assert!(!counts_as_attempt("101\n"));
    assert!(!counts_as_attempt("0"));
    assert!(!counts_as_attempt("fifty"));
}

#[test]
fn padded_lines_read_as_their_number() {
    let mut g = GuessingGame::with_secret(50);
    assert_eq!(g.guess("\u{2003}50\u{2029}"), GuessOutcome::Correct(50));
    assert_eq!(g.attempts(), 1);
}
