use bank_app::error::{BankingError, ErrorKind};
use bank_app::model::Timestamp;
use bank_app::money::format_naira;

#[test]
fn naira_text_has_two_decimals() {
    assert_eq!(format_naira(0), "0.00");
    assert_eq!(format_naira(5), "0.05");
    assert_eq!(format_naira(-5), "-0.05");
    assert_eq!(format_naira(100_000), "1000.00");
    assert_eq!(format_naira(123_456), "1234.56");
    assert_eq!(format_naira(-50_000), "-500.00");
    assert_eq!(format_naira(i64::MIN), "-92233720368547758.08");
    assert_eq!(format_naira(i64::MAX), "92233720368547758.07");
}

#[test]
fn naira_text_matches_float_display_for_ordinary_amounts() {
    for v in [0i64, 1, 9, 10, 99, 100, 101, 12345, -12345, 999_999, 100_000_000, -7] {
        assert_eq!(format_naira(v), format!("{:.2}", v as f64 / 100.0));
    }
}

#[test]
fn error_texts() {
    let cases = [
        (ErrorKind::AccountNotFound, "Account not found: m"),
        (ErrorKind::InsufficientFunds, "Insufficient funds: m"),
        (ErrorKind::AccountInactive, "Account inactive: m"),
        (ErrorKind::InvalidAmount, "Invalid amount: m"),
        (ErrorKind::TransactionFailed, "Transaction failed: m"),
        (ErrorKind::CurrencyMismatch, "Currency mismatch: m"),
    ];
    for (kind, text) in cases {
        let e = BankingError::new(kind, "m".to_string());
        assert_eq!(e.kind(), kind);
        assert_eq!(e.message(), "m");
        assert_eq!(e.to_display_string(), text);
    }
    assert!(matches!(
        BankingError::new(ErrorKind::AccountInactive, "x".to_string()),
        BankingError::AccountInactive(_)
    ));
}

#[test]
fn timestamps_order_by_seconds_then_nanos() {
    let a = Timestamp { secs: 1, nanos: 500 };
    let b = Timestamp { secs: 1, nanos: 600 };
    let c = Timestamp { secs: 2, nanos: 0 };
    assert!(a.is_before(&b));
    assert!(b.is_before(&c));
    assert!(a.is_before(&c));
    assert!(!b.is_before(&a));
    assert!(!a.is_before(&a));
}
