use bank_app::ident::{account_number_from_uuid, reference_from_uuid, transaction_id_from_uuid};
use bank_app::model::{Account, AccountType, Transaction, TransactionStatus, TransactionType};

const SAMPLE: [u8; 16] = [
    0x67, 0xe5, 0x50, 0x44, 0x10, 0xb1, 0x42, 0x6f, 0x92, 0x47, 0xbb, 0x68, 0x0e, 0x5f, 0xe0, 0xc8,
];

#[test]
fn identifiers_are_cut_from_the_uuid_text() {
    // 67e55044-10b1-426f-9247-bb680e5fe0c8
    assert_eq!(account_number_from_uuid(SAMPLE), "ACC67E5504410");
    assert_eq!(transaction_id_from_uuid(SAMPLE), "TXN67E5504410B1");
    assert_eq!(reference_from_uuid(SAMPLE), "REF67E55044");
}

#[test]
fn identifiers_of_zero_bytes() {
    assert_eq!(account_number_from_uuid([0; 16]), "ACC0000000000");
    assert_eq!(transaction_id_from_uuid([0; 16]), "TXN000000000000");
    assert_eq!(reference_from_uuid([0; 16]), "REF00000000");
}

fn is_upper_hex(s: &str) -> bool {
    s.chars().all(|c| c.is_ascii_digit() || ('A'..='F').contains(&c))
}

#[test]
fn new_account_has_generated_number() {
    let a = Account::new("CUST001".to_string(), AccountType::Current, 42, "NGN".to_string());
    assert_eq!(a.account_number.len(), 13);
    assert!(a.account_number.starts_with("ACC"));
    assert!(is_upper_hex(&a.account_number[3..]));
    assert_eq!(a.balance, 42);
    assert_eq!(a.created_at, a.updated_at);
    assert!(a.created_at.secs > 0);
    assert!(a.created_at.nanos < 1_000_000_000);
    let b = Account::new("CUST001".to_string(), AccountType::Current, 42, "NGN".to_string());
    assert_ne!(a.account_number, b.account_number);
}

#[test]
fn new_transaction_is_pending() {
    let t = Transaction::new(
        TransactionType::Fee,
        Some("ACC1".to_string()),
        None,
        99,
        "NGN".to_string(),
        "fee".to_string(),
    );
    assert_eq!(t.status, TransactionStatus::Pending);
    assert_eq!(t.completed_at, None);
    assert_eq!(t.transaction_id.len(), 15);
    assert!(t.transaction_id.starts_with("TXN"));
    assert!(is_upper_hex(&t.transaction_id[3..]));
    assert_eq!(t.reference.len(), 11);
    assert!(t.reference.starts_with("REF"));
    assert!(is_upper_hex(&t.reference[3..]));
    assert_eq!(t.amount, 99);
}
