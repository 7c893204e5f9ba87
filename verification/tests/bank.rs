use bank_app::bank::BankingSystem;
use bank_app::error::{BankingError, ErrorKind};
use bank_app::model::{AccountStatus, AccountType, Timestamp, TransactionStatus, TransactionType};

fn ngn() -> String {
    "NGN".to_string()
}

fn open(bank: &mut BankingSystem, customer: &str, kind: AccountType, balance: i64) -> String {
    bank.create_account(customer.to_string(), kind, balance, ngn())
        .unwrap()
        .account_number
}

fn kind_of<T>(r: &Result<T, BankingError>) -> ErrorKind {
    match r {
        Err(e) => e.kind(),
        Ok(_) => panic!("expected an error"),
    }
}

#[test]
fn test_deposit_increases_balance() {
    let mut bank = BankingSystem::new(100_000);
    let account = open(&mut bank, "TEST", AccountType::Savings, 500_000);
    let initial = bank.get_balance(&account).unwrap();
    bank.deposit(&account, 100_000, "Test".to_string()).unwrap();
    let final_balance = bank.get_balance(&account).unwrap();
    assert_eq!(final_balance, initial + 100_000);
}

#[test]
fn test_withdrawal_insufficient_funds() {
    let mut bank = BankingSystem::new(100_000);
    let account = open(&mut bank, "TEST", AccountType::Current, 200_000);
    let result = bank.withdraw(&account, 150_000, "Test".to_string());
    assert!(result.is_err());
    assert!(matches!(result, Err(BankingError::InsufficientFunds(_))));
}

#[test]
fn test_transfer_maintains_system_balance() {
    let mut bank = BankingSystem::new(100_000);
    let acc1 = open(&mut bank, "A", AccountType::Current, 1_000_000);
    let acc2 = open(&mut bank, "B", AccountType::Savings, 500_000);
    let total_before = bank.get_balance(&acc1).unwrap() + bank.get_balance(&acc2).unwrap();
    bank.transfer(&acc1, &acc2, 300_000, "Test".to_string()).unwrap();
    let total_after = bank.get_balance(&acc1).unwrap() + bank.get_balance(&acc2).unwrap();
    assert_eq!(total_before, total_after);
    assert_eq!(bank.get_balance(&acc1).unwrap(), 700_000);
    assert_eq!(bank.get_balance(&acc2).unwrap(), 800_000);
}

#[test]
fn three_deposits_add_up() {
    let mut bank = BankingSystem::new(100_000);
    let account = open(&mut bank, "CUST001", AccountType::Savings, 500_000);
    bank.deposit(&account, 100_000, "Deposit 1".to_string()).unwrap();
    bank.deposit(&account, 250_000, "Deposit 2".to_string()).unwrap();
    bank.deposit(&account, 150_000, "Deposit 3".to_string()).unwrap();
    assert_eq!(bank.get_balance(&account).unwrap(), 1_000_000);
}

#[test]
fn withdrawal_respects_minimum_balance() {
    let mut bank = BankingSystem::new(100_000);
    let account = open(&mut bank, "CUST001", AccountType::Current, 300_000);
    bank.withdraw(&account, 100_000, "ATM".to_string()).unwrap();
    let refused = bank.withdraw(&account, 250_000, "Large withdrawal".to_string());
    assert_eq!(kind_of(&refused), ErrorKind::InsufficientFunds);
    assert_eq!(bank.get_balance(&account).unwrap(), 200_000);
    // Exactly the minimum may stay behind.
    bank.withdraw(&account, 100_000, "To the floor".to_string()).unwrap();
    assert_eq!(bank.get_balance(&account).unwrap(), 100_000);
    let refused = bank.withdraw(&account, 1, "One kobo".to_string());
    assert_eq!(kind_of(&refused), ErrorKind::InsufficientFunds);
}

#[test]
fn insufficient_funds_message_shows_amounts() {
    let mut bank = BankingSystem::new(100_000);
    let account = open(&mut bank, "CUST003", AccountType::Savings, 200_000);
    let refused = bank.withdraw(&account, 150_000, "Large withdrawal".to_string());
    let e = refused.unwrap_err();
    assert_eq!(
        e.message(),
        "Insufficient funds. Available: \u{20a6}1000.00, Required: \u{20a6}1500.00 (including minimum balance)"
    );
    assert_eq!(
        e.to_display_string(),
        "Insufficient funds: Insufficient funds. Available: \u{20a6}1000.00, Required: \u{20a6}1500.00 (including minimum balance)"
    );
}

#[test]
fn insufficient_funds_message_with_negative_headroom() {
    let mut bank = BankingSystem::new(100_000);
    let account = open(&mut bank, "LOW", AccountType::Savings, 50_005);
    let e = bank.withdraw(&account, 10, "x".to_string()).unwrap_err();
    assert_eq!(
        e.message(),
        "Insufficient funds. Available: \u{20a6}-499.95, Required: \u{20a6}0.10 (including minimum balance)"
    );
}

#[test]
fn demonstration_flow_balances() {
    let mut bank = BankingSystem::new(100_000);
    let acc1 = open(&mut bank, "CUST001", AccountType::Savings, 500_000);
    let acc2 = open(&mut bank, "CUST002", AccountType::Current, 1_000_000);
    let acc3 = open(&mut bank, "CUST003", AccountType::Savings, 200_000);
    bank.deposit(&acc1, 250_000, "Cash deposit at branch".to_string()).unwrap();
    bank.deposit(&acc2, 500_000, "Salary credit".to_string()).unwrap();
    bank.withdraw(&acc1, 100_000, "ATM withdrawal".to_string()).unwrap();
    assert!(bank.withdraw(&acc3, 150_000, "Large withdrawal".to_string()).is_err());
    bank.transfer(&acc2, &acc1, 300_000, "Payment for services".to_string()).unwrap();
    bank.transfer(&acc1, &acc3, 200_000, "Gift transfer".to_string()).unwrap();
    assert_eq!(bank.get_balance(&acc1).unwrap(), 750_000);
    assert_eq!(bank.get_balance(&acc2).unwrap(), 1_200_000);
    assert_eq!(bank.get_balance(&acc3).unwrap(), 400_000);
    let all = bank.get_all_transactions();
    assert_eq!(all.len(), 5);
    assert!(all.iter().all(|t| t.status == TransactionStatus::Completed));
    let statement = bank.generate_mini_statement(&acc1, 5).unwrap();
    assert_eq!(statement.account.balance, 750_000);
    assert_eq!(statement.transactions.len(), 4);
}

#[test]
fn repeated_withdrawals_stop_at_the_minimum() {
    let mut bank = BankingSystem::new(100_000);
    let account = open(&mut bank, "CONCURRENT_TEST", AccountType::Current, 1_000_000);
    let mut ok = 0;
    for i in 0..10 {
        if bank.withdraw(&account, 50_000, format!("Withdrawal {}", i)).is_ok() {
            ok += 1;
        }
    }
    assert_eq!(ok, 10);
    assert_eq!(bank.get_balance(&account).unwrap(), 500_000);
    for i in 0..10 {
        let _ = bank.withdraw(&account, 100_000, format!("More {}", i));
    }
    assert_eq!(bank.get_balance(&account).unwrap(), 100_000);
}

#[test]
fn negative_opening_balance_is_refused() {
    let mut bank = BankingSystem::new(100_000);
    let r = bank.create_account("X".to_string(), AccountType::Fixed, -1, ngn());
    let e = r.unwrap_err();
    assert_eq!(e.kind(), ErrorKind::InvalidAmount);
    assert_eq!(e.message(), "Initial balance cannot be negative");
    // The minimum balance is not applied at opening.
    let a = bank.create_account("Y".to_string(), AccountType::Loan, 0, ngn()).unwrap();
    assert_eq!(a.balance, 0);
    assert_eq!(a.status, AccountStatus::Active);
    assert_eq!(a.created_at, a.updated_at);
}

#[test]
fn created_account_is_filed_under_its_number() {
    let mut bank = BankingSystem::new(0);
    let a = bank
        .create_account("JOHN001".to_string(), AccountType::Savings, 5_000_000, ngn())
        .unwrap();
    let fetched = bank.get_account(&a.account_number).unwrap();
    assert_eq!(fetched.account_number, a.account_number);
    assert_eq!(fetched.customer_id, "JOHN001");
    assert_eq!(fetched.account_type, AccountType::Savings);
    assert_eq!(fetched.balance, 5_000_000);
    assert_eq!(fetched.currency, "NGN");
}

#[test]
fn unknown_account_is_not_found() {
    let mut bank = BankingSystem::new(100_000);
    let e = bank.get_account("ACC0000000000").unwrap_err();
    assert_eq!(e.kind(), ErrorKind::AccountNotFound);
    assert_eq!(e.message(), "ACC0000000000");
    assert_eq!(e.to_display_string(), "Account not found: ACC0000000000");
    assert_eq!(kind_of(&bank.get_balance("nope")), ErrorKind::AccountNotFound);
    assert_eq!(kind_of(&bank.deposit("nope", 10, "d".to_string())), ErrorKind::AccountNotFound);
    assert_eq!(kind_of(&bank.withdraw("nope", 10, "w".to_string())), ErrorKind::AccountNotFound);
    assert_eq!(kind_of(&bank.generate_mini_statement("nope", 3)), ErrorKind::AccountNotFound);
    assert!(bank.get_all_transactions().is_empty());
}

#[test]
fn nonpositive_amounts_are_refused() {
    let mut bank = BankingSystem::new(0);
    let a = open(&mut bank, "A", AccountType::Current, 1_000);
    let b = open(&mut bank, "B", AccountType::Current, 1_000);
    let e = bank.deposit(&a, 0, "d".to_string()).unwrap_err();
    assert_eq!(e.message(), "Deposit amount must be positive");
    assert_eq!(e.to_display_string(), "Invalid amount: Deposit amount must be positive");
    let e = bank.withdraw(&a, -5, "w".to_string()).unwrap_err();
    assert_eq!(e.message(), "Withdrawal amount must be positive");
    let e = bank.transfer(&a, &b, 0, "t".to_string()).unwrap_err();
    assert_eq!(e.message(), "Transfer amount must be positive");
    // Amount is checked before the account.
    let e = bank.deposit("missing", -1, "d".to_string()).unwrap_err();
    assert_eq!(e.kind(), ErrorKind::InvalidAmount);
    assert!(bank.get_all_transactions().is_empty());
}

#[test]
fn transfer_to_same_account_is_refused() {
    let mut bank = BankingSystem::new(0);
    let a = open(&mut bank, "A", AccountType::Current, 1_000);
    let e = bank.transfer(&a, &a, 10, "t".to_string()).unwrap_err();
    assert_eq!(e.kind(), ErrorKind::TransactionFailed);
    assert_eq!(e.to_display_string(), "Transaction failed: Cannot transfer to same account");
    assert_eq!(bank.get_balance(&a).unwrap(), 1_000);
}

#[test]
fn transfer_refusals_leave_balances_alone() {
    let mut bank = BankingSystem::new(100);
    let a = open(&mut bank, "A", AccountType::Current, 1_000);
    let b = open(&mut bank, "B", AccountType::Current, 1_000);
    let usd = bank
        .create_account("C".to_string(), AccountType::Current, 1_000, "USD".to_string())
        .unwrap()
        .account_number;
    let e = bank.transfer(&a, "missing", 10, "t".to_string()).unwrap_err();
    assert_eq!(e.kind(), ErrorKind::AccountNotFound);
    assert_eq!(e.message(), "missing");
    let e = bank.transfer(&a, &b, 901, "t".to_string()).unwrap_err();
    assert_eq!(e.kind(), ErrorKind::InsufficientFunds);
    assert_eq!(*e.message(), format!("Insufficient funds in account {}", a));
    let e = bank.transfer(&a, &usd, 10, "t".to_string()).unwrap_err();
    assert_eq!(e.kind(), ErrorKind::CurrencyMismatch);
    assert_eq!(e.to_display_string(), "Currency mismatch: Accounts have different currencies");
    assert_eq!(bank.get_balance(&a).unwrap(), 1_000);
    assert_eq!(bank.get_balance(&b).unwrap(), 1_000);
    assert_eq!(bank.get_balance(&usd).unwrap(), 1_000);
    assert!(bank.get_all_transactions().is_empty());
    // Exactly down to the minimum is allowed.
    bank.transfer(&a, &b, 900, "t".to_string()).unwrap();
    assert_eq!(bank.get_balance(&a).unwrap(), 100);
    assert_eq!(bank.get_balance(&b).unwrap(), 1_900);
}

#[test]
fn recorded_transactions_describe_the_movement() {
    let mut bank = BankingSystem::new(0);
    let usd_a = bank
        .create_account("A".to_string(), AccountType::Current, 1_000, "USD".to_string())
        .unwrap()
        .account_number;
    let usd_b = bank
        .create_account("B".to_string(), AccountType::Current, 1_000, "USD".to_string())
        .unwrap()
        .account_number;
    let d = bank.deposit(&usd_a, 5, "in".to_string()).unwrap();
    assert_eq!(d.transaction_type, TransactionType::Deposit);
    assert_eq!(d.from_account, None);
    assert_eq!(d.to_account, Some(usd_a.clone()));
    assert_eq!(d.currency, "NGN");
    assert_eq!(d.description, "in");
    assert_eq!(d.status, TransactionStatus::Completed);
    assert!(d.completed_at.is_some());
    let w = bank.withdraw(&usd_a, 3, "out".to_string()).unwrap();
    assert_eq!(w.transaction_type, TransactionType::Withdrawal);
    assert_eq!(w.from_account, Some(usd_a.clone()));
    assert_eq!(w.to_account, None);
    assert_eq!(w.currency, "NGN");
    let t = bank.transfer(&usd_a, &usd_b, 2, "move".to_string()).unwrap();
    assert_eq!(t.transaction_type, TransactionType::Transfer);
    assert_eq!(t.from_account, Some(usd_a.clone()));
    assert_eq!(t.to_account, Some(usd_b.clone()));
    assert_eq!(t.amount, 2);
    assert_eq!(t.currency, "USD");
    assert!(t.transaction_id.starts_with("TXN"));
    assert_eq!(t.transaction_id.len(), 15);
    assert!(t.reference.starts_with("REF"));
    assert_eq!(t.reference.len(), 11);
    let log = bank.get_all_transactions();
    assert_eq!(log.len(), 3);
    assert_eq!(log[0].transaction_id, d.transaction_id);
    assert_eq!(log[1].transaction_id, w.transaction_id);
    assert_eq!(log[2].transaction_id, t.transaction_id);
    assert_eq!(bank.get_balance(&usd_a).unwrap(), 1_000);
    assert_eq!(bank.get_balance(&usd_b).unwrap(), 1_002);
}

#[test]
fn history_keeps_only_the_accounts_movements_in_order() {
    let mut bank = BankingSystem::new(0);
    let a = open(&mut bank, "A", AccountType::Current, 1_000);
    let b = open(&mut bank, "B", AccountType::Current, 1_000);
    let c = open(&mut bank, "C", AccountType::Current, 1_000);
    bank.deposit(&a, 1, "1".to_string()).unwrap();
    bank.deposit(&b, 2, "2".to_string()).unwrap();
    bank.transfer(&b, &a, 3, "3".to_string()).unwrap();
    bank.transfer(&c, &b, 4, "4".to_string()).unwrap();
    bank.withdraw(&a, 5, "5".to_string()).unwrap();
    let h: Vec<String> = bank.get_transaction_history(&a).iter().map(|t| t.description.clone()).collect();
    assert_eq!(h, vec!["1", "3", "5"]);
    let h: Vec<String> = bank.get_transaction_history(&b).iter().map(|t| t.description.clone()).collect();
    assert_eq!(h, vec!["2", "3", "4"]);
    assert!(bank.get_transaction_history("nobody").is_empty());
}

#[test]
fn mini_statement_is_newest_first_and_limited() {
    let mut bank = BankingSystem::new(0);
    let a = open(&mut bank, "A", AccountType::Current, 1_000);
    let u = [7u8; 16];
    let t = |s: i64| Timestamp { secs: s, nanos: 0 };
    bank.deposit_with(&a, 1, "old".to_string(), u, u, t(10), t(10), t(10)).unwrap();
    bank.deposit_with(&a, 2, "newest".to_string(), u, u, t(30), t(30), t(30)).unwrap();
    bank.deposit_with(&a, 3, "tie-first".to_string(), u, u, t(20), t(20), t(20)).unwrap();
    bank.deposit_with(&a, 4, "tie-second".to_string(), u, u, t(20), t(20), t(20)).unwrap();
    let s = bank.generate_mini_statement(&a, 3).unwrap();
    let names: Vec<&str> = s.transactions.iter().map(|t| t.description.as_str()).collect();
    assert_eq!(names, vec!["newest", "tie-first", "tie-second"]);
    let s = bank.generate_mini_statement(&a, 10).unwrap();
    let names: Vec<&str> = s.transactions.iter().map(|t| t.description.as_str()).collect();
    assert_eq!(names, vec!["newest", "tie-first", "tie-second", "old"]);
    let s = bank.generate_mini_statement(&a, 0).unwrap();
    assert!(s.transactions.is_empty());
    assert_eq!(s.account.balance, 1_010);
}

#[test]
fn operations_with_given_draws_are_exact() {
    let mut bank = BankingSystem::new(50);
    let uuid = [0x12, 0x34, 0x56, 0x78, 0x9a, 0xbc, 0x4d, 0xef, 0x80, 0x11, 0x22, 0x33, 0x44, 0x55, 0x66, 0x77];
    let at = Timestamp { secs: 1_700_000_000, nanos: 5 };
    let a = bank
        .create_account_with("A".to_string(), AccountType::Savings, 500, ngn(), uuid, at)
        .unwrap();
    assert_eq!(a.account_number, "ACC123456789A");
    assert_eq!(a.created_at, at);
    let b = bank
        .create_account_with("B".to_string(), AccountType::Savings, 0, ngn(), [0xff; 16], at)
        .unwrap();
    assert_eq!(b.account_number, "ACCFFFFFFFFFF");
    let later = Timestamp { secs: 1_700_000_001, nanos: 0 };
    let done = Timestamp { secs: 1_700_000_002, nanos: 0 };
    let t = bank
        .transfer_with(&a.account_number, &b.account_number, 450, "x".to_string(), uuid, [0xab; 16], at, later, later, done)
        .unwrap();
    assert_eq!(t.transaction_id, "TXN123456789ABC");
    assert_eq!(t.reference, "REFABABABAB");
    assert_eq!(t.created_at, at);
    assert_eq!(t.completed_at, Some(done));
    let a2 = bank.get_account(&a.account_number).unwrap();
    assert_eq!(a2.balance, 50);
    assert_eq!(a2.updated_at, later);
    let w = bank
        .withdraw_with(&a.account_number, 1, "w".to_string(), uuid, uuid, at, at, at)
        .unwrap_err();
    assert_eq!(w.kind(), ErrorKind::InsufficientFunds);
}

#[test]
fn deposit_of_the_withdrawn_amount_restores_the_balance() {
    let mut bank = BankingSystem::new(100);
    let a = open(&mut bank, "A", AccountType::Current, 10_000);
    let b = open(&mut bank, "B", AccountType::Current, 7_000);
    bank.withdraw(&a, 2_500, "out".to_string()).unwrap();
    assert_eq!(bank.get_balance(&a).unwrap(), 7_500);
    bank.deposit(&a, 2_500, "back".to_string()).unwrap();
    assert_eq!(bank.get_balance(&a).unwrap(), 10_000);
    assert_eq!(bank.get_balance(&b).unwrap(), 7_000);
}

#[test]
fn return_transfer_restores_both_balances() {
    let mut bank = BankingSystem::new(100);
    let a = open(&mut bank, "A", AccountType::Current, 10_000);
    let b = open(&mut bank, "B", AccountType::Current, 7_000);
    bank.transfer(&a, &b, 4_000, "there".to_string()).unwrap();
    assert_eq!(bank.get_balance(&a).unwrap() + bank.get_balance(&b).unwrap(), 17_000);
    bank.transfer(&b, &a, 4_000, "back".to_string()).unwrap();
    assert_eq!(bank.get_balance(&a).unwrap(), 10_000);
    assert_eq!(bank.get_balance(&b).unwrap(), 7_000);
    assert_eq!(bank.get_all_transactions().len(), 2);
}

#[test]
fn recorded_transaction_joins_only_its_accounts_history() {
    let mut bank = BankingSystem::new(0);
    let a = open(&mut bank, "A", AccountType::Current, 100);
    let b = open(&mut bank, "B", AccountType::Current, 100);
    let before_b = bank.get_transaction_history(&b).len();
    let t = bank.deposit(&a, 5, "in".to_string()).unwrap();
    let h = bank.get_transaction_history(&a);
    assert_eq!(h.len(), 1);
    assert_eq!(h[0].transaction_id, t.transaction_id);
    assert_eq!(bank.get_transaction_history(&b).len(), before_b);
}

#[test]
fn colliding_account_number_is_refused() {
    let mut bank = BankingSystem::new(0);
    let at = Timestamp { secs: 1, nanos: 0 };
    let uuid = [0x42u8; 16];
    let first = bank
        .create_account_with("A".to_string(), AccountType::Savings, 700, ngn(), uuid, at)
        .unwrap();
    let e = bank
        .create_account_with("B".to_string(), AccountType::Current, 5, ngn(), uuid, at)
        .unwrap_err();
    assert_eq!(e.kind(), ErrorKind::TransactionFailed);
    assert_eq!(e.message(), "Account number already in use");
    let kept = bank.get_account(&first.account_number).unwrap();
    assert_eq!(kept.customer_id, "A");
    assert_eq!(kept.balance, 700);
    let e = bank
        .create_account_with("C".to_string(), AccountType::Current, -1, ngn(), uuid, at)
        .unwrap_err();
    assert_eq!(e.kind(), ErrorKind::InvalidAmount);
}

#[test]
fn created_accounts_have_distinct_numbers() {
    let mut bank = BankingSystem::new(0);
    let mut numbers = std::collections::HashSet::new();
    for i in 0..200 {
        let a = bank
            .create_account(format!("C{}", i), AccountType::Savings, i, ngn())
            .unwrap();
        assert!(numbers.insert(a.account_number.clone()));
        assert_eq!(bank.get_account(&a.account_number).unwrap().account_number, a.account_number);
    }
}

#[test]
fn balances_reconcile_with_the_audit_trail() {
    let mut bank = BankingSystem::new(100);
    let a = open(&mut bank, "A", AccountType::Current, 10_000);
    let b = open(&mut bank, "B", AccountType::Current, 2_000);
    bank.deposit(&a, 500, "d".to_string()).unwrap();
    bank.withdraw(&b, 300, "w".to_string()).unwrap();
    bank.transfer(&a, &b, 4_000, "t".to_string()).unwrap();
    let _ = bank.withdraw(&b, 1_000_000, "refused".to_string());
    let log = bank.get_all_transactions();
    for (n, opening) in [(&a, 10_000i64), (&b, 2_000i64)] {
        let credits: i64 = log.iter().filter(|t| t.to_account.as_deref() == Some(n.as_str())).map(|t| t.amount).sum();
        let debits: i64 = log.iter().filter(|t| t.from_account.as_deref() == Some(n.as_str())).map(|t| t.amount).sum();
        assert_eq!(bank.get_balance(n).unwrap(), opening + credits - debits);
    }
    assert!(log.iter().all(|t| t.status == TransactionStatus::Completed && t.amount > 0));
}

#[test]
fn transfer_joins_both_histories() {
    let mut bank = BankingSystem::new(0);
    let a = open(&mut bank, "A", AccountType::Current, 100);
    let b = open(&mut bank, "B", AccountType::Current, 100);
    bank.deposit(&a, 5, "in".to_string()).unwrap();
    let (ha, hb) = (bank.get_transaction_history(&a).len(), bank.get_transaction_history(&b).len());
    let t = bank.transfer(&a, &b, 7, "move".to_string()).unwrap();
    let after_a = bank.get_transaction_history(&a);
    let after_b = bank.get_transaction_history(&b);
    assert_eq!(after_a.len(), ha + 1);
    assert_eq!(after_b.len(), hb + 1);
    assert_eq!(after_a.last().unwrap().transaction_id, t.transaction_id);
    assert_eq!(after_b.last().unwrap().transaction_id, t.transaction_id);
}

#[test]
fn first_account_of_a_new_bank_opens() {
    let mut bank = BankingSystem::new(100_000);
    let acc = bank
        .create_account("CUST001".to_string(), AccountType::Savings, 500_000, ngn())
        .unwrap();
    assert_eq!(acc.customer_id, "CUST001");
    assert_eq!(acc.account_type, AccountType::Savings);
    assert_eq!(acc.balance, 500_000);
    assert_eq!(acc.currency, "NGN");
    assert_eq!(acc.status, AccountStatus::Active);
    assert_eq!(bank.get_balance(&acc.account_number).unwrap(), 500_000);
    assert!(bank.get_all_transactions().is_empty());
}
