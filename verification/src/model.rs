//! The records the ledger keeps: accounts, transactions and the moments at
//! which they were made or changed.
use vstd::prelude::*;
use crate::clock;
use crate::ident::{
    account_number_for, account_number_from_uuid, fresh_uuid, reference_for,
    reference_from_uuid, transaction_id_for, transaction_id_from_uuid,
};

verus! {

/// The category of a customer's account.
#[derive(Debug, Clone, Copy, PartialEq, Eq, Structural)]
pub enum AccountType {
    Savings,
    Current,
    Fixed,
    Loan,
}

/// Where an account stands in its lifecycle; only active accounts transact.
#[derive(Debug, Clone, Copy, PartialEq, Eq, Structural)]
pub enum AccountStatus {
    Active,
    Dormant,
    Frozen,
    Closed,
}

/// The kind of movement a transaction records.
#[derive(Debug, Clone, Copy, PartialEq, Eq, Structural)]
pub enum TransactionType {
    Deposit,
    Withdrawal,
    Transfer,
    InterestCredit,
    Fee,
    Reversal,
}

/// Where a transaction stands in its lifecycle.
#[derive(Debug, Clone, Copy, PartialEq, Eq, Structural)]
pub enum TransactionStatus {
    Pending,
    Completed,
    Failed,
    Reversed,
}

/// A UTC instant: whole seconds since the Unix epoch and the nanoseconds
/// past that second. Instants are ordered by seconds, then by nanoseconds.
#[derive(Debug, Clone, Copy, PartialEq, Eq, Structural)]
pub struct Timestamp {
    pub secs: i64,
    pub nanos: u32,
}

/// `t` is an instant the wall clock can read: not before the Unix epoch,
/// with the nanoseconds under one second.
pub open spec fn clock_reading(t: Timestamp) -> bool {
    0 <= t.secs && t.nanos < 1_000_000_000
}

/// `a` is strictly earlier than `b`.
pub open spec fn earlier(a: Timestamp, b: Timestamp) -> bool {
    a.secs < b.secs || (a.secs == b.secs && a.nanos < b.nanos)
}

impl Timestamp {
    /// Whether `self` is strictly earlier than `other`.
    pub fn is_before(&self, other: &Timestamp) -> (r: bool)
        ensures
            r == earlier(*self, *other),
    {
        self.secs < other.secs || (self.secs == other.secs && self.nanos < other.nanos)
    }
}

/// A customer's account. The balance is held in minor units (kobo), never
/// as a fraction.
#[derive(Debug, Clone)]
pub struct Account {
    pub account_number: String,
    pub customer_id: String,
    pub account_type: AccountType,
    pub balance: i64,
    pub currency: String,
    pub status: AccountStatus,
    pub created_at: Timestamp,
    pub updated_at: Timestamp,
}

impl Account {
    /// Opens an account for `customer_id` holding `initial_balance`, with a
    /// fresh account number cut from a random UUID and the current time as
    /// both its creation and its last update.
    pub fn new(
        customer_id: String,
        account_type: AccountType,
        initial_balance: i64,
        currency: String,
    ) -> (a: Account)
        ensures
            exists|b: [u8; 16]| a.account_number@ == account_number_for(#[trigger] b@),
            a.customer_id == customer_id,
            a.account_type == account_type,
            a.balance == initial_balance,
            a.currency == currency,
            a.status == AccountStatus::Active,
            a.created_at == a.updated_at,
            clock_reading(a.created_at),
    {
        let id = fresh_uuid();
        let at = clock::now();
        Account::with_identity(customer_id, account_type, initial_balance, currency, id, at)
    }

    /// The account [`Account::new`] opens when the UUID drawn is `uuid` and
    /// the clock reads `at`.
    pub fn with_identity(
        customer_id: String,
        account_type: AccountType,
        initial_balance: i64,
        currency: String,
        uuid: [u8; 16],
        at: Timestamp,
    ) -> (a: Account)
        ensures
            a.account_number@ == account_number_for(uuid@),
            a.customer_id == customer_id,
            a.account_type == account_type,
            a.balance == initial_balance,
            a.currency == currency,
            a.status == AccountStatus::Active,
            a.created_at == at,
            a.updated_at == at,
    {
        Account {
            account_number: account_number_from_uuid(uuid),
            customer_id,
            account_type,
            balance: initial_balance,
            currency,
            status: AccountStatus::Active,
            created_at: at,
            updated_at: at,
        }
    }

    /// A field-by-field copy of the account.
    pub fn duplicate(&self) -> (r: Account)
        ensures
            r == *self,
    {
        Account {
            account_number: self.account_number.clone(),
            customer_id: self.customer_id.clone(),
            account_type: self.account_type,
            balance: self.balance,
            currency: self.currency.clone(),
            status: self.status,
            created_at: self.created_at,
            updated_at: self.updated_at,
        }
    }
}

/// One entry of the audit trail: a movement of money between at most two
/// accounts.
#[derive(Debug, Clone)]
pub struct Transaction {
    pub transaction_id: String,
    pub transaction_type: TransactionType,
    pub from_account: Option<String>,
    pub to_account: Option<String>,
    pub amount: i64,
    pub currency: String,
    pub description: String,
    pub status: TransactionStatus,
    pub created_at: Timestamp,
    pub completed_at: Option<Timestamp>,
    pub reference: String,
}

/// A copy of an optional text.
pub fn duplicate_text(s: &Option<String>) -> (r: Option<String>)
    ensures
        r == *s,
{
    match s {
        Some(t) => Some(t.clone()),
        None => None,
    }
}

impl Transaction {
    /// Records a pending movement of `amount` between the given accounts,
    /// with a fresh identifier and reference (each cut from its own random
    /// UUID) and the current time as its creation.
    pub fn new(
        transaction_type: TransactionType,
        from_account: Option<String>,
        to_account: Option<String>,
        amount: i64,
        currency: String,
        description: String,
    ) -> (t: Transaction)
        ensures
            exists|b: [u8; 16]| t.transaction_id@ == transaction_id_for(#[trigger] b@),
            exists|b: [u8; 16]| t.reference@ == reference_for(#[trigger] b@),
            t.transaction_type == transaction_type,
            t.from_account == from_account,
            t.to_account == to_account,
            t.amount == amount,
            t.currency == currency,
            t.description == description,
            t.status == TransactionStatus::Pending,
            clock_reading(t.created_at),
            t.completed_at is None,
    {
        let id = fresh_uuid();
        let at = clock::now();
        let reference = fresh_uuid();
        Transaction::with_identity(
            transaction_type,
            from_account,
            to_account,
            amount,
            currency,
            description,
            id,
            reference,
            at,
        )
    }

    /// The transaction [`Transaction::new`] records when the UUIDs drawn are
    /// `id_uuid` (identifier) and `reference_uuid` (reference) and the clock
    /// reads `at`.
    pub fn with_identity(
        transaction_type: TransactionType,
        from_account: Option<String>,
        to_account: Option<String>,
        amount: i64,
        currency: String,
        description: String,
        id_uuid: [u8; 16],
        reference_uuid: [u8; 16],
        at: Timestamp,
    ) -> (t: Transaction)
        ensures
            t.transaction_id@ == transaction_id_for(id_uuid@),
            t.reference@ == reference_for(reference_uuid@),
            t.transaction_type == transaction_type,
            t.from_account == from_account,
            t.to_account == to_account,
            t.amount == amount,
            t.currency == currency,
            t.description == description,
            t.status == TransactionStatus::Pending,
            t.created_at == at,
            t.completed_at is None,
    {
        Transaction {
            transaction_id: transaction_id_from_uuid(id_uuid),
            transaction_type,
            from_account,
            to_account,
            amount,
            currency,
            description,
            status: TransactionStatus::Pending,
            created_at: at,
            completed_at: None,
            reference: reference_from_uuid(reference_uuid),
        }
    }

    /// A field-by-field copy of the transaction.
    pub fn duplicate(&self) -> (r: Transaction)
        ensures
            r == *self,
    {
        Transaction {
            transaction_id: self.transaction_id.clone(),
            transaction_type: self.transaction_type,
            from_account: duplicate_text(&self.from_account),
            to_account: duplicate_text(&self.to_account),
            amount: self.amount,
            currency: self.currency.clone(),
            description: self.description.clone(),
            status: self.status,
            created_at: self.created_at,
            completed_at: self.completed_at,
            reference: self.reference.clone(),
        }
    }
}

/// A copy of a run of transactions, in the same order.
pub fn duplicate_all(ts: &Vec<Transaction>) -> (r: Vec<Transaction>)
    ensures
        r@ == ts@,
{
    let mut r: Vec<Transaction> = Vec::new();
    let mut i: usize = 0;
    while i < ts.len()
        invariant
            i <= ts.len(),
            r@ == ts@.take(i as int),
        decreases ts.len() - i,
    {
        r.push(ts[i].duplicate());
        assert(ts@.take(i + 1) == ts@.take(i as int).push(ts@[i as int]));
        i = i + 1;
    }
    assert(ts@.take(ts.len() as int) == ts@);
    r
}

} // verus!
