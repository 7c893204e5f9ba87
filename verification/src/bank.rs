//! The banking engine: accounts filed by account number, the audit trail of
//! transactions, and the operations that move money between them.
use vstd::prelude::*;
use vstd::hash_map::StringHashMap;
use crate::clock;
use crate::error::{BankingError, BankingResult, ErrorKind};
use crate::ident::{
    account_number_for, account_number_from_uuid, fresh_uuid, reference_for, transaction_id_for,
};
use crate::ledger::{
    credited_to, debited_from, lemma_reconciles_after, lemma_sums_untouched, lemma_total_after_update,
    reconciles, total_balance,
};
use crate::model::{clock_reading, Account, AccountStatus, AccountType, Timestamp, Transaction, TransactionStatus, TransactionType};
use crate::money::{format_naira, naira_text};
use crate::statement::{history_of, involves, newest_first_prefix, sort_newest_first};

verus! {

/// The name an account status is shown by.
pub open spec fn status_label(s: AccountStatus) -> Seq<char> {
    match s {
        AccountStatus::Active => "Active"@,
        AccountStatus::Dormant => "Dormant"@,
        AccountStatus::Frozen => "Frozen"@,
        AccountStatus::Closed => "Closed"@,
    }
}

fn status_name(s: AccountStatus) -> (r: &'static str)
    ensures
        r@ == status_label(s),
{
    match s {
        AccountStatus::Active => "Active",
        AccountStatus::Dormant => "Dormant",
        AccountStatus::Frozen => "Frozen",
        AccountStatus::Closed => "Closed",
    }
}

/// Why account `n` cannot take part in a transaction: it does not exist,
/// or it is not active. `None` when it can.
pub open spec fn account_refusal(
    accounts: Map<Seq<char>, Account>,
    n: Seq<char>,
) -> Option<(ErrorKind, Seq<char>)> {
    if !accounts.contains_key(n) {
        Some((ErrorKind::AccountNotFound, n))
    } else if accounts[n].status != AccountStatus::Active {
        Some((ErrorKind::AccountInactive, "Account "@ + n + " is "@ + status_label(accounts[n].status)))
    } else {
        None
    }
}

/// Why a deposit of `amount` into `n` is refused; `None` when it goes ahead.
pub open spec fn deposit_refusal(
    accounts: Map<Seq<char>, Account>,
    n: Seq<char>,
    amount: i64,
) -> Option<(ErrorKind, Seq<char>)> {
    if amount <= 0 {
        Some((ErrorKind::InvalidAmount, "Deposit amount must be positive"@))
    } else {
        account_refusal(accounts, n)
    }
}

/// Why a withdrawal of `amount` from `n` is refused; `None` when it goes
/// ahead. A withdrawal may not leave less than `minimum` behind.
pub open spec fn withdraw_refusal(
    accounts: Map<Seq<char>, Account>,
    minimum: i64,
    n: Seq<char>,
    amount: i64,
) -> Option<(ErrorKind, Seq<char>)> {
    if amount <= 0 {
        Some((ErrorKind::InvalidAmount, "Withdrawal amount must be positive"@))
    } else if account_refusal(accounts, n) is Some {
        account_refusal(accounts, n)
    } else if accounts[n].balance - amount < minimum {
        Some(
            (
                ErrorKind::InsufficientFunds,
                "Insufficient funds. Available: \u{20a6}"@ + naira_text(accounts[n].balance - minimum)
                    + ", Required: \u{20a6}"@ + naira_text(amount as int)
                    + " (including minimum balance)"@,
            ),
        )
    } else {
        None
    }
}

/// Why a transfer of `amount` from `from` to `to` is refused; `None` when it
/// goes ahead. The checks come in this order: the amount, distinct accounts,
/// the source, the destination, funds above `minimum`, matching currencies.
pub open spec fn transfer_refusal(
    accounts: Map<Seq<char>, Account>,
    minimum: i64,
    from: Seq<char>,
    to: Seq<char>,
    amount: i64,
) -> Option<(ErrorKind, Seq<char>)> {
    if amount <= 0 {
        Some((ErrorKind::InvalidAmount, "Transfer amount must be positive"@))
    } else if from == to {
        Some((ErrorKind::TransactionFailed, "Cannot transfer to same account"@))
    } else if account_refusal(accounts, from) is Some {
        account_refusal(accounts, from)
    } else if account_refusal(accounts, to) is Some {
        account_refusal(accounts, to)
    } else if accounts[from].balance - amount < minimum {
        Some((ErrorKind::InsufficientFunds, "Insufficient funds in account "@ + from))
    } else if accounts[from].currency@ != accounts[to].currency@ {
        Some((ErrorKind::CurrencyMismatch, "Accounts have different currencies"@))
    } else {
        None
    }
}

/// `a` with `delta` added to its balance and its last update set to `at`.
pub open spec fn adjusted(a: Account, delta: int, at: Timestamp) -> Account {
    Account { balance: (a.balance + delta) as i64, updated_at: at, ..a }
}

/// `t` records a completed movement of `amount` of `currency` from `from` to
/// `to` (each possibly absent), described by `description`.
pub open spec fn records(
    t: Transaction,
    kind: TransactionType,
    from: Option<Seq<char>>,
    to: Option<Seq<char>>,
    amount: i64,
    currency: Seq<char>,
    description: Seq<char>,
) -> bool {
    &&& t.transaction_type == kind
    &&& match (t.from_account, from) {
        (Some(x), Some(y)) => x@ == y,
        (None, None) => true,
        _ => false,
    }
    &&& match (t.to_account, to) {
        (Some(x), Some(y)) => x@ == y,
        (None, None) => true,
        _ => false,
    }
    &&& t.amount == amount
    &&& t.currency@ == currency
    &&& t.description@ == description
    &&& t.status == TransactionStatus::Completed
    &&& t.completed_at is Some
}

/// The transaction's identifier and reference are of the generated shape,
/// and it was created and completed at instants the clock can read.
pub open spec fn freshly_made(t: Transaction) -> bool {
    &&& exists|b: [u8; 16]| t.transaction_id@ == transaction_id_for(#[trigger] b@)
    &&& exists|b: [u8; 16]| t.reference@ == reference_for(#[trigger] b@)
    &&& clock_reading(t.created_at)
    &&& t.completed_at matches Some(at) && clock_reading(at)
}

/// An account and its most recent transactions, newest first.
pub struct MiniStatement {
    pub account: Account,
    pub transactions: Vec<Transaction>,
}

fn involves_account(t: &Transaction, n: &String) -> (r: bool)
    ensures
        r == involves(*t, n@),
{
    let out = match &t.from_account {
        Some(f) => *f == *n,
        None => false,
    };
    let into = match &t.to_account {
        Some(x) => *x == *n,
        None => false,
    };
    out || into
}

/// No account of `accounts` is filed under a number of the generated shape,
/// so no drawn account number can collide with one of them.
pub open spec fn no_generated_number(accounts: Map<Seq<char>, Account>) -> bool {
    forall|b: [u8; 16]| !accounts.contains_key(#[trigger] account_number_for(b@))
}

/// The banking system: every account, filed under its account number; the
/// append-only audit trail of completed transactions; and the minimum
/// balance a withdrawal or transfer must leave behind (in kobo).
pub struct BankingSystem {
    accounts: StringHashMap<Account>,
    transactions: Vec<Transaction>,
    minimum_balance: i64,
    opening: Ghost<Map<Seq<char>, int>>,
}

impl BankingSystem {
    /// The accounts, by account number.
    pub closed spec fn accounts(&self) -> Map<Seq<char>, Account> {
        self.accounts@
    }

    /// The audit trail, oldest first.
    pub closed spec fn log(&self) -> Seq<Transaction> {
        self.transactions@
    }

    /// The minimum balance a debit must leave behind.
    pub closed spec fn minimum(&self) -> i64 {
        self.minimum_balance
    }

    /// The balance each account was opened with, by account number.
    pub closed spec fn opening_balances(&self) -> Map<Seq<char>, int> {
        self.opening@
    }

    /// Finitely many accounts, each filed under its own number, and books
    /// that balance against the audit trail.
    pub closed spec fn wf(&self) -> bool {
        &&& self.accounts@.dom().finite()
        &&& forall|k: Seq<char>| #[trigger]
            self.accounts@.contains_key(k) ==> self.accounts@[k].account_number@ == k
        &&& reconciles(self.accounts@, self.opening@, self.transactions@)
    }

    /// What a well-formed banking system guarantees: each account is filed
    /// under its own number, and the books balance — every balance is the
    /// opening balance plus what the audit trail credits minus what it
    /// debits, and every logged transaction is a completed movement of a
    /// positive amount between known accounts.
    pub proof fn law_books_balance(&self)
        requires
            self.wf(),
        ensures
            self.accounts().dom().finite(),
            forall|k: Seq<char>| #[trigger]
                self.accounts().contains_key(k) ==> self.accounts()[k].account_number@ == k,
            reconciles(self.accounts(), self.opening_balances(), self.log()),
    {
    }

    /// A deposit of `amount` into `n`, if it goes ahead, keeps the balance
    /// within `i64`.
    pub open spec fn deposit_fits(&self, n: Seq<char>, amount: i64) -> bool {
        deposit_refusal(self.accounts(), n, amount) is None ==> self.accounts()[n].balance + amount
            <= i64::MAX
    }

    /// The sums a withdrawal of `amount` from `n` computes stay within `i64`.
    pub open spec fn withdraw_fits(&self, n: Seq<char>, amount: i64) -> bool {
        (amount > 0 && account_refusal(self.accounts(), n) is None) ==> {
            &&& self.accounts()[n].balance - amount >= i64::MIN
            &&& self.accounts()[n].balance - amount < self.minimum() ==> self.accounts()[n].balance
                - self.minimum() >= i64::MIN
        }
    }

    /// The sums a transfer of `amount` from `from` to `to` computes stay
    /// within `i64`.
    pub open spec fn transfer_fits(&self, from: Seq<char>, to: Seq<char>, amount: i64) -> bool {
        &&& (amount > 0 && from != to && account_refusal(self.accounts(), from) is None
            && account_refusal(self.accounts(), to) is None) ==> self.accounts()[from].balance
            - amount >= i64::MIN
        &&& transfer_refusal(self.accounts(), self.minimum(), from, to, amount) is None
            ==> self.accounts()[to].balance + amount <= i64::MAX
    }

    /// A banking system with no accounts and no transactions, whose debits
    /// must leave at least `minimum_balance` behind.
    pub fn new(minimum_balance: i64) -> (b: BankingSystem)
        ensures
            b.wf(),
            b.accounts() == Map::<Seq<char>, Account>::empty(),
            b.log() == Seq::<Transaction>::empty(),
            b.minimum() == minimum_balance,
            b.opening_balances() == Map::<Seq<char>, int>::empty(),
    {
        let b = BankingSystem {
            accounts: StringHashMap::new(),
            transactions: Vec::new(),
            minimum_balance,
            opening: Ghost(Map::empty()),
        };
        assert(b.opening@.dom() =~= b.accounts@.dom());
        b
    }

    /// The minimum balance a debit must leave behind.
    pub fn minimum_balance(&self) -> (m: i64)
        ensures
            m == self.minimum(),
    {
        self.minimum_balance
    }

    /// Opens an account and files it under a freshly generated number that
    /// no account holds yet. A negative opening balance is refused; the
    /// minimum balance is not applied at opening. Should every one of a run
    /// of drawn numbers already be taken, the opening is refused rather than
    /// an existing account replaced.
    pub fn create_account(
        &mut self,
        customer_id: String,
        account_type: AccountType,
        initial_balance: i64,
        currency: String,
    ) -> (r: BankingResult<Account>)
        requires
            old(self).wf(),
        ensures
            final(self).wf(),
            final(self).minimum() == old(self).minimum(),
            final(self).log() == old(self).log(),
            initial_balance < 0 ==> r is Err,
            initial_balance >= 0 && no_generated_number(old(self).accounts()) ==> r is Ok,
            initial_balance >= 0 && old(self).accounts().dom() == Set::<Seq<char>>::empty() ==> r is Ok,
            r matches Err(e) ==> {
                &&& initial_balance < 0 ==> e@ == (ErrorKind::InvalidAmount, "Initial balance cannot be negative"@)
                &&& initial_balance >= 0 ==> e@ == (ErrorKind::TransactionFailed, "Account number already in use"@)
                &&& final(self).accounts() == old(self).accounts()
                &&& final(self).opening_balances() == old(self).opening_balances()
            },
            r matches Ok(a) ==> {
                &&& exists|b: [u8; 16]| a.account_number@ == account_number_for(#[trigger] b@)
                &&& !old(self).accounts().contains_key(a.account_number@)
                &&& a.customer_id == customer_id
                &&& a.account_type == account_type
                &&& a.balance == initial_balance
                &&& a.currency == currency
                &&& a.status == AccountStatus::Active
                &&& a.created_at == a.updated_at
                &&& clock_reading(a.created_at)
                &&& final(self).accounts() == old(self).accounts().insert(a.account_number@, a)
                &&& final(self).opening_balances() == old(self).opening_balances().insert(
                    a.account_number@,
                    initial_balance as int,
                )
            },
    {
        if initial_balance < 0 {
            return Err(
                BankingError::new(
                    ErrorKind::InvalidAmount,
                    String::from_str("Initial balance cannot be negative"),
                ),
            );
        }
        proof {
            if old(self).accounts().dom() == Set::<Seq<char>>::empty() {
                assert forall|b: [u8; 16]| !old(self).accounts().contains_key(
                    #[trigger] account_number_for(b@),
                ) by {
                    assert(!old(self).accounts().dom().contains(account_number_for(b@)));
                }
            }
        }
        let mut tries: usize = 0;
        while tries < 64
            invariant
                self.wf(),
                self == old(self),
                no_generated_number(self.accounts()) ==> tries == 0,
            decreases 64 - tries,
        {
            let uuid = fresh_uuid();
            let number = account_number_from_uuid(uuid);
            if !self.accounts.contains_key(number.as_str()) {
                let at = clock::now();
                return self.create_account_with(
                    customer_id,
                    account_type,
                    initial_balance,
                    currency,
                    uuid,
                    at,
                );
            }
            tries = tries + 1;
        }
        Err(
            BankingError::new(
                ErrorKind::TransactionFailed,
                String::from_str("Account number already in use"),
            ),
        )
    }

    /// [`BankingSystem::create_account`] when the UUID drawn for the account
    /// number is `uuid` and the clock reads `at`. A number already held by
    /// an account is refused.
    pub fn create_account_with(
        &mut self,
        customer_id: String,
        account_type: AccountType,
        initial_balance: i64,
        currency: String,
        uuid: [u8; 16],
        at: Timestamp,
    ) -> (r: BankingResult<Account>)
        requires
            old(self).wf(),
        ensures
            final(self).wf(),
            final(self).minimum() == old(self).minimum(),
            final(self).log() == old(self).log(),
            r is Err <==> initial_balance < 0 || old(self).accounts().contains_key(
                account_number_for(uuid@),
            ),
            r matches Err(e) ==> {
                &&& initial_balance < 0 ==> e@ == (ErrorKind::InvalidAmount, "Initial balance cannot be negative"@)
                &&& initial_balance >= 0 ==> e@ == (ErrorKind::TransactionFailed, "Account number already in use"@)
                &&& final(self).accounts() == old(self).accounts()
                &&& final(self).opening_balances() == old(self).opening_balances()
            },
            r matches Ok(a) ==> {
                &&& a.account_number@ == account_number_for(uuid@)
                &&& a.customer_id == customer_id
                &&& a.account_type == account_type
                &&& a.balance == initial_balance
                &&& a.currency == currency
                &&& a.status == AccountStatus::Active
                &&& a.created_at == at
                &&& a.updated_at == at
                &&& final(self).accounts() == old(self).accounts().insert(a.account_number@, a)
                &&& final(self).opening_balances() == old(self).opening_balances().insert(
                    a.account_number@,
                    initial_balance as int,
                )
            },
    {
        if initial_balance < 0 {
            return Err(
                BankingError::new(
                    ErrorKind::InvalidAmount,
                    String::from_str("Initial balance cannot be negative"),
                ),
            );
        }
        let account = Account::with_identity(
            customer_id,
            account_type,
            initial_balance,
            currency,
            uuid,
            at,
        );
        if self.accounts.contains_key(account.account_number.as_str()) {
            return Err(
                BankingError::new(
                    ErrorKind::TransactionFailed,
                    String::from_str("Account number already in use"),
                ),
            );
        }
        let ghost pre = self.accounts@;
        let ghost k = account.account_number@;
        let ghost log = self.transactions@;
        proof {
            assert forall|i: int| 0 <= i < log.len() implies !credited_to(#[trigger] log[i], k)
                && !debited_from(log[i], k) by {
                assert(crate::ledger::sound_entry(pre, log[i]));
            }
            lemma_sums_untouched(log, k);
        }
        let number = account.account_number.clone();
        self.accounts.insert(number, account.duplicate());
        self.opening = Ghost(self.opening@.insert(k, initial_balance as int));
        proof {
            let post = self.accounts@;
            assert(self.opening@.dom() =~= post.dom());
            assert forall|k2: Seq<char>| #[trigger] post.contains_key(k2) implies post[k2].balance
                == self.opening@[k2] + crate::ledger::credits(log, k2) - crate::ledger::debits(log, k2) by {
                if k2 != k {
                    assert(pre.contains_key(k2));
                }
            }
            assert forall|i: int| 0 <= i < log.len() implies crate::ledger::sound_entry(post, #[trigger] log[i]) by {
                assert(crate::ledger::sound_entry(pre, log[i]));
            }
        }
        Ok(account)
    }

    /// The account filed under `account_number`.
    pub fn get_account(&self, account_number: &str) -> (r: BankingResult<Account>)
        requires
            self.wf(),
        ensures
            r is Ok <==> self.accounts().contains_key(account_number@),
            r matches Ok(a) ==> a == self.accounts()[account_number@] && a.account_number@
                == account_number@,
            r matches Err(e) ==> e@ == (ErrorKind::AccountNotFound, account_number@),
    {
        match self.accounts.get(account_number) {
            Some(a) => Ok(a.duplicate()),
            None => Err(
                BankingError::new(ErrorKind::AccountNotFound, String::from_str(account_number)),
            ),
        }
    }

    /// Checks that `account_number` exists and is active.
    fn validate_account(&self, account_number: &str) -> (r: Result<(), BankingError>)
        ensures
            r is Err <==> account_refusal(self.accounts(), account_number@) is Some,
            r matches Err(e) ==> e@ == account_refusal(self.accounts(), account_number@)->0,
    {
        match self.accounts.get(account_number) {
            None => Err(
                BankingError::new(ErrorKind::AccountNotFound, String::from_str(account_number)),
            ),
            Some(a) => {
                if a.status != AccountStatus::Active {
                    let mut m = String::from_str("Account ");
                    m.append(account_number);
                    m.append(" is ");
                    m.append(status_name(a.status));
                    Err(BankingError::new(ErrorKind::AccountInactive, m))
                } else {
                    Ok(())
                }
            },
        }
    }

    /// The balance of the account filed under `account_number`.
    pub fn get_balance(&self, account_number: &str) -> (r: BankingResult<i64>)
        requires
            self.wf(),
        ensures
            r is Ok <==> self.accounts().contains_key(account_number@),
            r matches Ok(b) ==> b == self.accounts()[account_number@].balance,
            r matches Err(e) ==> e@ == (ErrorKind::AccountNotFound, account_number@),
    {
        match self.get_account(account_number) {
            Ok(a) => Ok(a.balance),
            Err(e) => Err(e),
        }
    }

    /// Credits `amount` to the account filed under `account_number` and
    /// records the completed deposit (in `NGN`) in the audit trail.
    pub fn deposit(&mut self, account_number: &str, amount: i64, description: String) -> (r:
        BankingResult<Transaction>)
        requires
            old(self).wf(),
            old(self).deposit_fits(account_number@, amount),
        ensures
            final(self).wf(),
            final(self).minimum() == old(self).minimum(),
            final(self).opening_balances() == old(self).opening_balances(),
            r is Err <==> deposit_refusal(old(self).accounts(), account_number@, amount) is Some,
            r matches Err(e) ==> {
                &&& e@ == deposit_refusal(old(self).accounts(), account_number@, amount)->0
                &&& final(self).accounts() == old(self).accounts()
                &&& final(self).log() == old(self).log()
            },
            r matches Ok(t) ==> {
                &&& old(self).accounts()[account_number@].status == AccountStatus::Active
                &&& records(t, TransactionType::Deposit, None, Some(account_number@), amount, "NGN"@, description@)
                &&& freshly_made(t)
                &&& clock_reading(final(self).accounts()[account_number@].updated_at)
                &&& final(self).accounts() == old(self).accounts().insert(
                    account_number@,
                    adjusted(
                        old(self).accounts()[account_number@],
                        amount as int,
                        final(self).accounts()[account_number@].updated_at,
                    ),
                )
                &&& final(self).log() == old(self).log().push(t)
                &&& total_balance(final(self).accounts()) == total_balance(old(self).accounts()) + amount
            },
    {
        if amount <= 0 {
            return Err(
                BankingError::new(
                    ErrorKind::InvalidAmount,
                    String::from_str("Deposit amount must be positive"),
                ),
            );
        }
        match self.validate_account(account_number) {
            Err(e) => { return Err(e); },
            Ok(()) => {},
        }
        let id = fresh_uuid();
        let created_at = clock::now();
        let reference = fresh_uuid();
        let updated_at = clock::now();
        let completed_at = clock::now();
        self.deposit_with(
            account_number,
            amount,
            description,
            id,
            reference,
            created_at,
            updated_at,
            completed_at,
        )
    }

    /// [`BankingSystem::deposit`] when the UUIDs drawn for the transaction
    /// are `id_uuid` (identifier) and `reference_uuid` (reference), and the
    /// clock reads `created_at` when the transaction is made, `updated_at`
    /// when the account is credited and `completed_at` when it completes.
    pub fn deposit_with(
        &mut self,
        account_number: &str,
        amount: i64,
        description: String,
        id_uuid: [u8; 16],
        reference_uuid: [u8; 16],
        created_at: Timestamp,
        updated_at: Timestamp,
        completed_at: Timestamp,
    ) -> (r: BankingResult<Transaction>)
        requires
            old(self).wf(),
            old(self).deposit_fits(account_number@, amount),
        ensures
            final(self).wf(),
            final(self).minimum() == old(self).minimum(),
            final(self).opening_balances() == old(self).opening_balances(),
            r is Err <==> deposit_refusal(old(self).accounts(), account_number@, amount) is Some,
            r matches Err(e) ==> {
                &&& e@ == deposit_refusal(old(self).accounts(), account_number@, amount)->0
                &&& final(self).accounts() == old(self).accounts()
                &&& final(self).log() == old(self).log()
            },
            r matches Ok(t) ==> {
                &&& records(t, TransactionType::Deposit, None, Some(account_number@), amount, "NGN"@, description@)
                &&& t.transaction_id@ == transaction_id_for(id_uuid@)
                &&& t.reference@ == reference_for(reference_uuid@)
                &&& t.created_at == created_at
                &&& t.completed_at == Some(completed_at)
                &&& final(self).accounts() == old(self).accounts().insert(
                    account_number@,
                    adjusted(old(self).accounts()[account_number@], amount as int, updated_at),
                )
                &&& final(self).log() == old(self).log().push(t)
                &&& total_balance(final(self).accounts()) == total_balance(old(self).accounts()) + amount
            },
    {
        if amount <= 0 {
            return Err(
                BankingError::new(
                    ErrorKind::InvalidAmount,
                    String::from_str("Deposit amount must be positive"),
                ),
            );
        }
        match self.validate_account(account_number) {
            Err(e) => { return Err(e); },
            Ok(()) => {},
        }
        let pending = Transaction::with_identity(
            TransactionType::Deposit,
            None,
            Some(String::from_str(account_number)),
            amount,
            String::from_str("NGN"),
            description,
            id_uuid,
            reference_uuid,
            created_at,
        );
        let ghost pre = self.accounts@;
        let ghost log = self.transactions@;
        let mut account = self.accounts.get(account_number).unwrap().duplicate();
        account.balance = account.balance + amount;
        account.updated_at = updated_at;
        proof {
            lemma_total_after_update(self.accounts@, account_number@, account);
        }
        self.accounts.insert(String::from_str(account_number), account);
        let mut t = pending;
        t.status = TransactionStatus::Completed;
        t.completed_at = Some(completed_at);
        self.transactions.push(t.duplicate());
        proof {
            assert(self.accounts@.dom() =~= pre.dom());
            assert forall|k: Seq<char>| #[trigger] pre.contains_key(k) implies self.accounts@[k].balance
                == pre[k].balance + (if credited_to(t, k) { t.amount as int } else { 0 }) - (if debited_from(t, k) {
                t.amount as int
            } else {
                0
            }) by {}
            lemma_reconciles_after(pre, self.opening@, log, self.accounts@, t);
        }
        Ok(t)
    }

    /// Debits `amount` from the account filed under `account_number`,
    /// provided at least the minimum balance stays behind, and records the
    /// completed withdrawal (in `NGN`) in the audit trail.
    pub fn withdraw(&mut self, account_number: &str, amount: i64, description: String) -> (r:
        BankingResult<Transaction>)
        requires
            old(self).wf(),
            old(self).withdraw_fits(account_number@, amount),
        ensures
            final(self).wf(),
            final(self).minimum() == old(self).minimum(),
            final(self).opening_balances() == old(self).opening_balances(),
            r is Err <==> withdraw_refusal(old(self).accounts(), old(self).minimum(), account_number@, amount) is Some,
            r matches Err(e) ==> {
                &&& e@ == withdraw_refusal(old(self).accounts(), old(self).minimum(), account_number@, amount)->0
                &&& final(self).accounts() == old(self).accounts()
                &&& final(self).log() == old(self).log()
            },
            r matches Ok(t) ==> {
                &&& old(self).accounts()[account_number@].status == AccountStatus::Active
                &&& final(self).accounts()[account_number@].balance >= old(self).minimum()
                &&& records(t, TransactionType::Withdrawal, Some(account_number@), None, amount, "NGN"@, description@)
                &&& freshly_made(t)
                &&& clock_reading(final(self).accounts()[account_number@].updated_at)
                &&& final(self).accounts() == old(self).accounts().insert(
                    account_number@,
                    adjusted(
                        old(self).accounts()[account_number@],
                        -amount,
                        final(self).accounts()[account_number@].updated_at,
                    ),
                )
                &&& final(self).log() == old(self).log().push(t)
                &&& total_balance(final(self).accounts()) == total_balance(old(self).accounts()) - amount
            },
    {
        match self.withdraw_check(account_number, amount) {
            Err(e) => { return Err(e); },
            Ok(()) => {},
        }
        let id = fresh_uuid();
        let created_at = clock::now();
        let reference = fresh_uuid();
        let updated_at = clock::now();
        let completed_at = clock::now();
        self.withdraw_with(
            account_number,
            amount,
            description,
            id,
            reference,
            created_at,
            updated_at,
            completed_at,
        )
    }

    fn withdraw_check(&self, account_number: &str, amount: i64) -> (r: Result<(), BankingError>)
        requires
            self.withdraw_fits(account_number@, amount),
        ensures
            r is Err <==> withdraw_refusal(self.accounts(), self.minimum(), account_number@, amount) is Some,
            r matches Err(e) ==> e@ == withdraw_refusal(self.accounts(), self.minimum(), account_number@, amount)->0,
    {
        if amount <= 0 {
            return Err(
                BankingError::new(
                    ErrorKind::InvalidAmount,
                    String::from_str("Withdrawal amount must be positive"),
                ),
            );
        }
        match self.validate_account(account_number) {
            Err(e) => { return Err(e); },
            Ok(()) => {},
        }
        let balance = self.accounts.get(account_number).unwrap().balance;
        let new_balance = balance - amount;
        if new_balance < self.minimum_balance {
            let mut m = String::from_str("Insufficient funds. Available: \u{20a6}");
            m.append(format_naira(balance - self.minimum_balance).as_str());
            m.append(", Required: \u{20a6}");
            m.append(format_naira(amount).as_str());
            m.append(" (including minimum balance)");
            return Err(BankingError::new(ErrorKind::InsufficientFunds, m));
        }
        Ok(())
    }

    /// [`BankingSystem::withdraw`] when the UUIDs drawn for the transaction
    /// are `id_uuid` (identifier) and `reference_uuid` (reference), and the
    /// clock reads `created_at` when the transaction is made, `updated_at`
    /// when the account is debited and `completed_at` when it completes.
    pub fn withdraw_with(
        &mut self,
        account_number: &str,
        amount: i64,
        description: String,
        id_uuid: [u8; 16],
        reference_uuid: [u8; 16],
        created_at: Timestamp,
        updated_at: Timestamp,
        completed_at: Timestamp,
    ) -> (r: BankingResult<Transaction>)
        requires
            old(self).wf(),
            old(self).withdraw_fits(account_number@, amount),
        ensures
            final(self).wf(),
            final(self).minimum() == old(self).minimum(),
            final(self).opening_balances() == old(self).opening_balances(),
            r is Err <==> withdraw_refusal(old(self).accounts(), old(self).minimum(), account_number@, amount) is Some,
            r matches Err(e) ==> {
                &&& e@ == withdraw_refusal(old(self).accounts(), old(self).minimum(), account_number@, amount)->0
                &&& final(self).accounts() == old(self).accounts()
                &&& final(self).log() == old(self).log()
            },
            r matches Ok(t) ==> {
                &&& records(t, TransactionType::Withdrawal, Some(account_number@), None, amount, "NGN"@, description@)
                &&& t.transaction_id@ == transaction_id_for(id_uuid@)
                &&& t.reference@ == reference_for(reference_uuid@)
                &&& t.created_at == created_at
                &&& t.completed_at == Some(completed_at)
                &&& final(self).accounts() == old(self).accounts().insert(
                    account_number@,
                    adjusted(old(self).accounts()[account_number@], -amount, updated_at),
                )
                &&& final(self).log() == old(self).log().push(t)
                &&& total_balance(final(self).accounts()) == total_balance(old(self).accounts()) - amount
            },
    {
        match self.withdraw_check(account_number, amount) {
            Err(e) => { return Err(e); },
            Ok(()) => {},
        }
        let pending = Transaction::with_identity(
            TransactionType::Withdrawal,
            Some(String::from_str(account_number)),
            None,
            amount,
            String::from_str("NGN"),
            description,
            id_uuid,
            reference_uuid,
            created_at,
        );
        let ghost pre = self.accounts@;
        let ghost log = self.transactions@;
        let mut account = self.accounts.get(account_number).unwrap().duplicate();
        account.balance = account.balance - amount;
        account.updated_at = updated_at;
        proof {
            lemma_total_after_update(self.accounts@, account_number@, account);
        }
        self.accounts.insert(String::from_str(account_number), account);
        let mut t = pending;
        t.status = TransactionStatus::Completed;
        t.completed_at = Some(completed_at);
        self.transactions.push(t.duplicate());
        proof {
            assert(self.accounts@.dom() =~= pre.dom());
            assert forall|k: Seq<char>| #[trigger] pre.contains_key(k) implies self.accounts@[k].balance
                == pre[k].balance + (if credited_to(t, k) { t.amount as int } else { 0 }) - (if debited_from(t, k) {
                t.amount as int
            } else {
                0
            }) by {}
            lemma_reconciles_after(pre, self.opening@, log, self.accounts@, t);
        }
        Ok(t)
    }

    /// Moves `amount` from the account filed under `from_account` to the one
    /// filed under `to_account` (debit and credit together, or neither) and
    /// records the completed transfer, in the source's currency.
    pub fn transfer(
        &mut self,
        from_account: &str,
        to_account: &str,
        amount: i64,
        description: String,
    ) -> (r: BankingResult<Transaction>)
        requires
            old(self).wf(),
            old(self).transfer_fits(from_account@, to_account@, amount),
        ensures
            final(self).wf(),
            final(self).minimum() == old(self).minimum(),
            final(self).opening_balances() == old(self).opening_balances(),
            r is Err <==> transfer_refusal(old(self).accounts(), old(self).minimum(), from_account@, to_account@, amount) is Some,
            r matches Err(e) ==> {
                &&& e@ == transfer_refusal(old(self).accounts(), old(self).minimum(), from_account@, to_account@, amount)->0
                &&& final(self).accounts() == old(self).accounts()
                &&& final(self).log() == old(self).log()
            },
            r matches Ok(t) ==> {
                &&& from_account@ != to_account@
                &&& old(self).accounts()[from_account@].status == AccountStatus::Active
                &&& old(self).accounts()[to_account@].status == AccountStatus::Active
                &&& old(self).accounts()[from_account@].currency@ == old(self).accounts()[to_account@].currency@
                &&& final(self).accounts()[from_account@].balance >= old(self).minimum()
                &&& records(
                    t,
                    TransactionType::Transfer,
                    Some(from_account@),
                    Some(to_account@),
                    amount,
                    old(self).accounts()[from_account@].currency@,
                    description@,
                )
                &&& freshly_made(t)
                &&& clock_reading(final(self).accounts()[from_account@].updated_at)
                &&& clock_reading(final(self).accounts()[to_account@].updated_at)
                &&& final(self).accounts() == old(self).accounts().insert(
                    from_account@,
                    adjusted(
                        old(self).accounts()[from_account@],
                        -amount,
                        final(self).accounts()[from_account@].updated_at,
                    ),
                ).insert(
                    to_account@,
                    adjusted(
                        old(self).accounts()[to_account@],
                        amount as int,
                        final(self).accounts()[to_account@].updated_at,
                    ),
                )
                &&& final(self).log() == old(self).log().push(t)
                &&& total_balance(final(self).accounts()) == total_balance(old(self).accounts())
            },
    {
        match self.transfer_check(from_account, to_account, amount) {
            Err(e) => { return Err(e); },
            Ok(()) => {},
        }
        let id = fresh_uuid();
        let created_at = clock::now();
        let reference = fresh_uuid();
        let debited_at = clock::now();
        let credited_at = clock::now();
        let completed_at = clock::now();
        self.transfer_with(
            from_account,
            to_account,
            amount,
            description,
            id,
            reference,
            created_at,
            debited_at,
            credited_at,
            completed_at,
        )
    }

    fn transfer_check(&self, from_account: &str, to_account: &str, amount: i64) -> (r: Result<
        (),
        BankingError,
    >)
        requires
            self.transfer_fits(from_account@, to_account@, amount),
        ensures
            r is Err <==> transfer_refusal(self.accounts(), self.minimum(), from_account@, to_account@, amount) is Some,
            r matches Err(e) ==> e@ == transfer_refusal(self.accounts(), self.minimum(), from_account@, to_account@, amount)->0,
    {
        if amount <= 0 {
            return Err(
                BankingError::new(
                    ErrorKind::InvalidAmount,
                    String::from_str("Transfer amount must be positive"),
                ),
            );
        }
        let from_text = String::from_str(from_account);
        let to_text = String::from_str(to_account);
        if from_text == to_text {
            return Err(
                BankingError::new(
                    ErrorKind::TransactionFailed,
                    String::from_str("Cannot transfer to same account"),
                ),
            );
        }
        match self.validate_account(from_account) {
            Err(e) => { return Err(e); },
            Ok(()) => {},
        }
        match self.validate_account(to_account) {
            Err(e) => { return Err(e); },
            Ok(()) => {},
        }
        let source = self.accounts.get(from_account).unwrap();
        let new_balance = source.balance - amount;
        if new_balance < self.minimum_balance {
            let mut m = String::from_str("Insufficient funds in account ");
            m.append(from_account);
            return Err(BankingError::new(ErrorKind::InsufficientFunds, m));
        }
        let dest = self.accounts.get(to_account).unwrap();
        if source.currency != dest.currency {
            return Err(
                BankingError::new(
                    ErrorKind::CurrencyMismatch,
                    String::from_str("Accounts have different currencies"),
                ),
            );
        }
        Ok(())
    }

    /// [`BankingSystem::transfer`] when the UUIDs drawn for the transaction
    /// are `id_uuid` (identifier) and `reference_uuid` (reference), and the
    /// clock reads `created_at` when the transaction is made, `debited_at`
    /// when the source is debited, `credited_at` when the destination is
    /// credited and `completed_at` when it completes.
    pub fn transfer_with(
        &mut self,
        from_account: &str,
        to_account: &str,
        amount: i64,
        description: String,
        id_uuid: [u8; 16],
        reference_uuid: [u8; 16],
        created_at: Timestamp,
        debited_at: Timestamp,
        credited_at: Timestamp,
        completed_at: Timestamp,
    ) -> (r: BankingResult<Transaction>)
        requires
            old(self).wf(),
            old(self).transfer_fits(from_account@, to_account@, amount),
        ensures
            final(self).wf(),
            final(self).minimum() == old(self).minimum(),
            final(self).opening_balances() == old(self).opening_balances(),
            r is Err <==> transfer_refusal(old(self).accounts(), old(self).minimum(), from_account@, to_account@, amount) is Some,
            r matches Err(e) ==> {
                &&& e@ == transfer_refusal(old(self).accounts(), old(self).minimum(), from_account@, to_account@, amount)->0
                &&& final(self).accounts() == old(self).accounts()
                &&& final(self).log() == old(self).log()
            },
            r matches Ok(t) ==> {
                &&& records(
                    t,
                    TransactionType::Transfer,
                    Some(from_account@),
                    Some(to_account@),
                    amount,
                    old(self).accounts()[from_account@].currency@,
                    description@,
                )
                &&& t.transaction_id@ == transaction_id_for(id_uuid@)
                &&& t.reference@ == reference_for(reference_uuid@)
                &&& t.created_at == created_at
                &&& t.completed_at == Some(completed_at)
                &&& final(self).accounts() == old(self).accounts().insert(
                    from_account@,
                    adjusted(old(self).accounts()[from_account@], -amount, debited_at),
                ).insert(
                    to_account@,
                    adjusted(old(self).accounts()[to_account@], amount as int, credited_at),
                )
                &&& final(self).log() == old(self).log().push(t)
                &&& total_balance(final(self).accounts()) == total_balance(old(self).accounts())
            },
    {
        match self.transfer_check(from_account, to_account, amount) {
            Err(e) => { return Err(e); },
            Ok(()) => {},
        }
        let source = self.accounts.get(from_account).unwrap();
        let pending = Transaction::with_identity(
            TransactionType::Transfer,
            Some(String::from_str(from_account)),
            Some(String::from_str(to_account)),
            amount,
            source.currency.clone(),
            description,
            id_uuid,
            reference_uuid,
            created_at,
        );
        let ghost before = self.accounts@;
        let ghost log = self.transactions@;
        let mut debited = self.accounts.get(from_account).unwrap().duplicate();
        debited.balance = debited.balance - amount;
        debited.updated_at = debited_at;
        proof {
            lemma_total_after_update(self.accounts@, from_account@, debited);
        }
        self.accounts.insert(String::from_str(from_account), debited);
        let mut credited = self.accounts.get(to_account).unwrap().duplicate();
        assert(credited == before[to_account@]);
        credited.balance = credited.balance + amount;
        credited.updated_at = credited_at;
        proof {
            lemma_total_after_update(self.accounts@, to_account@, credited);
        }
        self.accounts.insert(String::from_str(to_account), credited);
        let mut t = pending;
        t.status = TransactionStatus::Completed;
        t.completed_at = Some(completed_at);
        self.transactions.push(t.duplicate());
        proof {
            assert(self.accounts@.dom() =~= before.dom());
            assert forall|k: Seq<char>| #[trigger] before.contains_key(k) implies self.accounts@[k].balance
                == before[k].balance + (if credited_to(t, k) { t.amount as int } else { 0 }) - (if debited_from(t, k) {
                t.amount as int
            } else {
                0
            }) by {}
            lemma_reconciles_after(before, self.opening@, log, self.accounts@, t);
        }
        Ok(t)
    }

    /// The transactions that move money out of or into `account_number`, in
    /// the order they were recorded.
    pub fn get_transaction_history(&self, account_number: &str) -> (r: Vec<Transaction>)
        ensures
            r@ == history_of(self.log(), account_number@),
    {
        let n = String::from_str(account_number);
        let ghost pred = |t: Transaction| involves(t, account_number@);
        let mut r: Vec<Transaction> = Vec::new();
        let mut i: usize = 0;
        while i < self.transactions.len()
            invariant
                i <= self.transactions@.len(),
                n@ == account_number@,
                pred == (|t: Transaction| involves(t, account_number@)),
                r@ == self.transactions@.take(i as int).filter(pred),
            decreases self.transactions@.len() - i,
        {
            let t = &self.transactions[i];
            proof {
                assert(self.transactions@.take(i + 1) == self.transactions@.take(i as int).push(*t));
                self.transactions@.take(i as int).lemma_filter_push(*t, pred);
            }
            if involves_account(t, &n) {
                r.push(t.duplicate());
            }
            i = i + 1;
        }
        assert(self.transactions@.take(self.transactions@.len() as int) == self.transactions@);
        r
    }

    /// Every recorded transaction, oldest first.
    pub fn get_all_transactions(&self) -> (r: Vec<Transaction>)
        ensures
            r@ == self.log(),
    {
        crate::model::duplicate_all(&self.transactions)
    }

    /// The statement of `account_number`: the account and its `limit` most
    /// recent transactions, newest first (ties in recorded order).
    pub fn generate_mini_statement(&self, account_number: &str, limit: usize) -> (r:
        BankingResult<MiniStatement>)
        requires
            self.wf(),
        ensures
            r is Ok <==> self.accounts().contains_key(account_number@),
            r matches Err(e) ==> e@ == (ErrorKind::AccountNotFound, account_number@),
            r matches Ok(m) ==> {
                &&& m.account == self.accounts()[account_number@]
                &&& newest_first_prefix(
                    history_of(self.log(), account_number@),
                    limit as int,
                    m.transactions@,
                )
            },
    {
        let account = match self.get_account(account_number) {
            Ok(a) => a,
            Err(e) => { return Err(e); },
        };
        let history = self.get_transaction_history(account_number);
        let mut sorted = sort_newest_first(&history);
        sorted.truncate(limit);
        Ok(MiniStatement { account, transactions: sorted })
    }
}

} // verus!
