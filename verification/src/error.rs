//! What can go wrong in a banking operation, and how it reads.
use vstd::prelude::*;

verus! {

/// The failure classes of banking operations.
#[derive(Debug, Clone, Copy, PartialEq, Eq, Structural)]
pub enum ErrorKind {
    AccountNotFound,
    InsufficientFunds,
    AccountInactive,
    InvalidAmount,
    TransactionFailed,
    CurrencyMismatch,
}

/// A refused banking operation: its class and a message.
#[derive(Debug, Clone)]
pub enum BankingError {
    AccountNotFound(String),
    InsufficientFunds(String),
    AccountInactive(String),
    InvalidAmount(String),
    TransactionFailed(String),
    CurrencyMismatch(String),
}

/// The outcome of a banking operation.
pub type BankingResult<T> = Result<T, BankingError>;

impl View for BankingError {
    type V = (ErrorKind, Seq<char>);

    open spec fn view(&self) -> (ErrorKind, Seq<char>) {
        match self {
            BankingError::AccountNotFound(m) => (ErrorKind::AccountNotFound, m@),
            BankingError::InsufficientFunds(m) => (ErrorKind::InsufficientFunds, m@),
            BankingError::AccountInactive(m) => (ErrorKind::AccountInactive, m@),
            BankingError::InvalidAmount(m) => (ErrorKind::InvalidAmount, m@),
            BankingError::TransactionFailed(m) => (ErrorKind::TransactionFailed, m@),
            BankingError::CurrencyMismatch(m) => (ErrorKind::CurrencyMismatch, m@),
        }
    }
}

/// The words that open the displayed text of each failure class.
pub open spec fn kind_caption(kind: ErrorKind) -> Seq<char> {
    match kind {
        ErrorKind::AccountNotFound => "Account not found: "@,
        ErrorKind::InsufficientFunds => "Insufficient funds: "@,
        ErrorKind::AccountInactive => "Account inactive: "@,
        ErrorKind::InvalidAmount => "Invalid amount: "@,
        ErrorKind::TransactionFailed => "Transaction failed: "@,
        ErrorKind::CurrencyMismatch => "Currency mismatch: "@,
    }
}

/// The displayed text of a failure: its caption followed by its message.
pub open spec fn error_text(e: (ErrorKind, Seq<char>)) -> Seq<char> {
    kind_caption(e.0) + e.1
}

fn caption(kind: ErrorKind) -> (s: &'static str)
    ensures
        s@ == kind_caption(kind),
{
    match kind {
        ErrorKind::AccountNotFound => "Account not found: ",
        ErrorKind::InsufficientFunds => "Insufficient funds: ",
        ErrorKind::AccountInactive => "Account inactive: ",
        ErrorKind::InvalidAmount => "Invalid amount: ",
        ErrorKind::TransactionFailed => "Transaction failed: ",
        ErrorKind::CurrencyMismatch => "Currency mismatch: ",
    }
}

impl BankingError {
    /// The failure of class `kind` carrying `message`.
    pub fn new(kind: ErrorKind, message: String) -> (e: BankingError)
        ensures
            e@ == (kind, message@),
    {
        match kind {
            ErrorKind::AccountNotFound => BankingError::AccountNotFound(message),
            ErrorKind::InsufficientFunds => BankingError::InsufficientFunds(message),
            ErrorKind::AccountInactive => BankingError::AccountInactive(message),
            ErrorKind::InvalidAmount => BankingError::InvalidAmount(message),
            ErrorKind::TransactionFailed => BankingError::TransactionFailed(message),
            ErrorKind::CurrencyMismatch => BankingError::CurrencyMismatch(message),
        }
    }

    /// The class of the failure.
    pub fn kind(&self) -> (k: ErrorKind)
        ensures
            k == self@.0,
    {
        match self {
            BankingError::AccountNotFound(_) => ErrorKind::AccountNotFound,
            BankingError::InsufficientFunds(_) => ErrorKind::InsufficientFunds,
            BankingError::AccountInactive(_) => ErrorKind::AccountInactive,
            BankingError::InvalidAmount(_) => ErrorKind::InvalidAmount,
            BankingError::TransactionFailed(_) => ErrorKind::TransactionFailed,
            BankingError::CurrencyMismatch(_) => ErrorKind::CurrencyMismatch,
        }
    }

    /// The message the failure carries.
    pub fn message(&self) -> (m: &String)
        ensures
            m@ == self@.1,
    {
        match self {
            BankingError::AccountNotFound(m) => m,
            BankingError::InsufficientFunds(m) => m,
            BankingError::AccountInactive(m) => m,
            BankingError::InvalidAmount(m) => m,
            BankingError::TransactionFailed(m) => m,
            BankingError::CurrencyMismatch(m) => m,
        }
    }

    /// The human-readable text of the failure, such as
    /// `Account not found: ACC0123456789`.
    pub fn to_display_string(&self) -> (s: String)
        ensures
            s@ == error_text(self@),
    {
        let mut s = String::from_str(caption(self.kind()));
        s.append(self.message().as_str());
        s
    }
}

} // verus!
