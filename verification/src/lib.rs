//! A small retail-banking ledger (accounts, deposits, withdrawals, transfers and
//! an audit trail of transactions), together with the little exercises that
//! travel with it: a number-guessing game, string measurements, a rectangle
//! check and a divisibility classifier.

pub mod bank;
pub mod branches;
pub mod clock;
pub mod error;
pub mod guessing;
pub mod ident;
pub mod laws;
pub mod ledger;
pub mod model;
pub mod money;
pub mod rects;
pub mod statement;
pub mod strings;
pub mod text;
