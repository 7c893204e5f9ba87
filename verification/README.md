# bank_app

A small retail-banking ledger written in Verus, with its behaviour stated in
contracts and proved: accounts filed by account number, deposits,
withdrawals (never below a minimum balance), transfers (debit and credit
together, the money held across all accounts unchanged), an append-only
audit trail of transactions and newest-first mini statements. Account
numbers are never reused, and the books always balance: every account holds
its opening balance plus what the audit trail credits to it minus what it
debits from it. Money is held
in integer minor units (kobo) throughout.

The same crate carries the small exercises that came with the ledger: the
rules of a number-guessing game, UTF-8 string measurement, a rectangle
check and a divisibility classifier.

Layout:

- `src/bank.rs` – the banking engine and the exact conditions under which
  each operation is refused;
- `src/model.rs`, `src/error.rs` – accounts, transactions, instants, errors;
- `src/ident.rs`, `src/clock.rs` – identifiers cut from random UUIDs, and
  the wall clock (both through the `uuid` and `chrono` crates);
- `src/ledger.rs`, `src/laws.rs` – the total balance and the properties that
  span several operations;
- `src/statement.rs` – transaction histories and the newest-first ordering;
- `src/money.rs`, `src/text.rs` – amounts as text, strings as characters;
- `src/guessing.rs`, `src/strings.rs`, `src/rects.rs`, `src/branches.rs` –
  the exercises;
- `app/` – the console programs (`bank`, `guess`, `strings`, `rects`,
  `branches`, `functions`, `hello`), which print what the library computes;
- `tests/` – scenario tests.
