//! Properties of the ledger that span several operations.
use vstd::prelude::*;
use crate::bank::{adjusted, deposit_refusal, transfer_refusal, withdraw_refusal};
use crate::ledger::{lemma_total_after_update, total_balance};
use crate::error::ErrorKind;
use crate::ledger::{credited_to, debited_from};
use crate::model::{earlier, Account, AccountStatus, Timestamp, Transaction};
use crate::statement::{history_of, involves, is_ordering, listed_before, newest_first_prefix, newest_first_order};
use vstd::set_lib::{lemma_int_range, lemma_subset_equality, set_int_range};

verus! {

/// A deposit goes ahead exactly when the amount is positive and the account
/// exists and is active; the account's balance plays no part.
pub proof fn law_deposit_goes_ahead(accounts: Map<Seq<char>, Account>, n: Seq<char>, amount: i64)
    ensures
        deposit_refusal(accounts, n, amount) is None <==> (amount > 0 && accounts.contains_key(n)
            && accounts[n].status == AccountStatus::Active),
{
}

/// A withdrawal goes ahead exactly when the amount is positive, the account
/// exists and is active, and at least `minimum` stays behind.
pub proof fn law_withdrawal_goes_ahead(
    accounts: Map<Seq<char>, Account>,
    minimum: i64,
    n: Seq<char>,
    amount: i64,
)
    ensures
        withdraw_refusal(accounts, minimum, n, amount) is None <==> (amount > 0 && accounts.contains_key(n)
            && accounts[n].status == AccountStatus::Active && accounts[n].balance - amount >= minimum),
{
}

/// A transfer goes ahead exactly when the amount is positive, the two
/// account numbers differ, both accounts exist and are active, the source
/// keeps at least `minimum`, and the two currencies match. Nothing else the
/// accounts hold (such as their customer) plays a part.
pub proof fn law_transfer_goes_ahead(
    accounts: Map<Seq<char>, Account>,
    minimum: i64,
    from: Seq<char>,
    to: Seq<char>,
    amount: i64,
)
    ensures
        transfer_refusal(accounts, minimum, from, to, amount) is None <==> (amount > 0 && from != to
            && accounts.contains_key(from) && accounts.contains_key(to)
            && accounts[from].status == AccountStatus::Active
            && accounts[to].status == AccountStatus::Active
            && accounts[from].balance - amount >= minimum
            && accounts[from].currency@ == accounts[to].currency@),
{
}

/// `r` refuses with a failure of class `kind`.
pub open spec fn refused_with(r: Option<(ErrorKind, Seq<char>)>, kind: ErrorKind) -> bool {
    r matches Some(e) && e.0 == kind
}

/// Which failure refuses a deposit: a non-positive amount is an invalid
/// amount; otherwise a missing account is not found (the message is the
/// number asked for) and an account that is not active is inactive.
pub proof fn law_deposit_refusal_kinds(accounts: Map<Seq<char>, Account>, n: Seq<char>, amount: i64)
    ensures
        amount <= 0 ==> refused_with(deposit_refusal(accounts, n, amount), ErrorKind::InvalidAmount),
        amount > 0 && !accounts.contains_key(n) ==> deposit_refusal(accounts, n, amount) == Some(
            (ErrorKind::AccountNotFound, n),
        ),
        amount > 0 && accounts.contains_key(n) && accounts[n].status != AccountStatus::Active
            ==> refused_with(deposit_refusal(accounts, n, amount), ErrorKind::AccountInactive),
{
}

/// Which failure refuses a withdrawal: a non-positive amount, then a
/// missing account, then an inactive one, then too little left behind.
pub proof fn law_withdrawal_refusal_kinds(
    accounts: Map<Seq<char>, Account>,
    minimum: i64,
    n: Seq<char>,
    amount: i64,
)
    ensures
        amount <= 0 ==> refused_with(withdraw_refusal(accounts, minimum, n, amount), ErrorKind::InvalidAmount),
        amount > 0 && !accounts.contains_key(n) ==> withdraw_refusal(accounts, minimum, n, amount)
            == Some((ErrorKind::AccountNotFound, n)),
        amount > 0 && accounts.contains_key(n) && accounts[n].status != AccountStatus::Active
            ==> refused_with(withdraw_refusal(accounts, minimum, n, amount), ErrorKind::AccountInactive),
        amount > 0 && accounts.contains_key(n) && accounts[n].status == AccountStatus::Active
            && accounts[n].balance - amount < minimum ==> refused_with(withdraw_refusal(accounts, minimum, n, amount), ErrorKind::InsufficientFunds),
{
}

/// Which failure refuses a transfer, in the order the checks are made: a
/// non-positive amount; the same account on both sides; a missing or
/// inactive source; a missing or inactive destination; too little left in
/// the source; different currencies.
pub proof fn law_transfer_refusal_kinds(
    accounts: Map<Seq<char>, Account>,
    minimum: i64,
    from: Seq<char>,
    to: Seq<char>,
    amount: i64,
)
    ensures
        amount <= 0 ==> refused_with(transfer_refusal(accounts, minimum, from, to, amount), ErrorKind::InvalidAmount),
        amount > 0 && from == to ==> refused_with(transfer_refusal(accounts, minimum, from, to, amount), ErrorKind::TransactionFailed),
        amount > 0 && from != to && !accounts.contains_key(from) ==> transfer_refusal(
            accounts,
            minimum,
            from,
            to,
            amount,
        ) == Some((ErrorKind::AccountNotFound, from)),
        amount > 0 && from != to && accounts.contains_key(from) && accounts[from].status
            == AccountStatus::Active && !accounts.contains_key(to) ==> transfer_refusal(
            accounts,
            minimum,
            from,
            to,
            amount,
        ) == Some((ErrorKind::AccountNotFound, to)),
        amount > 0 && from != to && accounts.contains_key(from) && accounts.contains_key(to)
            && accounts[from].status == AccountStatus::Active && accounts[to].status
            == AccountStatus::Active && accounts[from].balance - amount < minimum ==> refused_with(transfer_refusal(
            accounts,
            minimum,
            from,
            to,
            amount,
        ), ErrorKind::InsufficientFunds),
        amount > 0 && from != to && accounts.contains_key(from) && accounts.contains_key(to)
            && accounts[from].status == AccountStatus::Active && accounts[to].status
            == AccountStatus::Active && accounts[from].balance - amount >= minimum
            && accounts[from].currency@ != accounts[to].currency@ ==> refused_with(transfer_refusal(
            accounts,
            minimum,
            from,
            to,
            amount,
        ), ErrorKind::CurrencyMismatch),
{
}

/// A transaction belongs to an account's history exactly when it credits or
/// debits that account.
pub proof fn law_history_is_credits_and_debits(t: Transaction, n: Seq<char>)
    ensures
        involves(t, n) <==> (credited_to(t, n) || debited_from(t, n)),
        involves(t, n) <==> ((t.from_account matches Some(f) && f@ == n) || (t.to_account matches Some(
            x,
        ) && x@ == n)),
{
}

/// "Earlier" is a strict total order on instants: never reflexive,
/// transitive, and any two different instants are ordered one way.
pub proof fn law_earlier_orders_instants(a: Timestamp, b: Timestamp, c: Timestamp)
    ensures
        !earlier(a, a),
        earlier(a, b) && earlier(b, c) ==> earlier(a, c),
        a != b ==> earlier(a, b) || earlier(b, a),
        earlier(a, b) ==> a.secs <= b.secs,
        a.secs < b.secs ==> earlier(a, b),
{
}

/// A deposit of the amount just withdrawn from an account gives it back its
/// balance: every balance, and the money held across all accounts, is as it
/// was before the withdrawal.
pub proof fn law_deposit_undoes_withdrawal(
    m: Map<Seq<char>, Account>,
    n: Seq<char>,
    amount: i64,
    withdrawn_at: Timestamp,
    deposited_at: Timestamp,
)
    requires
        m.dom().finite(),
        m.contains_key(n),
        i64::MIN <= m[n].balance - amount <= i64::MAX,
    ensures
        ({
            let w = m.insert(n, adjusted(m[n], -amount, withdrawn_at));
            let d = w.insert(n, adjusted(w[n], amount as int, deposited_at));
            &&& d.dom() == m.dom()
            &&& d[n].balance == m[n].balance
            &&& forall|k: Seq<char>| m.contains_key(k) && k != n ==> #[trigger] d[k] == m[k]
            &&& total_balance(d) == total_balance(m)
        }),
{
    let w = m.insert(n, adjusted(m[n], -amount, withdrawn_at));
    let d = w.insert(n, adjusted(w[n], amount as int, deposited_at));
    lemma_total_after_update(m, n, adjusted(m[n], -amount, withdrawn_at));
    assert(w.dom() =~= m.dom());
    lemma_total_after_update(w, n, adjusted(w[n], amount as int, deposited_at));
    assert(d.dom() =~= m.dom());
    assert forall|k: Seq<char>| m.contains_key(k) && k != n implies #[trigger] d[k] == m[k] by {
        assert(w[k] == m[k]);
    }
}

/// Transferring an amount back the way it came restores both balances, and
/// with them every balance and the money held across all accounts.
pub proof fn law_return_transfer_restores(
    m: Map<Seq<char>, Account>,
    from: Seq<char>,
    to: Seq<char>,
    amount: i64,
    stamps: (Timestamp, Timestamp, Timestamp, Timestamp),
)
    requires
        m.dom().finite(),
        m.contains_key(from),
        m.contains_key(to),
        from != to,
        i64::MIN <= m[from].balance - amount <= i64::MAX,
        i64::MIN <= m[to].balance + amount <= i64::MAX,
    ensures
        ({
            let there = m.insert(from, adjusted(m[from], -amount, stamps.0)).insert(
                to,
                adjusted(m[to], amount as int, stamps.1),
            );
            let back = there.insert(to, adjusted(there[to], -amount, stamps.2)).insert(
                from,
                adjusted(there[from], amount as int, stamps.3),
            );
            &&& back.dom() == m.dom()
            &&& back[from].balance == m[from].balance
            &&& back[to].balance == m[to].balance
            &&& forall|k: Seq<char>| m.contains_key(k) && k != from && k != to ==> #[trigger] back[k] == m[k]
            &&& total_balance(there) == total_balance(m)
            &&& total_balance(back) == total_balance(m)
        }),
{
    let a = m.insert(from, adjusted(m[from], -amount, stamps.0));
    let there = a.insert(to, adjusted(m[to], amount as int, stamps.1));
    let b = there.insert(to, adjusted(there[to], -amount, stamps.2));
    let back = b.insert(from, adjusted(there[from], amount as int, stamps.3));
    lemma_total_after_update(m, from, adjusted(m[from], -amount, stamps.0));
    assert(a.dom() =~= m.dom());
    lemma_total_after_update(a, to, adjusted(m[to], amount as int, stamps.1));
    assert(there.dom() =~= m.dom());
    lemma_total_after_update(there, to, adjusted(there[to], -amount, stamps.2));
    assert(b.dom() =~= m.dom());
    lemma_total_after_update(b, from, adjusted(there[from], amount as int, stamps.3));
    assert(back.dom() =~= m.dom());
    assert(there[from] == adjusted(m[from], -amount, stamps.0));
    assert(there[to] == adjusted(m[to], amount as int, stamps.1));
    assert(back[to] == b[to]);
    assert forall|k: Seq<char>| m.contains_key(k) && k != from && k != to implies #[trigger] back[k]
        == m[k] by {
        assert(a[k] == m[k]);
        assert(there[k] == a[k]);
        assert(b[k] == there[k]);
    }
}

/// Recording a transaction adds it to the end of the history of each
/// account it involves, and leaves the history of every other account as
/// it was.
pub proof fn law_recorded_transaction_joins_history(log: Seq<Transaction>, t: Transaction, n: Seq<char>)
    ensures
        involves(t, n) ==> history_of(log.push(t), n) == history_of(log, n).push(t),
        !involves(t, n) ==> history_of(log.push(t), n) == history_of(log, n),
{
    log.lemma_filter_push(t, |x: Transaction| involves(x, n));
}

/// A statement of account `n` cut to `limit` entries holds at most `limit`
/// transactions, each of which moves money out of or into `n`, listed so
/// that none is older than one after it.
pub proof fn law_statement_is_recent_history(
    log: Seq<Transaction>,
    n: Seq<char>,
    limit: int,
    r: Seq<Transaction>,
)
    requires
        0 <= limit,
        newest_first_prefix(history_of(log, n), limit, r),
    ensures
        r.len() <= limit,
        forall|k: int| 0 <= k < r.len() ==> involves(#[trigger] r[k], n),
        forall|a: int, b: int|
            0 <= a < b < r.len() ==> !earlier(#[trigger] r[a].created_at, #[trigger] r[b].created_at),
{
    let h = history_of(log, n);
    let pred = |t: Transaction| involves(t, n);
    let order = choose|order: Seq<int>|
        #[trigger] newest_first_order(h, order) && forall|k: int|
            0 <= k < r.len() ==> r[k] == h[order[k]];
    assert forall|k: int| 0 <= k < r.len() implies involves(#[trigger] r[k], n) by {
        assert(0 <= order[k] < h.len());
        log.lemma_filter_pred(pred, order[k]);
    }
    assert forall|a: int, b: int| 0 <= a < b < r.len() implies !earlier(
        #[trigger] r[a].created_at,
        #[trigger] r[b].created_at,
    ) by {
        assert(r[a] == h[order[a]]);
        assert(r[b] == h[order[b]]);
        assert(listed_before(h, order[a], order[b]));
    }
}

/// An ordering names every position.
proof fn lemma_ordering_covers(order: Seq<int>, n: int, v: int)
    requires
        is_ordering(order, n),
        0 <= v < n,
    ensures
        exists|k: int| 0 <= k < n && order[k] == v,
{
    assert(order.no_duplicates()) by {
        assert forall|a: int, b: int| 0 <= a < order.len() && 0 <= b < order.len() && a != b implies order[a]
            != order[b] by {
            if a > b {
                assert(order[b] != order[a]);
            }
        }
    }
    order.unique_seq_to_set();
    lemma_int_range(0, n);
    assert(order.to_set().subset_of(set_int_range(0, n))) by {
        assert forall|x: int| order.to_set().contains(x) implies set_int_range(0, n).contains(x) by {
            let k = choose|k: int| 0 <= k < order.len() && order[k] == x;
            assert(0 <= order[k] < n);
        }
    }
    lemma_subset_equality(order.to_set(), set_int_range(0, n));
    assert(set_int_range(0, n).contains(v));
    assert(order.to_set().contains(v));
}

proof fn lemma_newest_first_orders_agree(s: Seq<Transaction>, o1: Seq<int>, o2: Seq<int>, k: int)
    requires
        newest_first_order(s, o1),
        newest_first_order(s, o2),
        0 <= k < s.len(),
    ensures
        forall|m: int| 0 <= m <= k ==> o1[m] == o2[m],
    decreases k,
{
    if k > 0 {
        lemma_newest_first_orders_agree(s, o1, o2, k - 1);
    }
    let n = s.len() as int;
    let x = o1[k];
    let y = o2[k];
    if x != y {
        lemma_ordering_covers(o2, n, x);
        lemma_ordering_covers(o1, n, y);
        let j = choose|j: int| 0 <= j < n && o2[j] == x;
        let i = choose|i: int| 0 <= i < n && o1[i] == y;
        if i < k {
            assert(o1[i] == o2[i]);
        }
        if j < k {
            assert(o1[j] == o2[j]);
        }
        assert(i > k);
        assert(j > k);
        assert(listed_before(s, o1[k], o1[i]));
        assert(listed_before(s, o2[k], o2[j]));
    }
}

/// A statement is fully determined: there is only one way to list the first
/// `limit` entries of a history newest first with ties in recorded order.
pub proof fn law_statement_is_determined(s: Seq<Transaction>, limit: int, r1: Seq<Transaction>, r2: Seq<Transaction>)
    requires
        newest_first_prefix(s, limit, r1),
        newest_first_prefix(s, limit, r2),
    ensures
        r1 == r2,
{
    let o1 = choose|order: Seq<int>|
        #[trigger] newest_first_order(s, order) && forall|k: int|
            0 <= k < r1.len() ==> r1[k] == s[order[k]];
    let o2 = choose|order: Seq<int>|
        #[trigger] newest_first_order(s, order) && forall|k: int|
            0 <= k < r2.len() ==> r2[k] == s[order[k]];
    if s.len() > 0 {
        lemma_newest_first_orders_agree(s, o1, o2, s.len() - 1);
    }
    assert forall|k: int| 0 <= k < r1.len() implies r1[k] == r2[k] by {
        assert(o1[k] == o2[k]);
    }
    assert(r1 =~= r2);
}

} // verus!
