//! The money held across a set of accounts, and how single-account updates
//! change it.
use vstd::prelude::*;
use crate::model::{Account, Transaction, TransactionStatus};

verus! {

/// The sum of the balances of the accounts filed under `keys` in `m`.
pub open spec fn balance_sum(m: Map<Seq<char>, Account>, keys: Set<Seq<char>>) -> int
    decreases keys.len(),
{
    if keys.finite() && keys.len() > 0 {
        let k = keys.choose();
        m[k].balance + balance_sum(m, keys.remove(k))
    } else {
        0
    }
}

/// The money held across all accounts of `m`.
pub open spec fn total_balance(m: Map<Seq<char>, Account>) -> int {
    balance_sum(m, m.dom())
}

/// Any member of a finite key set can be taken out of the sum first.
pub proof fn lemma_balance_sum_remove(m: Map<Seq<char>, Account>, keys: Set<Seq<char>>, k: Seq<char>)
    requires
        keys.finite(),
        keys.contains(k),
    ensures
        balance_sum(m, keys) == m[k].balance + balance_sum(m, keys.remove(k)),
    decreases keys.len(),
{
    let c = keys.choose();
    if c != k {
        lemma_balance_sum_remove(m, keys.remove(c), k);
        lemma_balance_sum_remove(m, keys.remove(k), c);
        assert(keys.remove(c).remove(k) =~= keys.remove(k).remove(c));
    }
}

/// Two account maps whose balances agree on `keys` have the same sum there.
pub proof fn lemma_balance_sum_agree(
    m1: Map<Seq<char>, Account>,
    m2: Map<Seq<char>, Account>,
    keys: Set<Seq<char>>,
)
    requires
        forall|k: Seq<char>| keys.contains(k) ==> #[trigger] m1[k].balance == m2[k].balance,
    ensures
        balance_sum(m1, keys) == balance_sum(m2, keys),
    decreases keys.len(),
{
    if keys.finite() && keys.len() > 0 {
        let k = keys.choose();
        lemma_balance_sum_agree(m1, m2, keys.remove(k));
    }
}

/// Replacing one existing account changes the total by exactly the change in
/// that account's balance.
pub proof fn lemma_total_after_update(m: Map<Seq<char>, Account>, k: Seq<char>, v: Account)
    requires
        m.dom().finite(),
        m.contains_key(k),
    ensures
        total_balance(m.insert(k, v)) == total_balance(m) - m[k].balance + v.balance,
{
    let n = m.insert(k, v);
    assert(n.dom() =~= m.dom());
    lemma_balance_sum_remove(m, m.dom(), k);
    lemma_balance_sum_remove(n, n.dom(), k);
    lemma_balance_sum_agree(m, n, m.dom().remove(k));
}

/// `t` credits account `n`.
pub open spec fn credited_to(t: Transaction, n: Seq<char>) -> bool {
    t.to_account matches Some(x) && x@ == n
}

/// `t` debits account `n`.
pub open spec fn debited_from(t: Transaction, n: Seq<char>) -> bool {
    t.from_account matches Some(x) && x@ == n
}

/// The amounts the transactions of `log` credit to account `n`.
pub open spec fn credits(log: Seq<Transaction>, n: Seq<char>) -> int
    decreases log.len(),
{
    if log.len() == 0 {
        0
    } else {
        credits(log.drop_last(), n) + if credited_to(log.last(), n) {
            log.last().amount as int
        } else {
            0
        }
    }
}

/// The amounts the transactions of `log` debit from account `n`.
pub open spec fn debits(log: Seq<Transaction>, n: Seq<char>) -> int
    decreases log.len(),
{
    if log.len() == 0 {
        0
    } else {
        debits(log.drop_last(), n) + if debited_from(log.last(), n) {
            log.last().amount as int
        } else {
            0
        }
    }
}

/// `t` is a completed movement of a positive amount whose accounts are all
/// among `accounts`.
pub open spec fn sound_entry(accounts: Map<Seq<char>, Account>, t: Transaction) -> bool {
    &&& t.status == TransactionStatus::Completed
    &&& t.amount > 0
    &&& t.from_account matches Some(f) ==> accounts.contains_key(f@)
    &&& t.to_account matches Some(x) ==> accounts.contains_key(x@)
}

/// The books balance: every account holds its opening balance plus what the
/// log credits to it minus what the log debits from it, and every logged
/// transaction is a completed movement of a positive amount between known
/// accounts.
pub open spec fn reconciles(
    accounts: Map<Seq<char>, Account>,
    opening: Map<Seq<char>, int>,
    log: Seq<Transaction>,
) -> bool {
    &&& opening.dom() == accounts.dom()
    &&& forall|k: Seq<char>| #[trigger]
        accounts.contains_key(k) ==> accounts[k].balance == opening[k] + credits(log, k) - debits(log, k)
    &&& forall|i: int| 0 <= i < log.len() ==> sound_entry(accounts, #[trigger] log[i])
}

/// Appending `t` adds its amount to the credits of the account it credits
/// and to the debits of the account it debits.
pub proof fn lemma_sums_after_push(log: Seq<Transaction>, t: Transaction, k: Seq<char>)
    ensures
        credits(log.push(t), k) == credits(log, k) + if credited_to(t, k) { t.amount as int } else { 0 },
        debits(log.push(t), k) == debits(log, k) + if debited_from(t, k) { t.amount as int } else { 0 },
{
    assert(log.push(t).drop_last() == log);
}

/// An account no logged transaction names has nothing credited or debited.
pub proof fn lemma_sums_untouched(log: Seq<Transaction>, k: Seq<char>)
    requires
        forall|i: int| 0 <= i < log.len() ==> !credited_to(#[trigger] log[i], k) && !debited_from(log[i], k),
    ensures
        credits(log, k) == 0,
        debits(log, k) == 0,
    decreases log.len(),
{
    if log.len() > 0 {
        assert forall|i: int| 0 <= i < log.drop_last().len() implies !credited_to(
            #[trigger] log.drop_last()[i],
            k,
        ) && !debited_from(log.drop_last()[i], k) by {
            assert(log.drop_last()[i] == log[i]);
        }
        lemma_sums_untouched(log.drop_last(), k);
        assert(log.last() == log[log.len() - 1]);
    }
}

/// Recording `t` keeps the books balanced when each account's balance moves
/// by exactly what `t` credits to and debits from it.
pub proof fn lemma_reconciles_after(
    pre: Map<Seq<char>, Account>,
    opening: Map<Seq<char>, int>,
    log: Seq<Transaction>,
    post: Map<Seq<char>, Account>,
    t: Transaction,
)
    requires
        reconciles(pre, opening, log),
        post.dom() == pre.dom(),
        sound_entry(pre, t),
        forall|k: Seq<char>| #[trigger]
            pre.contains_key(k) ==> post[k].balance == pre[k].balance + (if credited_to(t, k) {
                t.amount as int
            } else {
                0
            }) - (if debited_from(t, k) {
                t.amount as int
            } else {
                0
            }),
    ensures
        reconciles(post, opening, log.push(t)),
{
    assert forall|k: Seq<char>| #[trigger] post.contains_key(k) implies post[k].balance == opening[k]
        + credits(log.push(t), k) - debits(log.push(t), k) by {
        assert(pre.contains_key(k));
        lemma_sums_after_push(log, t, k);
    }
    assert forall|i: int| 0 <= i < log.push(t).len() implies sound_entry(post, #[trigger] log.push(t)[i]) by {
        if i < log.len() {
            assert(log.push(t)[i] == log[i]);
            assert(sound_entry(pre, log[i]));
        }
    }
}

} // verus!
