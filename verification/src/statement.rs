//! Selecting and ordering an account's transactions for a statement.
use vstd::prelude::*;
use crate::model::{earlier, Transaction};

verus! {

/// `t` moves money out of or into account `n`.
pub open spec fn involves(t: Transaction, n: Seq<char>) -> bool {
    (t.from_account matches Some(f) && f@ == n) || (t.to_account matches Some(x) && x@ == n)
}

/// The transactions of `log` that involve account `n`, in log order.
pub open spec fn history_of(log: Seq<Transaction>, n: Seq<char>) -> Seq<Transaction> {
    log.filter(|t: Transaction| involves(t, n))
}

/// In a newest-first listing of `s`, the entry at position `i` of `s` comes
/// before the one at position `j`: it was created later, or at the same
/// instant and earlier in `s`.
pub open spec fn listed_before(s: Seq<Transaction>, i: int, j: int) -> bool {
    earlier(s[j].created_at, s[i].created_at) || (s[i].created_at == s[j].created_at && i < j)
}

/// `order` names each position `0..n` exactly once.
pub open spec fn is_ordering(order: Seq<int>, n: int) -> bool {
    &&& order.len() == n
    &&& forall|k: int| 0 <= k < n ==> 0 <= #[trigger] order[k] < n
    &&& forall|a: int, b: int| 0 <= a < b < n ==> order[a] != order[b]
}

/// `order` lists the positions of `s` newest first, ties in their order in `s`.
pub open spec fn newest_first_order(s: Seq<Transaction>, order: Seq<int>) -> bool {
    &&& is_ordering(order, s.len() as int)
    &&& forall|a: int, b: int| 0 <= a < b < s.len() ==> listed_before(s, order[a], order[b])
}

/// `r` is the first `limit` entries of `s` listed newest first (all of them
/// when `s` has fewer): a stable sort by creation time, descending, cut to
/// `limit`.
pub open spec fn newest_first_prefix(s: Seq<Transaction>, limit: int, r: Seq<Transaction>) -> bool {
    &&& r.len() == (if limit < s.len() { limit } else { s.len() as int })
    &&& exists|order: Seq<int>|
        #[trigger] newest_first_order(s, order) && forall|k: int|
            0 <= k < r.len() ==> r[k] == s[order[k]]
}

/// The instants are totally ordered.
proof fn lemma_earlier_total(a: crate::model::Timestamp, b: crate::model::Timestamp)
    ensures
        earlier(a, b) || earlier(b, a) || a == b,
        !(earlier(a, b) && earlier(b, a)),
{
}

/// Sorts `s` newest first, ties kept in their order in `s`.
pub fn sort_newest_first(s: &Vec<Transaction>) -> (r: Vec<Transaction>)
    ensures
        newest_first_prefix(s@, s@.len() as int, r@),
{
    let mut r: Vec<Transaction> = Vec::new();
    let ghost mut order: Seq<int> = Seq::empty();
    let mut i: usize = 0;
    while i < s.len()
        invariant
            i <= s.len(),
            r@.len() == i,
            order.len() == i,
            forall|k: int| 0 <= k < i ==> 0 <= #[trigger] order[k] < i,
            forall|a: int, b: int| 0 <= a < b < i ==> order[a] != order[b],
            forall|a: int, b: int| 0 <= a < b < i ==> listed_before(s@, order[a], order[b]),
            forall|k: int| 0 <= k < i ==> r@[k] == s@[#[trigger] order[k]],
        decreases s.len() - i,
    {
        let at = s[i].created_at;
        let mut p: usize = 0;
        while p < r.len() && !r[p].created_at.is_before(&at)
            invariant
                p <= r@.len(),
                forall|k: int| 0 <= k < p ==> !earlier(#[trigger] r@[k].created_at, at),
            decreases r@.len() - p,
        {
            p = p + 1;
        }
        let ghost old_order = order;
        let ghost old_r = r@;
        r.insert(p, s[i].duplicate());
        proof {
            order = order.insert(p as int, i as int);
            assert forall|a: int, b: int| 0 <= a < b < i + 1 implies listed_before(
                s@,
                order[a],
                order[b],
            ) by {
                let oa = order[a];
                let ob = order[b];
                if a < p && b < p {
                    assert(oa == old_order[a] && ob == old_order[b]);
                } else if a < p && b == p {
                    assert(oa == old_order[a]);
                    assert(!earlier(old_r[a].created_at, at));
                    lemma_earlier_total(old_r[a].created_at, at);
                } else if a < p && b > p {
                    assert(oa == old_order[a] && ob == old_order[b - 1]);
                } else if a == p {
                    assert(oa == i);
                    assert(ob == old_order[b - 1]);
                    if p < old_r.len() {
                        assert(earlier(old_r[p as int].created_at, at));
                        if b - 1 > p {
                            assert(listed_before(s@, old_order[p as int], old_order[b - 1]));
                            lemma_earlier_total(s@[ob].created_at, s@[old_order[p as int]].created_at);
                        }
                    }
                } else {
                    assert(oa == old_order[a - 1] && ob == old_order[b - 1]);
                }
            }
            assert forall|k: int| 0 <= k < i + 1 implies r@[k] == s@[#[trigger] order[k]] by {
                if k < p {
                    assert(order[k] == old_order[k]);
                } else if k > p {
                    assert(order[k] == old_order[k - 1]);
                }
            }
            assert forall|k: int| 0 <= k < i + 1 implies 0 <= #[trigger] order[k] < i + 1 by {
                if k < p {
                    assert(order[k] == old_order[k]);
                } else if k > p {
                    assert(order[k] == old_order[k - 1]);
                }
            }
            assert forall|a: int, b: int| 0 <= a < b < i + 1 implies order[a] != order[b] by {
                if a < p {
                    assert(order[a] == old_order[a]);
                } else if a > p {
                    assert(order[a] == old_order[a - 1]);
                }
                if b < p {
                    assert(order[b] == old_order[b]);
                } else if b > p {
                    assert(order[b] == old_order[b - 1]);
                }
            }
        }
        i = i + 1;
    }
    assert(newest_first_order(s@, order));
    r
}

} // verus!
