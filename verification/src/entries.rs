//! The mathematics of a balance sheet held as a sequence of
//! `(account, balance)` entries with pairwise-distinct accounts: what an
//! account's recorded balance is, what the entries add up to, and how both
//! change when one entry is overwritten or appended.

use vstd::prelude::*;

use crate::AccountId;
use crate::Balance;

verus! {

/// No account identifier occurs twice among the entries.
pub(crate) open spec fn keys_unique(s: Seq<(AccountId, Balance)>) -> bool {
    forall|i: int, j: int| 0 <= i < j < s.len() ==> s[i].0 != s[j].0
}

/// The balance recorded for `account`: the value of its entry, or zero when
/// no entry exists. An absent entry is not a fault; it denotes balance zero.
pub(crate) open spec fn lookup(s: Seq<(AccountId, Balance)>, account: AccountId) -> Balance
    decreases s.len(),
{
    if s.len() == 0 {
        0
    } else if s.last().0 == account {
        s.last().1
    } else {
        lookup(s.drop_last(), account)
    }
}

/// The sum of every recorded balance, as an unbounded integer.
pub(crate) open spec fn entries_sum(s: Seq<(AccountId, Balance)>) -> int
    decreases s.len(),
{
    if s.len() == 0 {
        0
    } else {
        entries_sum(s.drop_last()) + s.last().1
    }
}

/// The sum of the balances recorded for the given accounts, in order.
pub(crate) open spec fn sum_lookups(s: Seq<(AccountId, Balance)>, accts: Seq<AccountId>) -> int
    decreases accts.len(),
{
    if accts.len() == 0 {
        0
    } else {
        sum_lookups(s, accts.drop_last()) + lookup(s, accts.last())
    }
}

pub(crate) proof fn lemma_entries_sum_nonneg(s: Seq<(AccountId, Balance)>)
    ensures
        entries_sum(s) >= 0,
    decreases s.len(),
{
    if s.len() > 0 {
        lemma_entries_sum_nonneg(s.drop_last());
    }
}

/// A single recorded balance never exceeds the sum of all of them.
pub(crate) proof fn lemma_lookup_le_sum(s: Seq<(AccountId, Balance)>, account: AccountId)
    ensures
        lookup(s, account) <= entries_sum(s),
    decreases s.len(),
{
    if s.len() == 0 {
    } else if s.last().0 == account {
        lemma_entries_sum_nonneg(s.drop_last());
    } else {
        lemma_lookup_le_sum(s.drop_last(), account);
        assert(s.last().1 >= 0);
    }
}

/// An account that owns no entry is recorded with balance zero.
pub(crate) proof fn lemma_lookup_absent(s: Seq<(AccountId, Balance)>, account: AccountId)
    requires
        forall|j: int| 0 <= j < s.len() ==> s[j].0 != account,
    ensures
        lookup(s, account) == 0,
    decreases s.len(),
{
    if s.len() > 0 {
        assert(s[s.len() - 1].0 != account);
        lemma_lookup_absent(s.drop_last(), account);
    }
}

/// With distinct accounts, the entry at any index records its account's
/// balance.
pub(crate) proof fn lemma_lookup_at_index(s: Seq<(AccountId, Balance)>, i: int)
    requires
        keys_unique(s),
        0 <= i < s.len(),
    ensures
        lookup(s, s[i].0) == s[i].1,
    decreases s.len(),
{
    if i == s.len() - 1 {
    } else {
        assert(s.last().0 != s[i].0);
        assert(s.drop_last()[i] == s[i]);
        lemma_lookup_at_index(s.drop_last(), i);
    }
}

/// Overwriting the entry at index `i` with a new balance for the same
/// account keeps the accounts distinct, moves the sum by the difference,
/// and changes no other account's recorded balance.
pub(crate) proof fn lemma_set_entry(
    s: Seq<(AccountId, Balance)>,
    i: int,
    account: AccountId,
    value: Balance,
)
    requires
        keys_unique(s),
        0 <= i < s.len(),
        s[i].0 == account,
    ensures
        keys_unique(s.update(i, (account, value))),
        entries_sum(s.update(i, (account, value))) == entries_sum(s) - s[i].1 + value,
        forall|b: AccountId| #[trigger] lookup(s.update(i, (account, value)), b) == (if b
            == account {
            value
        } else {
            lookup(s, b)
        }),
    decreases s.len(),
{
    let s2 = s.update(i, (account, value));
    assert(s2.len() == s.len());
    assert forall|p: int, q: int| 0 <= p < q < s2.len() implies s2[p].0 != s2[q].0 by {
        assert(s2[p].0 == s[p].0);
        assert(s2[q].0 == s[q].0);
    }
    if i == s.len() - 1 {
        assert(s2.last() == (account, value));
        assert(s2.drop_last() =~= s.drop_last());
        assert forall|b: AccountId| #[trigger] lookup(s2, b) == (if b == account {
            value
        } else {
            lookup(s, b)
        }) by {
            if b != account {
                assert(lookup(s2, b) == lookup(s2.drop_last(), b));
                assert(lookup(s, b) == lookup(s.drop_last(), b));
            }
        }
    } else {
        assert(s2.last() == s.last());
        assert(s2.drop_last() =~= s.drop_last().update(i, (account, value)));
        assert(s.drop_last()[i] == s[i]);
        assert(s.last().0 != account);
        lemma_set_entry(s.drop_last(), i, account, value);
        assert forall|b: AccountId| #[trigger] lookup(s2, b) == (if b == account {
            value
        } else {
            lookup(s, b)
        }) by {
            if b == s.last().0 {
                assert(lookup(s2, b) == s.last().1);
                assert(lookup(s, b) == s.last().1);
            } else {
                assert(lookup(s2, b) == lookup(s2.drop_last(), b));
                assert(lookup(s, b) == lookup(s.drop_last(), b));
            }
        }
    }
}

/// Appending an entry for an account with no existing entry keeps the
/// accounts distinct, raises the sum by the appended balance, and changes
/// no other account's recorded balance.
pub(crate) proof fn lemma_push_entry(
    s: Seq<(AccountId, Balance)>,
    account: AccountId,
    value: Balance,
)
    requires
        keys_unique(s),
        forall|j: int| 0 <= j < s.len() ==> s[j].0 != account,
    ensures
        keys_unique(s.push((account, value))),
        entries_sum(s.push((account, value))) == entries_sum(s) + value,
        forall|b: AccountId| #[trigger] lookup(s.push((account, value)), b) == (if b == account {
            value
        } else {
            lookup(s, b)
        }),
{
    let s2 = s.push((account, value));
    assert(s2.last() == (account, value));
    assert(s2.drop_last() =~= s);
    assert forall|p: int, q: int| 0 <= p < q < s2.len() implies s2[p].0 != s2[q].0 by {
        assert(s2[p].0 == s[p].0);
        if q < s.len() {
            assert(s2[q].0 == s[q].0);
        }
    }
}

pub(crate) proof fn lemma_sum_lookups_empty_entries(accts: Seq<AccountId>)
    ensures
        sum_lookups(Seq::<(AccountId, Balance)>::empty(), accts) == 0,
    decreases accts.len(),
{
    if accts.len() > 0 {
        lemma_sum_lookups_empty_entries(accts.drop_last());
    }
}

/// Splitting the last entry off the balance sheet: summing distinct
/// accounts over the whole sheet counts that entry's balance exactly when
/// its account is among them.
pub(crate) proof fn lemma_sum_lookups_peel(s: Seq<(AccountId, Balance)>, accts: Seq<AccountId>)
    requires
        s.len() > 0,
        keys_unique(s),
        forall|i: int, j: int| 0 <= i < j < accts.len() ==> accts[i] != accts[j],
    ensures
        sum_lookups(s, accts) == sum_lookups(s.drop_last(), accts) + (if accts.contains(
            s.last().0,
        ) {
            s.last().1 as int
        } else {
            0
        }),
    decreases accts.len(),
{
    let k = s.last().0;
    let v: Balance = s.last().1;
    let s1 = s.drop_last();
    assert forall|j: int| 0 <= j < s1.len() implies s1[j].0 != k by {
        assert(s1[j] == s[j]);
        assert(s[j].0 != s[s.len() - 1].0);
    }
    lemma_lookup_absent(s1, k);
    if accts.len() == 0 {
        assert(!accts.contains(k));
    } else {
        let a0 = accts.last();
        let rest = accts.drop_last();
        lemma_sum_lookups_peel(s, rest);
        if a0 == k {
            assert(!rest.contains(k)) by {
                if rest.contains(k) {
                    let w = choose|w: int| 0 <= w < rest.len() && rest[w] == k;
                    assert(accts[w] == accts[accts.len() - 1]);
                }
            }
            assert(accts.contains(k)) by {
                assert(accts[accts.len() - 1] == k);
            }
            assert(lookup(s, k) == v);
        } else {
            assert(lookup(s, a0) == lookup(s1, a0));
            assert(accts.contains(k) == rest.contains(k)) by {
                if accts.contains(k) {
                    let w = choose|w: int| 0 <= w < accts.len() && accts[w] == k;
                    assert(w < rest.len());
                    assert(rest[w] == k);
                }
                if rest.contains(k) {
                    let w = choose|w: int| 0 <= w < rest.len() && rest[w] == k;
                    assert(accts[w] == k);
                }
            }
        }
    }
}

/// Summing over any duplicate-free collection of accounts that includes
/// every account with a nonzero balance yields the sum of all entries.
pub(crate) proof fn lemma_sum_lookups_covering(
    s: Seq<(AccountId, Balance)>,
    accts: Seq<AccountId>,
)
    requires
        keys_unique(s),
        forall|i: int, j: int| 0 <= i < j < accts.len() ==> accts[i] != accts[j],
        forall|a: AccountId| lookup(s, a) != 0 ==> accts.contains(a),
    ensures
        sum_lookups(s, accts) == entries_sum(s),
    decreases s.len(),
{
    if s.len() == 0 {
        assert(s =~= Seq::<(AccountId, Balance)>::empty());
        lemma_sum_lookups_empty_entries(accts);
    } else {
        let k = s.last().0;
        let v: Balance = s.last().1;
        let s1 = s.drop_last();
        assert forall|j: int| 0 <= j < s1.len() implies s1[j].0 != k by {
            assert(s1[j] == s[j]);
            assert(s[j].0 != s[s.len() - 1].0);
        }
        lemma_lookup_absent(s1, k);
        assert forall|a: AccountId| lookup(s1, a) != 0 implies accts.contains(a) by {
            if a == k {
                assert(lookup(s1, k) == 0);
            } else {
                assert(lookup(s, a) == lookup(s1, a));
            }
        }
        lemma_sum_lookups_covering(s1, accts);
        lemma_sum_lookups_peel(s, accts);
        if !accts.contains(k) {
            assert(lookup(s, k) == v);
        }
    }
}

} // verus!
