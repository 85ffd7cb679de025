//! The ledger and its transfer state machine.

use vstd::prelude::*;

use crate::AccountId;
use crate::Balance;
use crate::entries::entries_sum;
use crate::entries::keys_unique;
use crate::entries::lemma_lookup_absent;
use crate::entries::lemma_lookup_at_index;
use crate::entries::lemma_lookup_le_sum;
use crate::entries::lemma_push_entry;
use crate::entries::lemma_set_entry;
use crate::entries::lemma_sum_lookups_covering;
use crate::entries::lookup;
use crate::entries::sum_lookups;

verus! {

/// An immutable notification record describing one completed balance
/// change. `from == None` marks the genesis event at construction, where
/// the whole supply is assigned to its first holder; ordinary transfers
/// populate both endpoints. The ledger hands each record to its caller,
/// and the host publishes it.
#[derive(Clone, Copy, PartialEq, Eq, Debug)]
pub struct Transfered {
    /// The account the amount left, or `None` at genesis.
    pub from: Option<AccountId>,
    /// The account the amount reached.
    pub to: Option<AccountId>,
    /// The amount that moved.
    pub amount: Balance,
}

/// The authoritative record of the total supply and of every account's
/// balance. The supply is set once at construction and never changes;
/// accounts without an entry hold balance zero.
pub struct Erc20 {
    total_supply: Balance,
    balances: Vec<(AccountId, Balance)>,
}

impl Erc20 {
    /// The immutable total supply.
    pub closed spec fn spec_total_supply(self) -> Balance {
        self.total_supply
    }

    /// The balance the ledger records for `account`; zero when no entry
    /// exists.
    pub closed spec fn spec_balance_of(self, account: AccountId) -> Balance {
        lookup(self.balances@, account)
    }

    /// Well-formedness: entries name pairwise-distinct accounts, and the
    /// recorded balances add up to the total supply exactly. Construction
    /// establishes this and every operation preserves it, so the supply is
    /// conserved: nothing is minted or burned after construction.
    pub closed spec fn wf(self) -> bool {
        &&& keys_unique(self.balances@)
        &&& entries_sum(self.balances@) == self.total_supply as int
    }

    /// Creates a ledger whose entire supply is assigned to `owner`,
    /// together with the genesis notification record that the caller must
    /// publish. A supply of zero is a valid, if degenerate, state.
    pub fn new(initial_supply: Balance, owner: AccountId) -> (r: (Erc20, Transfered))
        ensures
            r.0.wf(),
            r.0.spec_total_supply() == initial_supply,
            forall|a: AccountId| r.0.spec_balance_of(a) == (if a == owner {
                initial_supply
            } else {
                0u128
            }),
            r.1 == (Transfered { from: None, to: Some(owner), amount: initial_supply }),
    {
        let mut balances: Vec<(AccountId, Balance)> = Vec::new();
        balances.push((owner, initial_supply));
        proof {
            let s = balances@;
            assert(s.drop_last() =~= Seq::<(AccountId, Balance)>::empty());
            assert(s.last() == (owner, initial_supply));
            assert(entries_sum(s.drop_last()) == 0);
            assert forall|a: AccountId| #[trigger] lookup(s, a) == (if a == owner {
                initial_supply
            } else {
                0u128
            }) by {
                if a != owner {
                    assert(lookup(s.drop_last(), a) == 0);
                }
            }
        }
        let ledger = Erc20 { total_supply: initial_supply, balances };
        let genesis = Transfered { from: None, to: Some(owner), amount: initial_supply };
        (ledger, genesis)
    }

    /// The total supply set at construction.
    pub fn total_supply(&self) -> (r: Balance)
        ensures
            r == self.spec_total_supply(),
    {
        self.total_supply
    }

    /// The balance of `account`; zero for an account with no recorded
    /// entry. Never fails.
    pub fn balance_of(&self, account: AccountId) -> (r: Balance)
        requires
            self.wf(),
        ensures
            r == self.spec_balance_of(account),
    {
        get_balance(&self.balances, account)
    }

    /// Overwrites or inserts the entry of `account`. Internal mutation
    /// primitive of the transfer processor; between its two uses the sum of
    /// balances deviates from the supply, so it is not exposed.
    fn set_balance(&mut self, account: AccountId, value: Balance)
        requires
            keys_unique(old(self).balances@),
        ensures
            keys_unique(final(self).balances@),
            final(self).total_supply == old(self).total_supply,
            entries_sum(final(self).balances@) == entries_sum(old(self).balances@) - lookup(
                old(self).balances@,
                account,
            ) + value,
            forall|a: AccountId| #[trigger] lookup(final(self).balances@, a) == (if a == account {
                value
            } else {
                lookup(old(self).balances@, a)
            }),
    {
        let ghost s0 = self.balances@;
        match find_account(&self.balances, account) {
            Some(i) => {
                proof {
                    lemma_lookup_at_index(s0, i as int);
                    lemma_set_entry(s0, i as int, account, value);
                }
                self.balances.set(i, (account, value));
            },
            None => {
                proof {
                    lemma_lookup_absent(s0, account);
                    lemma_push_entry(s0, account, value);
                }
                self.balances.push((account, value));
            },
        }
    }

    /// Moves `amount` from `from` to `to`. The host supplies `from` as the
    /// authenticated caller; the ledger does not re-authenticate.
    ///
    /// Succeeds exactly when `from` holds at least `amount`, and then
    /// returns the notification record the caller must publish; on
    /// insufficient funds it returns `None` and mutates nothing. Both
    /// balance updates happen within this one call, so no intermediate
    /// state is ever observable. A self-transfer and a zero amount are
    /// valid successes: the balances end unchanged and a record is still
    /// produced.
    pub fn transfer(&mut self, from: AccountId, to: AccountId, amount: Balance) -> (r: Option<
        Transfered,
    >)
        requires
            old(self).wf(),
        ensures
            final(self).wf(),
            final(self).spec_total_supply() == old(self).spec_total_supply(),
            r is Some <==> amount <= old(self).spec_balance_of(from),
            r is Some ==> r == Some(
                Transfered { from: Some(from), to: Some(to), amount },
            ),
            r is Some ==> forall|a: AccountId| #[trigger] final(self).spec_balance_of(a) as int
                == old(self).spec_balance_of(a) - (if a == from {
                amount as int
            } else {
                0
            }) + (if a == to {
                amount as int
            } else {
                0
            }),
            r is None ==> *final(self) == *old(self),
    {
        let from_balance: Balance = get_balance(&self.balances, from);
        if from_balance < amount {
            return None;
        }
        self.set_balance(from, from_balance - amount);
        let to_balance: Balance = get_balance(&self.balances, to);
        proof {
            lemma_lookup_le_sum(self.balances@, to);
        }
        self.set_balance(to, to_balance + amount);
        Some(Transfered { from: Some(from), to: Some(to), amount })
    }

    /// The sum of the ledger's balances over the given accounts, in order.
    pub open spec fn sum_balances_over(self, accts: Seq<AccountId>) -> int
        decreases accts.len(),
    {
        if accts.len() == 0 {
            0
        } else {
            self.sum_balances_over(accts.drop_last()) + self.spec_balance_of(accts.last())
        }
    }

    proof fn lemma_sum_balances_over_is_sum_lookups(self, accts: Seq<AccountId>)
        ensures
            self.sum_balances_over(accts) == sum_lookups(self.balances@, accts),
        decreases accts.len(),
    {
        if accts.len() > 0 {
            self.lemma_sum_balances_over_is_sum_lookups(accts.drop_last());
        }
    }

    /// Conservation law: at every point in time the balances add up to the
    /// total supply. Summed over any duplicate-free collection of accounts
    /// that includes every account holding a nonzero balance, the balances
    /// of a well-formed ledger equal the supply set at construction —
    /// construction establishes well-formedness and every transfer
    /// preserves it, so this holds after any sequence of transfers.
    pub proof fn lemma_conservation(self, accts: Seq<AccountId>)
        requires
            self.wf(),
            forall|i: int, j: int| 0 <= i < j < accts.len() ==> accts[i] != accts[j],
            forall|a: AccountId| self.spec_balance_of(a) != 0 ==> accts.contains(a),
        ensures
            self.sum_balances_over(accts) == self.spec_total_supply(),
    {
        self.lemma_sum_balances_over_is_sum_lookups(accts);
        lemma_sum_lookups_covering(self.balances@, accts);
    }
}

/// Non-negativity law: balances are unsigned quantities, so no account is
/// ever recorded below zero; the transfer operation is verified never to
/// subtract more than the sender holds.
pub proof fn lemma_balance_nonnegative(ledger: Erc20, account: AccountId)
    ensures
        ledger.spec_balance_of(account) >= 0,
{
}

/// Query idempotence law: a balance or supply query is a function of the
/// ledger state alone and leaves that state untouched, so repeated reads
/// with no intervening transfer return identical values.
pub proof fn lemma_query_idempotent(
    ledger: Erc20,
    account: AccountId,
    first_read: Balance,
    second_read: Balance,
)
    requires
        first_read == ledger.spec_balance_of(account),
        second_read == ledger.spec_balance_of(account),
    ensures
        first_read == second_read,
{
}

/// The index of the entry recording `account`, if one exists.
fn find_account(entries_vec: &Vec<(AccountId, Balance)>, account: AccountId) -> (r: Option<
    usize,
>)
    ensures
        match r {
            Some(i) => i < entries_vec@.len() && entries_vec@[i as int].0 == account,
            None => forall|j: int| 0 <= j < entries_vec@.len() ==> entries_vec@[j].0 != account,
        },
{
    let mut i: usize = 0;
    while i < entries_vec.len()
        invariant
            i <= entries_vec@.len(),
            forall|j: int| 0 <= j < i ==> entries_vec@[j].0 != account,
        decreases entries_vec@.len() - i,
    {
        if entries_vec[i].0 == account {
            return Some(i);
        }
        i = i + 1;
    }
    None
}

/// The recorded balance of `account`, or zero when no entry exists.
fn get_balance(entries_vec: &Vec<(AccountId, Balance)>, account: AccountId) -> (r: Balance)
    requires
        keys_unique(entries_vec@),
    ensures
        r == lookup(entries_vec@, account),
{
    match find_account(entries_vec, account) {
        Some(i) => {
            proof {
                lemma_lookup_at_index(entries_vec@, i as int);
            }
            entries_vec[i].1
        },
        None => {
            proof {
                lemma_lookup_absent(entries_vec@, account);
            }
            0
        },
    }
}

} // verus!
