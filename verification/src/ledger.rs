use vstd::prelude::*;

use crate::account::AccountId;
use crate::errors::Error;

verus! {

/// The unit of account: an unsigned integer wide enough to hold any total
/// supply. All arithmetic on it is checked; wraparound is never silent.
pub type Balance = u128;

/// No account owns two entries of the list.
pub open spec fn distinct_accounts(s: Seq<(AccountId, Balance)>) -> bool {
    forall|i: int, j: int| 0 <= i < j < s.len() ==> s[i].0 != s[j].0
}

/// Whether some entry of the list belongs to `a`.
pub open spec fn has_account(s: Seq<(AccountId, Balance)>, a: AccountId) -> bool {
    exists|i: int| 0 <= i < s.len() && s[i].0 == a
}

/// The index of the entry that belongs to `a` (meaningful only when one
/// exists).
pub open spec fn account_index(s: Seq<(AccountId, Balance)>, a: AccountId) -> int {
    choose|i: int| 0 <= i < s.len() && s[i].0 == a
}

/// The balance the list records for `a`; an absent account reads as zero.
pub open spec fn balance_in(s: Seq<(AccountId, Balance)>, a: AccountId) -> Balance {
    if has_account(s, a) {
        s[account_index(s, a)].1
    } else {
        0
    }
}

/// The sum of every recorded balance, as an unbounded integer.
pub open spec fn sum_of(s: Seq<(AccountId, Balance)>) -> int
    decreases s.len(),
{
    if s.len() == 0 {
        0
    } else {
        sum_of(s.drop_last()) + s.last().1
    }
}

pub proof fn lemma_sum_nonneg(s: Seq<(AccountId, Balance)>)
    ensures
        sum_of(s) >= 0,
    decreases s.len(),
{
    if s.len() > 0 {
        lemma_sum_nonneg(s.drop_last());
    }
}

pub proof fn lemma_sum_update(s: Seq<(AccountId, Balance)>, i: int, p: (AccountId, Balance))
    requires
        0 <= i < s.len(),
    ensures
        sum_of(s.update(i, p)) == sum_of(s) - s[i].1 + p.1,
    decreases s.len(),
{
    let t = s.update(i, p);
    if i == s.len() - 1 {
        assert(t.drop_last() =~= s.drop_last());
    } else {
        assert(t.drop_last() =~= s.drop_last().update(i, p));
        lemma_sum_update(s.drop_last(), i, p);
    }
}

pub proof fn lemma_sum_push(s: Seq<(AccountId, Balance)>, p: (AccountId, Balance))
    ensures
        sum_of(s.push(p)) == sum_of(s) + p.1,
{
    assert(s.push(p).drop_last() =~= s);
}

pub proof fn lemma_entry_le_sum(s: Seq<(AccountId, Balance)>, i: int)
    requires
        0 <= i < s.len(),
    ensures
        s[i].1 <= sum_of(s),
    decreases s.len(),
{
    if i == s.len() - 1 {
        lemma_sum_nonneg(s.drop_last());
    } else {
        lemma_entry_le_sum(s.drop_last(), i);
    }
}

/// In a list without repeated accounts, an entry that matches `a` is the
/// entry the lookup spec functions speak of.
pub proof fn lemma_found_index(s: Seq<(AccountId, Balance)>, a: AccountId, i: int)
    requires
        distinct_accounts(s),
        0 <= i < s.len(),
        s[i].0 == a,
    ensures
        has_account(s, a),
        account_index(s, a) == i,
        balance_in(s, a) == s[i].1,
{
    assert(has_account(s, a));
    let j = account_index(s, a);
    assert(0 <= j < s.len() && s[j].0 == a);
    if j < i {
        assert(s[j].0 != s[i].0);
    } else if i < j {
        assert(s[i].0 != s[j].0);
    }
}

/// No single balance exceeds the sum of all of them.
pub proof fn lemma_balance_le_sum(s: Seq<(AccountId, Balance)>, a: AccountId)
    ensures
        0 <= balance_in(s, a) <= sum_of(s),
{
    lemma_sum_nonneg(s);
    if has_account(s, a) {
        let i = account_index(s, a);
        assert(0 <= i < s.len() && s[i].0 == a);
        lemma_entry_le_sum(s, i);
    }
}

/// The balance-of-record for every account, together with the immutable
/// total supply. Absence of an account from the list is equivalent to a
/// balance of zero. The list itself never holds an account twice; that the
/// balances also sum to `total_supply` is the transfer engine's invariant,
/// re-established around every matched debit/credit pair.
pub struct Ledger {
    pub total_supply: Balance,
    pub balances: Vec<(AccountId, Balance)>,
}

impl Ledger {
    /// Well-formed: each account appears at most once.
    pub open spec fn wf(self) -> bool {
        distinct_accounts(self.balances@)
    }

    /// The immutable total supply, fixed at construction.
    pub open spec fn spec_total_supply(self) -> Balance {
        self.total_supply
    }

    /// The balance of `a`; zero when `a` has never been credited.
    pub open spec fn spec_balance_of(self, a: AccountId) -> Balance {
        balance_in(self.balances@, a)
    }

    /// The sum of every account's balance.
    pub open spec fn spec_sum(self) -> int {
        sum_of(self.balances@)
    }

    /// Creates the ledger with the whole supply credited to `creator`;
    /// this is the sole supply-creation point.
    pub fn new(creator: AccountId, initial_supply: Balance) -> (l: Ledger)
        ensures
            l.wf(),
            l.spec_total_supply() == initial_supply,
            l.spec_balance_of(creator) == initial_supply,
            forall|a: AccountId| a != creator ==> l.spec_balance_of(a) == 0,
            l.spec_sum() == initial_supply,
    {
        let mut balances: Vec<(AccountId, Balance)> = Vec::new();
        proof {
            lemma_sum_push(balances@, (creator, initial_supply));
        }
        balances.push((creator, initial_supply));
        let l = Ledger { total_supply: initial_supply, balances };
        proof {
            lemma_found_index(l.balances@, creator, 0);
            assert forall|a: AccountId| a != creator implies l.spec_balance_of(a) == 0 by {
                if has_account(l.balances@, a) {
                    let j = account_index(l.balances@, a);
                    assert(0 <= j < l.balances@.len() && l.balances@[j].0 == a);
                }
            }
        }
        l
    }

    /// Returns the immutable total supply.
    pub fn total_supply(&self) -> (r: Balance)
        ensures
            r == self.spec_total_supply(),
    {
        self.total_supply
    }

    /// Returns the balance of `owner`, or zero when the account is absent.
    pub fn balance_of(&self, owner: AccountId) -> (r: Balance)
        requires
            self.wf(),
        ensures
            r == self.spec_balance_of(owner),
    {
        let mut i: usize = 0;
        while i < self.balances.len()
            invariant
                self.wf(),
                i <= self.balances@.len(),
                forall|j: int| 0 <= j < i ==> self.balances@[j].0 != owner,
            decreases self.balances@.len() - i,
        {
            if self.balances[i].0 == owner {
                proof {
                    lemma_found_index(self.balances@, owner, i as int);
                }
                return self.balances[i].1;
            }
            i += 1;
        }
        proof {
            if has_account(self.balances@, owner) {
                let j = account_index(self.balances@, owner);
                assert(0 <= j < self.balances@.len() && self.balances@[j].0 == owner);
            }
        }
        0
    }

    /// Overwrites the recorded balance of `account` (creating the entry if
    /// absent), leaving every other account untouched.
    fn set_balance(&mut self, account: AccountId, value: Balance)
        requires
            old(self).wf(),
        ensures
            final(self).wf(),
            final(self).total_supply == old(self).total_supply,
            final(self).spec_balance_of(account) == value,
            forall|a: AccountId|
                a != account ==> final(self).spec_balance_of(a) == old(self).spec_balance_of(a),
            final(self).spec_sum() == old(self).spec_sum() - old(self).spec_balance_of(account)
                + value,
    {
        let ghost s0 = self.balances@;
        let mut i: usize = 0;
        while i < self.balances.len()
            invariant
                *self == *old(self),
                s0 == self.balances@,
                i <= self.balances@.len(),
                old(self).wf(),
                forall|j: int| 0 <= j < i ==> self.balances@[j].0 != account,
            decreases self.balances@.len() - i,
        {
            if self.balances[i].0 == account {
                proof {
                    lemma_found_index(s0, account, i as int);
                    lemma_sum_update(s0, i as int, (account, value));
                }
                self.balances[i] = (account, value);
                proof {
                    let s1 = self.balances@;
                    assert forall|p: int, q: int|
                        0 <= p < q < s1.len() implies s1[p].0 != s1[q].0 by {
                        assert(s0[p].0 != s0[q].0);
                        assert(s1[p].0 == s0[p].0);
                        assert(s1[q].0 == s0[q].0);
                    }
                    lemma_found_index(s1, account, i as int);
                    assert forall|a: AccountId|
                        a != account implies balance_in(s1, a) == balance_in(s0, a) by {
                        if has_account(s0, a) {
                            let j = account_index(s0, a);
                            assert(0 <= j < s0.len() && s0[j].0 == a);
                            lemma_found_index(s0, a, j);
                            lemma_found_index(s1, a, j);
                        } else {
                            if has_account(s1, a) {
                                let j = account_index(s1, a);
                                assert(0 <= j < s1.len() && s1[j].0 == a);
                                assert(s0[j].0 == a);
                            }
                        }
                    }
                }
                return;
            }
            i += 1;
        }
        proof {
            if has_account(s0, account) {
                let j = account_index(s0, account);
                assert(0 <= j < s0.len() && s0[j].0 == account);
            }
            lemma_sum_push(s0, (account, value));
        }
        self.balances.push((account, value));
        proof {
            let s1 = self.balances@;
            assert forall|p: int, q: int| 0 <= p < q < s1.len() implies s1[p].0 != s1[q].0 by {
                if q < s1.len() - 1 {
                    assert(s0[p].0 != s0[q].0);
                } else {
                    assert(s1[p].0 == s0[p].0);
                    assert(s0[p].0 != account);
                }
            }
            lemma_found_index(s1, account, s1.len() - 1);
            assert forall|a: AccountId|
                a != account implies balance_in(s1, a) == balance_in(s0, a) by {
                if has_account(s0, a) {
                    let j = account_index(s0, a);
                    assert(0 <= j < s0.len() && s0[j].0 == a);
                    lemma_found_index(s0, a, j);
                    lemma_found_index(s1, a, j);
                } else {
                    if has_account(s1, a) {
                        let j = account_index(s1, a);
                        assert(0 <= j < s1.len() && s1[j].0 == a);
                        assert(j < s1.len() - 1);
                        assert(s0[j].0 == a);
                    }
                }
            }
        }
    }

    /// Adds `amount` to the balance of `account`, creating the entry if
    /// absent. Fails with `Overflow`, and changes nothing, exactly when the
    /// new balance would not be representable.
    pub fn credit(&mut self, account: AccountId, amount: Balance) -> (r: Result<(), Error>)
        requires
            old(self).wf(),
        ensures
            final(self).wf(),
            final(self).spec_total_supply() == old(self).spec_total_supply(),
            r is Ok <==> old(self).spec_balance_of(account) + amount <= Balance::MAX,
            r is Err ==> r == Err::<(), Error>(Error::Overflow) && *final(self) == *old(self),
            r is Ok ==> final(self).spec_balance_of(account) == old(self).spec_balance_of(account)
                + amount,
            r is Ok ==> forall|a: AccountId|
                a != account ==> final(self).spec_balance_of(a) == old(self).spec_balance_of(a),
            r is Ok ==> final(self).spec_sum() == old(self).spec_sum() + amount,
    {
        let current = self.balance_of(account);
        if amount > Balance::MAX - current {
            Err(Error::Overflow)
        } else {
            self.set_balance(account, current + amount);
            Ok(())
        }
    }

    /// Subtracts `amount` from the balance of `account`. Fails with
    /// `InsufficientBalance`, and changes nothing, exactly when the account
    /// holds less than `amount`; a balance never goes below zero.
    pub fn debit(&mut self, account: AccountId, amount: Balance) -> (r: Result<(), Error>)
        requires
            old(self).wf(),
        ensures
            final(self).wf(),
            final(self).spec_total_supply() == old(self).spec_total_supply(),
            r is Ok <==> amount <= old(self).spec_balance_of(account),
            r is Err ==> r == Err::<(), Error>(Error::InsufficientBalance) && *final(self) == *old(
                self,
            ),
            r is Ok ==> final(self).spec_balance_of(account) == old(self).spec_balance_of(account)
                - amount,
            r is Ok ==> forall|a: AccountId|
                a != account ==> final(self).spec_balance_of(a) == old(self).spec_balance_of(a),
            r is Ok ==> final(self).spec_sum() == old(self).spec_sum() - amount,
    {
        let current = self.balance_of(account);
        if current < amount {
            Err(Error::InsufficientBalance)
        } else {
            self.set_balance(account, current - amount);
            Ok(())
        }
    }
}

} // verus!
