use vstd::prelude::*;

use crate::account::AccountId;
use crate::errors::Error;
use crate::ledger::Balance;

verus! {

/// No `(owner, spender)` pair owns two entries of the list.
pub open spec fn distinct_pairs(s: Seq<(AccountId, AccountId, Balance)>) -> bool {
    forall|i: int, j: int|
        0 <= i < j < s.len() ==> !(s[i].0 == s[j].0 && s[i].1 == s[j].1)
}

/// Whether some entry of the list belongs to `(owner, spender)`.
pub open spec fn has_pair(
    s: Seq<(AccountId, AccountId, Balance)>,
    owner: AccountId,
    spender: AccountId,
) -> bool {
    exists|i: int| 0 <= i < s.len() && s[i].0 == owner && s[i].1 == spender
}

/// The index of the entry of `(owner, spender)` (meaningful only when one
/// exists).
pub open spec fn pair_index(
    s: Seq<(AccountId, AccountId, Balance)>,
    owner: AccountId,
    spender: AccountId,
) -> int {
    choose|i: int| 0 <= i < s.len() && s[i].0 == owner && s[i].1 == spender
}

/// The allowance the list records for `(owner, spender)`; an absent pair
/// reads as zero.
pub open spec fn allowance_in(
    s: Seq<(AccountId, AccountId, Balance)>,
    owner: AccountId,
    spender: AccountId,
) -> Balance {
    if has_pair(s, owner, spender) {
        s[pair_index(s, owner, spender)].2
    } else {
        0
    }
}

/// In a list without repeated pairs, an entry that matches `(owner,
/// spender)` is the entry the lookup spec functions speak of.
pub proof fn lemma_found_pair(
    s: Seq<(AccountId, AccountId, Balance)>,
    owner: AccountId,
    spender: AccountId,
    i: int,
)
    requires
        distinct_pairs(s),
        0 <= i < s.len(),
        s[i].0 == owner,
        s[i].1 == spender,
    ensures
        has_pair(s, owner, spender),
        pair_index(s, owner, spender) == i,
        allowance_in(s, owner, spender) == s[i].2,
{
    assert(has_pair(s, owner, spender));
    let j = pair_index(s, owner, spender);
    assert(0 <= j < s.len() && s[j].0 == owner && s[j].1 == spender);
    if j < i {
        assert(!(s[j].0 == s[i].0 && s[j].1 == s[i].1));
    } else if i < j {
        assert(!(s[i].0 == s[j].0 && s[i].1 == s[j].1));
    }
}

/// The spending rights owners have granted: `(owner, spender)` maps to the
/// amount `spender` may still move out of `owner`'s balance. Absence of a
/// pair is equivalent to an allowance of zero, and no invariant ties an
/// allowance to a balance: the grant only bounds spending rights, enforced
/// at transfer time.
pub struct AllowanceRegistry {
    pub allowances: Vec<(AccountId, AccountId, Balance)>,
}

impl AllowanceRegistry {
    /// Well-formed: each `(owner, spender)` pair appears at most once.
    pub open spec fn wf(self) -> bool {
        distinct_pairs(self.allowances@)
    }

    /// The allowance `spender` still has from `owner`; zero when none was
    /// ever granted.
    pub open spec fn spec_allowance_of(self, owner: AccountId, spender: AccountId) -> Balance {
        allowance_in(self.allowances@, owner, spender)
    }

    /// Creates the registry with no grant recorded: every allowance reads
    /// as zero.
    pub fn new() -> (r: AllowanceRegistry)
        ensures
            r.wf(),
            forall|o: AccountId, s: AccountId| r.spec_allowance_of(o, s) == 0,
    {
        let r = AllowanceRegistry { allowances: Vec::new() };
        proof {
            assert forall|o: AccountId, s: AccountId| r.spec_allowance_of(o, s) == 0 by {
                if has_pair(r.allowances@, o, s) {
                    let j = pair_index(r.allowances@, o, s);
                    assert(0 <= j < r.allowances@.len());
                }
            }
        }
        r
    }

    /// Returns the remaining allowance of `(owner, spender)`, or zero when
    /// the pair is absent.
    pub fn allowance_of(&self, owner: AccountId, spender: AccountId) -> (r: Balance)
        requires
            self.wf(),
        ensures
            r == self.spec_allowance_of(owner, spender),
    {
        let mut i: usize = 0;
        while i < self.allowances.len()
            invariant
                self.wf(),
                i <= self.allowances@.len(),
                forall|j: int|
                    0 <= j < i ==> !(self.allowances@[j].0 == owner && self.allowances@[j].1
                        == spender),
            decreases self.allowances@.len() - i,
        {
            if self.allowances[i].0 == owner && self.allowances[i].1 == spender {
                proof {
                    lemma_found_pair(self.allowances@, owner, spender, i as int);
                }
                return self.allowances[i].2;
            }
            i += 1;
        }
        proof {
            if has_pair(self.allowances@, owner, spender) {
                let j = pair_index(self.allowances@, owner, spender);
                assert(0 <= j < self.allowances@.len());
            }
        }
        0
    }

    /// Overwrites — never adds to — the allowance of `(owner, spender)`:
    /// whatever was granted before, the new value is exactly `amount`.
    /// Cannot fail.
    pub fn set_allowance(&mut self, owner: AccountId, spender: AccountId, amount: Balance)
        requires
            old(self).wf(),
        ensures
            final(self).wf(),
            final(self).spec_allowance_of(owner, spender) == amount,
            forall|o: AccountId, s: AccountId|
                !(o == owner && s == spender) ==> final(self).spec_allowance_of(o, s) == old(
                    self,
                ).spec_allowance_of(o, s),
    {
        let ghost s0 = self.allowances@;
        let mut i: usize = 0;
        while i < self.allowances.len()
            invariant
                *self == *old(self),
                s0 == self.allowances@,
                i <= self.allowances@.len(),
                old(self).wf(),
                forall|j: int|
                    0 <= j < i ==> !(self.allowances@[j].0 == owner && self.allowances@[j].1
                        == spender),
            decreases self.allowances@.len() - i,
        {
            if self.allowances[i].0 == owner && self.allowances[i].1 == spender {
                self.allowances[i] = (owner, spender, amount);
                proof {
                    let s1 = self.allowances@;
                    assert forall|p: int, q: int|
                        0 <= p < q < s1.len() implies !(s1[p].0 == s1[q].0 && s1[p].1
                        == s1[q].1) by {
                        assert(!(s0[p].0 == s0[q].0 && s0[p].1 == s0[q].1));
                        assert(s1[p].0 == s0[p].0 && s1[p].1 == s0[p].1);
                        assert(s1[q].0 == s0[q].0 && s1[q].1 == s0[q].1);
                    }
                    lemma_found_pair(s1, owner, spender, i as int);
                    assert forall|o: AccountId, s: AccountId|
                        !(o == owner && s == spender) implies allowance_in(s1, o, s)
                        == allowance_in(s0, o, s) by {
                        if has_pair(s0, o, s) {
                            let j = pair_index(s0, o, s);
                            assert(0 <= j < s0.len() && s0[j].0 == o && s0[j].1 == s);
                            lemma_found_pair(s0, o, s, j);
                            lemma_found_pair(s1, o, s, j);
                        } else {
                            if has_pair(s1, o, s) {
                                let j = pair_index(s1, o, s);
                                assert(0 <= j < s1.len() && s1[j].0 == o && s1[j].1 == s);
                                assert(s0[j].0 == o && s0[j].1 == s);
                            }
                        }
                    }
                }
                return;
            }
            i += 1;
        }
        proof {
            if has_pair(s0, owner, spender) {
                let j = pair_index(s0, owner, spender);
                assert(0 <= j < s0.len());
            }
        }
        self.allowances.push((owner, spender, amount));
        proof {
            let s1 = self.allowances@;
            assert forall|p: int, q: int|
                0 <= p < q < s1.len() implies !(s1[p].0 == s1[q].0 && s1[p].1 == s1[q].1) by {
                if q < s1.len() - 1 {
                    assert(!(s0[p].0 == s0[q].0 && s0[p].1 == s0[q].1));
                } else {
                    assert(s1[p].0 == s0[p].0 && s1[p].1 == s0[p].1);
                    assert(!(s0[p].0 == owner && s0[p].1 == spender));
                }
            }
            lemma_found_pair(s1, owner, spender, s1.len() - 1);
            assert forall|o: AccountId, s: AccountId|
                !(o == owner && s == spender) implies allowance_in(s1, o, s) == allowance_in(
                s0,
                o,
                s,
            ) by {
                if has_pair(s0, o, s) {
                    let j = pair_index(s0, o, s);
                    assert(0 <= j < s0.len() && s0[j].0 == o && s0[j].1 == s);
                    lemma_found_pair(s0, o, s, j);
                    lemma_found_pair(s1, o, s, j);
                } else {
                    if has_pair(s1, o, s) {
                        let j = pair_index(s1, o, s);
                        assert(0 <= j < s1.len() && s1[j].0 == o && s1[j].1 == s);
                        assert(j < s1.len() - 1);
                        assert(s0[j].0 == o && s0[j].1 == s);
                    }
                }
            }
        }
    }

    /// Reduces the allowance of `(owner, spender)` by `amount`. Fails with
    /// `InsufficientAllowance`, and changes nothing, exactly when the
    /// remaining allowance is less than `amount`.
    pub fn consume_allowance(
        &mut self,
        owner: AccountId,
        spender: AccountId,
        amount: Balance,
    ) -> (r: Result<(), Error>)
        requires
            old(self).wf(),
        ensures
            final(self).wf(),
            r is Ok <==> amount <= old(self).spec_allowance_of(owner, spender),
            r is Err ==> r == Err::<(), Error>(Error::InsufficientAllowance) && *final(self)
                == *old(self),
            r is Ok ==> final(self).spec_allowance_of(owner, spender) == old(
                self,
            ).spec_allowance_of(owner, spender) - amount,
            r is Ok ==> forall|o: AccountId, s: AccountId|
                !(o == owner && s == spender) ==> final(self).spec_allowance_of(o, s) == old(
                    self,
                ).spec_allowance_of(o, s),
    {
        let current = self.allowance_of(owner, spender);
        if current < amount {
            Err(Error::InsufficientAllowance)
        } else {
            self.set_allowance(owner, spender, current - amount);
            Ok(())
        }
    }
}

} // verus!
