use vstd::prelude::*;

use crate::account::AccountId;
use crate::allowance::AllowanceRegistry;
use crate::errors::Error;
use crate::events::approval_event;
use crate::events::transfer_event;
use crate::events::Approval;
use crate::events::Event;
use crate::events::Transfer;
use crate::ledger::lemma_balance_le_sum;
use crate::ledger::Balance;
use crate::ledger::Ledger;

verus! {

/// The transfer engine: one token contract's whole state — the balance
/// ledger, the allowance registry and the log of emitted events — together
/// with the three state-changing operations (direct transfer, allowance
/// grant, delegated transfer).
///
/// The hosting environment authenticates callers; every state-changing
/// operation therefore takes the calling account as an explicit `caller`
/// parameter and trusts it completely. Events are appended to `events`,
/// which stands for the host's sink: exactly one record per successful
/// operation, none on failure.
pub struct Erc20 {
    pub ledger: Ledger,
    pub registry: AllowanceRegistry,
    pub events: Vec<Event>,
}

impl Erc20 {
    /// Well-formed: both maps hold each key at most once, and the balances
    /// sum exactly to the immutable total supply (the conservation law).
    pub open spec fn wf(self) -> bool {
        &&& self.ledger.wf()
        &&& self.registry.wf()
        &&& self.ledger.spec_sum() == self.ledger.spec_total_supply()
    }

    /// The immutable total supply.
    pub open spec fn spec_total_supply(self) -> Balance {
        self.ledger.spec_total_supply()
    }

    /// The balance of `a`; zero for an account never credited.
    pub open spec fn spec_balance_of(self, a: AccountId) -> Balance {
        self.ledger.spec_balance_of(a)
    }

    /// The allowance `spender` still has from `owner`; zero when none was
    /// granted.
    pub open spec fn spec_allowance_of(self, owner: AccountId, spender: AccountId) -> Balance {
        self.registry.spec_allowance_of(owner, spender)
    }

    /// The events emitted so far, oldest first.
    pub open spec fn spec_events(self) -> Seq<Event> {
        self.events@
    }

    /// Conservation law: in every well-formed state — as construction
    /// establishes and every operation preserves — the balances of all
    /// accounts sum exactly to the immutable total supply.
    pub proof fn lemma_conservation(self)
        requires
            self.wf(),
        ensures
            self.ledger.spec_sum() == self.spec_total_supply(),
    {
    }

    /// Non-negativity law: no account's balance is ever negative, and none
    /// exceeds the sum of all balances — in a well-formed state, the total
    /// supply.
    pub proof fn lemma_balance_bounds(self, a: AccountId)
        requires
            self.wf(),
        ensures
            0 <= self.spec_balance_of(a) <= self.spec_total_supply(),
    {
        lemma_balance_le_sum(self.ledger.balances@, a);
    }

    /// Creates the contract: sets the total supply, credits all of it to
    /// `caller`, and emits the single `Transfer` event whose `from` is
    /// `None`. No later operation changes the total supply.
    pub fn new(caller: AccountId, initial_supply: Balance) -> (r: Erc20)
        ensures
            r.wf(),
            r.spec_total_supply() == initial_supply,
            r.spec_balance_of(caller) == initial_supply,
            forall|a: AccountId| a != caller ==> r.spec_balance_of(a) == 0,
            forall|o: AccountId, s: AccountId| r.spec_allowance_of(o, s) == 0,
            r.spec_events() == seq![transfer_event(None, Some(caller), initial_supply)],
    {
        let ledger = Ledger::new(caller, initial_supply);
        let registry = AllowanceRegistry::new();
        let mut events: Vec<Event> = Vec::new();
        events.push(
            Event::Transfer(Transfer { from: None, to: Some(caller), value: initial_supply }),
        );
        Erc20 { ledger, registry, events }
    }

    /// Returns the total token supply.
    pub fn total_supply(&self) -> (r: Balance)
        ensures
            r == self.spec_total_supply(),
    {
        self.ledger.total_supply()
    }

    /// Returns the balance of `owner`, or zero if the account is absent.
    pub fn balance_of(&self, owner: AccountId) -> (r: Balance)
        requires
            self.wf(),
        ensures
            r == self.spec_balance_of(owner),
    {
        self.ledger.balance_of(owner)
    }

    /// Returns the amount `spender` is still allowed to withdraw from
    /// `owner`, or zero if no allowance was set.
    pub fn allowances(&self, owner: AccountId, spender: AccountId) -> (r: Balance)
        requires
            self.wf(),
        ensures
            r == self.spec_allowance_of(owner, spender),
    {
        self.registry.allowance_of(owner, spender)
    }

    /// Returns the events emitted so far, oldest first.
    pub fn events(&self) -> (r: &Vec<Event>)
        ensures
            r@ == self.spec_events(),
    {
        &self.events
    }

    /// Moves `value` tokens from `caller` to `to`. Succeeds, and emits one
    /// `Transfer` event, exactly when `caller` holds at least `value`;
    /// otherwise fails with `InsufficientBalance` and changes nothing. A
    /// self-transfer is a correctly balanced no-op on the balances that
    /// still emits its event.
    pub fn transfer(&mut self, caller: AccountId, to: AccountId, value: Balance) -> (r: Result<
        (),
        Error,
    >)
        requires
            old(self).wf(),
        ensures
            final(self).wf(),
            final(self).spec_total_supply() == old(self).spec_total_supply(),
            forall|o: AccountId, s: AccountId|
                final(self).spec_allowance_of(o, s) == old(self).spec_allowance_of(o, s),
            r is Ok <==> value <= old(self).spec_balance_of(caller),
            r is Err ==> r == Err::<(), Error>(Error::InsufficientBalance) && *final(self) == *old(
                self,
            ),
            r is Ok && caller != to ==> final(self).spec_balance_of(caller) == old(
                self,
            ).spec_balance_of(caller) - value && final(self).spec_balance_of(to) == old(
                self,
            ).spec_balance_of(to) + value,
            r is Ok && caller == to ==> forall|a: AccountId|
                final(self).spec_balance_of(a) == old(self).spec_balance_of(a),
            r is Ok ==> forall|a: AccountId|
                a != caller && a != to ==> final(self).spec_balance_of(a) == old(
                    self,
                ).spec_balance_of(a),
            r is Ok ==> final(self).spec_events() == old(self).spec_events().push(
                transfer_event(Some(caller), Some(to), value),
            ),
    {
        self.transfer_from_to(caller, to, value)
    }

    /// Grants `spender` the right to withdraw up to `value` from `caller`,
    /// overwriting — never adding to — any earlier grant, and emits one
    /// `Approval` event. Always succeeds.
    pub fn approve(&mut self, caller: AccountId, spender: AccountId, value: Balance) -> (r: Result<
        (),
        Error,
    >)
        requires
            old(self).wf(),
        ensures
            final(self).wf(),
            r == Ok::<(), Error>(()),
            final(self).spec_total_supply() == old(self).spec_total_supply(),
            final(self).spec_allowance_of(caller, spender) == value,
            forall|o: AccountId, s: AccountId|
                !(o == caller && s == spender) ==> final(self).spec_allowance_of(o, s) == old(
                    self,
                ).spec_allowance_of(o, s),
            forall|a: AccountId| final(self).spec_balance_of(a) == old(self).spec_balance_of(a),
            final(self).spec_events() == old(self).spec_events().push(
                approval_event(caller, spender, value),
            ),
    {
        self.registry.set_allowance(caller, spender, value);
        self.events.push(Event::Approval(Approval { owner: caller, spender, value }));
        Ok(())
    }

    /// Moves `value` tokens from `from` to `to` on behalf of `caller`,
    /// within the allowance `from` granted to `caller`. The allowance check
    /// comes first: too small a remaining allowance fails with
    /// `InsufficientAllowance` even if the balance is also short. Then the
    /// balance check: too small a balance fails with `InsufficientBalance`
    /// and leaves the allowance untouched. Only when both pass are the
    /// balances moved, the allowance reduced by `value`, and one `Transfer`
    /// event emitted; every failure leaves all state exactly as it was.
    pub fn transfer_from(
        &mut self,
        caller: AccountId,
        from: AccountId,
        to: AccountId,
        value: Balance,
    ) -> (r: Result<(), Error>)
        requires
            old(self).wf(),
        ensures
            final(self).wf(),
            final(self).spec_total_supply() == old(self).spec_total_supply(),
            r is Ok <==> value <= old(self).spec_allowance_of(from, caller) && value <= old(
                self,
            ).spec_balance_of(from),
            old(self).spec_allowance_of(from, caller) < value ==> r == Err::<(), Error>(
                Error::InsufficientAllowance,
            ),
            value <= old(self).spec_allowance_of(from, caller) && old(self).spec_balance_of(from)
                < value ==> r == Err::<(), Error>(Error::InsufficientBalance),
            r is Err ==> *final(self) == *old(self),
            r is Ok ==> final(self).spec_allowance_of(from, caller) == old(
                self,
            ).spec_allowance_of(from, caller) - value,
            r is Ok ==> forall|o: AccountId, s: AccountId|
                !(o == from && s == caller) ==> final(self).spec_allowance_of(o, s) == old(
                    self,
                ).spec_allowance_of(o, s),
            r is Ok && from != to ==> final(self).spec_balance_of(from) == old(
                self,
            ).spec_balance_of(from) - value && final(self).spec_balance_of(to) == old(
                self,
            ).spec_balance_of(to) + value,
            r is Ok && from == to ==> forall|a: AccountId|
                final(self).spec_balance_of(a) == old(self).spec_balance_of(a),
            r is Ok ==> forall|a: AccountId|
                a != from && a != to ==> final(self).spec_balance_of(a) == old(
                    self,
                ).spec_balance_of(a),
            r is Ok ==> final(self).spec_events() == old(self).spec_events().push(
                transfer_event(Some(from), Some(to), value),
            ),
    {
        let allowance = self.registry.allowance_of(from, caller);
        if allowance < value {
            return Err(Error::InsufficientAllowance);
        }
        match self.transfer_from_to(from, to, value) {
            Ok(()) => {},
            Err(e) => {
                return Err(e);
            },
        }
        match self.registry.consume_allowance(from, caller, value) {
            Ok(()) => Ok(()),
            Err(e) => {
                // Unreachable: the allowance was checked above and the
                // transfer leaves every allowance as it was.
                Err(e)
            },
        }
    }

    /// The debit/credit/emit sequence shared by `transfer` and
    /// `transfer_from`: balance validation and mutation happen before any
    /// event is recorded, so a failure leaves the state exactly as it was.
    fn transfer_from_to(&mut self, from: AccountId, to: AccountId, value: Balance) -> (r: Result<
        (),
        Error,
    >)
        requires
            old(self).wf(),
        ensures
            final(self).wf(),
            final(self).spec_total_supply() == old(self).spec_total_supply(),
            forall|o: AccountId, s: AccountId|
                final(self).spec_allowance_of(o, s) == old(self).spec_allowance_of(o, s),
            r is Ok <==> value <= old(self).spec_balance_of(from),
            r is Err ==> r == Err::<(), Error>(Error::InsufficientBalance) && *final(self) == *old(
                self,
            ),
            r is Ok && from != to ==> final(self).spec_balance_of(from) == old(
                self,
            ).spec_balance_of(from) - value && final(self).spec_balance_of(to) == old(
                self,
            ).spec_balance_of(to) + value,
            r is Ok && from == to ==> forall|a: AccountId|
                final(self).spec_balance_of(a) == old(self).spec_balance_of(a),
            r is Ok ==> forall|a: AccountId|
                a != from && a != to ==> final(self).spec_balance_of(a) == old(
                    self,
                ).spec_balance_of(a),
            r is Ok ==> final(self).spec_events() == old(self).spec_events().push(
                transfer_event(Some(from), Some(to), value),
            ),
    {
        let from_balance = self.ledger.balance_of(from);
        if from_balance < value {
            return Err(Error::InsufficientBalance);
        }
        match self.ledger.debit(from, value) {
            Ok(()) => {},
            Err(e) => {
                return Err(e);
            },
        }
        proof {
            lemma_balance_le_sum(self.ledger.balances@, to);
        }
        match self.ledger.credit(to, value) {
            Ok(()) => {},
            Err(e) => {
                // Unreachable: the conserved supply bounds every balance,
                // so the credit cannot overflow.
                return Err(e);
            },
        }
        self.events.push(Event::Transfer(Transfer { from: Some(from), to: Some(to), value }));
        Ok(())
    }
}

} // verus!
