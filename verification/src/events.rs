use vstd::prelude::*;

use crate::account::AccountId;
use crate::ledger::Balance;

verus! {

/// A movement of tokens. `from` is `None` only for the single event that
/// records the creation of the initial supply at construction.
#[derive(Clone, Copy, Debug, PartialEq, Eq)]
pub struct Transfer {
    pub from: Option<AccountId>,
    pub to: Option<AccountId>,
    pub value: Balance,
}

/// A grant (or overwrite) of a spending right from `owner` to `spender`.
#[derive(Clone, Copy, Debug, PartialEq, Eq)]
pub struct Approval {
    pub owner: AccountId,
    pub spender: AccountId,
    pub value: Balance,
}

/// One record handed to the host's event sink. Exactly one is produced per
/// successful state-changing operation, and none on failure.
#[derive(Clone, Copy, Debug, PartialEq, Eq)]
pub enum Event {
    Transfer(Transfer),
    Approval(Approval),
}

/// The transfer record with the given payload, as contracts speak of it.
pub open spec fn transfer_event(
    from: Option<AccountId>,
    to: Option<AccountId>,
    value: Balance,
) -> Event {
    Event::Transfer(Transfer { from, to, value })
}

/// The approval record with the given payload, as contracts speak of it.
pub open spec fn approval_event(owner: AccountId, spender: AccountId, value: Balance) -> Event {
    Event::Approval(Approval { owner, spender, value })
}

} // verus!
