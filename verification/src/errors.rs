use vstd::prelude::*;

verus! {

/// The failures a ledger operation can report. Every one is an ordinary,
/// recoverable outcome of user-supplied values: it is detected before any
/// state is mutated, and the call leaves both maps exactly as they were.
#[derive(Clone, Copy, Debug, PartialEq, Eq, Structural)]
pub enum Error {
    /// A debit was requested for more than the source account holds.
    InsufficientBalance,
    /// A delegated transfer was requested for more than the spender's
    /// remaining allowance from that owner.
    InsufficientAllowance,
    /// A credit would exceed the representable amount range. Defensive:
    /// unreachable through the transfer engine, whose conserved supply
    /// bounds every balance, but checked rather than assumed.
    Overflow,
}

} // verus!
