//! A fungible-token ledger: a fixed total supply of indivisible units is
//! tracked across accounts, and an owner can delegate a bounded spending
//! right (an allowance) to another account.
//!
//! The crate is organised around three pieces that share one contract
//! instance:
//!
//! - [`ledger::Ledger`] holds the immutable total supply and the balance of
//!   every account;
//! - [`allowance::AllowanceRegistry`] holds the spending rights granted by
//!   owners to spenders;
//! - [`engine::Erc20`] orchestrates the public operations (direct transfer,
//!   allowance grant, delegated transfer), validating against both maps and
//!   recording one event per successful state change.
//!
//! The hosting execution environment is out of scope: the caller's identity
//! arrives as an explicit parameter of every state-changing operation, and
//! events are appended to an in-memory log that stands for the host's sink.

pub mod account;
pub mod allowance;
pub mod engine;
pub mod errors;
pub mod events;
pub mod ledger;

pub use account::AccountId;
pub use allowance::AllowanceRegistry;
pub use engine::Erc20;
pub use errors::Error;
pub use events::Approval;
pub use events::Event;
pub use events::Transfer;
pub use ledger::Balance;
pub use ledger::Ledger;
