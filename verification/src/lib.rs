//! A verified accounting engine for micro-tips.
//!
//! Participants send each other small amounts of a token ("tips"). The engine
//! keeps three kinds of records: an append-only log of every accepted tip, a
//! balance per participant and token, and an activity profile per
//! participant. Every operation either applies all of its effects or none.
//!
//! Moving the tokens, telling the time, numbering the tips, publishing the
//! events and persisting the records are the host's business. The host hands
//! the engine what it has learnt as plain values, and the engine hands back
//! what the host is to do next: which transfer to ask for, which event to
//! publish.
//!
//! The contracts are stated over the records as mathematical values
//! (`contract::ContractView`); `history` holds what follows for every
//! sequence of calls.

pub mod address;
pub mod error;
pub mod host;
pub mod tip;
pub mod balance;
pub mod ledger;
pub mod profile;
pub mod tip_log;
pub mod contract;
pub mod history;

pub use address::Address;
pub use balance::Balance;
pub use contract::MicrotipContract;
pub use error::TipError;
pub use host::{Account, CallerAuth, Event, TransferOrder, TransferOutcome};
pub use ledger::BalanceLedger;
pub use profile::{ProfileAggregator, UserProfile};
pub use tip::{Tip, MAX_MESSAGE_LEN};
pub use tip_log::TipLog;
