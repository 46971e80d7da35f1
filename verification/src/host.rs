//! What passes between the engine and its host.
//!
//! The host tells the engine who signed a call and what the transfer service
//! answered. The engine tells the host which transfer to ask for and which
//! event to publish.

use vstd::prelude::*;
use crate::address::Address;

verus! {

/// The host's statement of who signed the current call.
#[derive(Debug)]
pub struct CallerAuth {
    signer: Address,
}

impl View for CallerAuth {
    type V = Seq<char>;

    closed spec fn view(&self) -> Seq<char> {
        self.signer@
    }
}

impl CallerAuth {
    /// The authorization of a call that `signer` has signed.
    pub fn new(signer: Address) -> (auth: CallerAuth)
        ensures
            auth@ == signer@,
    {
        CallerAuth { signer }
    }

    /// Whether the call was signed by `who`.
    pub fn authorizes(&self, who: &Address) -> (yes: bool)
        ensures
            yes == (self@ == who@),
    {
        self.signer.same(who)
    }
}

/// One end of a transfer, as a mathematical value.
pub enum AccountView {
    Custody,
    Participant(Seq<char>),
}

/// One end of a transfer: the account in which the engine's host keeps the
/// tips until they are withdrawn, or the account of a participant.
#[derive(Debug, PartialEq, Eq)]
pub enum Account {
    Custody,
    Participant(Address),
}

impl View for Account {
    type V = AccountView;

    open spec fn view(&self) -> AccountView {
        match self {
            Account::Custody => AccountView::Custody,
            Account::Participant(address) => AccountView::Participant(address@),
        }
    }
}

/// A transfer order as a mathematical value.
pub struct TransferOrderView {
    pub token: Seq<char>,
    pub from: AccountView,
    pub to: AccountView,
    pub amount: int,
}

/// What the host is to ask of the transfer service before it completes a
/// call: to move `amount` of `token` from one account to another.
#[derive(Debug, PartialEq, Eq)]
pub struct TransferOrder {
    pub token: Address,
    pub from: Account,
    pub to: Account,
    pub amount: i128,
}

impl View for TransferOrder {
    type V = TransferOrderView;

    open spec fn view(&self) -> TransferOrderView {
        TransferOrderView { token: self.token@, from: self.from@, to: self.to@, amount: self.amount as int }
    }
}

/// What the transfer service answered when asked to move the tokens of a call.
#[derive(Clone, Copy, Debug, PartialEq, Eq, Structural)]
pub enum TransferOutcome {
    /// The tokens have moved.
    Completed,
    /// The tokens have not moved.
    Rejected,
}

/// An event as a mathematical value.
pub enum EventView {
    TipSent { from: Seq<char>, to: Seq<char>, amount: int, timestamp: int },
    Withdrawal { user: Seq<char>, token: Seq<char>, amount: int, timestamp: int },
}

/// What the host is to publish after an accepted call.
#[derive(Debug, PartialEq, Eq)]
pub enum Event {
    /// A tip of `amount` from `from` to `to` was accepted at `timestamp`.
    TipSent { from: Address, to: Address, amount: i128, timestamp: u64 },
    /// A withdrawal of `amount` of `token` by `user` was accepted at
    /// `timestamp`.
    Withdrawal { user: Address, token: Address, amount: i128, timestamp: u64 },
}

impl View for Event {
    type V = EventView;

    open spec fn view(&self) -> EventView {
        match self {
            Event::TipSent { from, to, amount, timestamp } => EventView::TipSent {
                from: from@,
                to: to@,
                amount: *amount as int,
                timestamp: *timestamp as int,
            },
            Event::Withdrawal { user, token, amount, timestamp } => EventView::Withdrawal {
                user: user@,
                token: token@,
                amount: *amount as int,
                timestamp: *timestamp as int,
            },
        }
    }
}

} // verus!
