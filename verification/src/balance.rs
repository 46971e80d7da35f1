//! The balance of one participant in one token.

use vstd::prelude::*;
use crate::address::Address;
use crate::error::TipError;

verus! {

/// A balance as a mathematical value.
pub struct BalanceView {
    pub total_received: int,
    pub available: int,
    pub withdrawn: int,
    pub token: Seq<char>,
}

impl BalanceView {
    /// Everything received is either still available or withdrawn, and
    /// neither part is negative.
    pub open spec fn balanced(self) -> bool {
        &&& self.total_received == self.available + self.withdrawn
        &&& self.available >= 0
        &&& self.withdrawn >= 0
    }

    /// The balance of a participant who has received nothing yet.
    pub open spec fn zero(token: Seq<char>) -> BalanceView {
        BalanceView { total_received: 0, available: 0, withdrawn: 0, token }
    }

    /// This balance after `amount` more has been received.
    pub open spec fn deposit(self, amount: int) -> BalanceView {
        BalanceView {
            total_received: self.total_received + amount,
            available: self.available + amount,
            ..self
        }
    }

    /// This balance after `amount` has been paid out.
    pub open spec fn withdraw(self, amount: int) -> BalanceView {
        BalanceView {
            available: self.available - amount,
            withdrawn: self.withdrawn + amount,
            ..self
        }
    }
}

/// The running totals of what one participant has received, may still
/// withdraw and has withdrawn in one token.
#[derive(Debug)]
pub struct Balance {
    total_received: i128,
    available: i128,
    withdrawn: i128,
    token: Address,
}

impl View for Balance {
    type V = BalanceView;

    closed spec fn view(&self) -> BalanceView {
        BalanceView {
            total_received: self.total_received as int,
            available: self.available as int,
            withdrawn: self.withdrawn as int,
            token: self.token@,
        }
    }
}

impl Balance {
    /// The invariant of every balance: it is balanced.
    pub open spec fn wf(&self) -> bool {
        self@.balanced()
    }

    /// The balance of a participant who has received nothing yet.
    pub fn new(token: Address) -> (balance: Balance)
        ensures
            balance.wf(),
            balance@ == BalanceView::zero(token@),
    {
        Balance { total_received: 0, available: 0, withdrawn: 0, token }
    }

    /// The balance with these totals, if they are balanced.
    pub fn from_parts(
        total_received: i128,
        available: i128,
        withdrawn: i128,
        token: Address,
    ) -> (result: Option<Balance>)
        ensures
            result is Some <==> (BalanceView {
                total_received: total_received as int,
                available: available as int,
                withdrawn: withdrawn as int,
                token: token@,
            }).balanced(),
            result matches Some(balance) ==> {
                &&& balance.wf()
                &&& balance@ == (BalanceView {
                    total_received: total_received as int,
                    available: available as int,
                    withdrawn: withdrawn as int,
                    token: token@,
                })
            },
    {
        if available >= 0 && withdrawn >= 0 && total_received >= available && total_received - available
            == withdrawn {
            Some(Balance { total_received, available, withdrawn, token })
        } else {
            None
        }
    }

    /// Adds a received amount. The caller vouches that the amount is positive.
    pub fn deposit(&mut self, amount: i128)
        requires
            old(self).wf(),
            amount > 0,
            old(self)@.total_received + amount <= i128::MAX,
        ensures
            final(self).wf(),
            final(self)@ == old(self)@.deposit(amount as int),
    {
        self.total_received = self.total_received + amount;
        self.available = self.available + amount;
    }

    /// Pays out an amount, unless it exceeds what is available. The caller
    /// vouches that the amount is positive.
    pub fn withdraw(&mut self, amount: i128) -> (result: Result<(), TipError>)
        requires
            old(self).wf(),
            amount > 0,
        ensures
            final(self).wf(),
            match result {
                Ok(()) => {
                    &&& amount <= old(self)@.available
                    &&& final(self)@ == old(self)@.withdraw(amount as int)
                },
                Err(e) => {
                    &&& e == TipError::InsufficientBalanceError
                    &&& amount > old(self)@.available
                    &&& final(self)@ == old(self)@
                },
            },
    {
        if self.available < amount {
            return Err(TipError::InsufficientBalanceError);
        }
        self.available = self.available - amount;
        self.withdrawn = self.withdrawn + amount;
        Ok(())
    }

    /// All that was ever received.
    pub fn total_received(&self) -> (amount: i128)
        ensures
            amount == self@.total_received,
    {
        self.total_received
    }

    /// What may still be withdrawn.
    pub fn available(&self) -> (amount: i128)
        ensures
            amount == self@.available,
    {
        self.available
    }

    /// What has been withdrawn.
    pub fn withdrawn(&self) -> (amount: i128)
        ensures
            amount == self@.withdrawn,
    {
        self.withdrawn
    }

    /// The token that the balance is kept in.
    pub fn token(&self) -> (token: &Address)
        ensures
            token@ == self@.token,
    {
        &self.token
    }
}

impl PartialEq for Balance {
    fn eq(&self, other: &Balance) -> (equal: bool) {
        self.total_received == other.total_received && self.available == other.available
            && self.withdrawn == other.withdrawn && self.token == other.token
    }
}

impl vstd::std_specs::cmp::PartialEqSpecImpl for Balance {
    open spec fn obeys_eq_spec() -> bool {
        true
    }

    open spec fn eq_spec(&self, other: &Balance) -> bool {
        self@ == other@
    }
}

impl Eq for Balance {}

impl Clone for Balance {
    fn clone(&self) -> (copy: Balance)
        ensures
            copy@ == self@,
    {
        Balance {
            total_received: self.total_received,
            available: self.available,
            withdrawn: self.withdrawn,
            token: self.token.clone(),
        }
    }
}

} // verus!
