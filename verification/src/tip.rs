//! The record of one tip.

use vstd::prelude::*;
use vstd::string::StrSliceExecFns;
use crate::address::Address;
use crate::error::TipError;

verus! {

/// The greatest number of characters that the message of a tip may have.
pub const MAX_MESSAGE_LEN: usize = 256;

/// A tip as a mathematical value.
pub struct TipView {
    pub from: Seq<char>,
    pub to: Seq<char>,
    pub amount: int,
    pub message: Seq<char>,
    pub timestamp: int,
    pub token: Seq<char>,
}

/// The fault, if any, in the content of a tip. Where several are present, the
/// first of amount, recipient and message is reported.
pub open spec fn tip_fault(
    from: Seq<char>,
    to: Seq<char>,
    amount: int,
    message: Seq<char>,
) -> Option<TipError> {
    if amount <= 0 {
        Some(TipError::InvalidAmountError)
    } else if from == to {
        Some(TipError::SelfTipError)
    } else if message.len() > MAX_MESSAGE_LEN {
        Some(TipError::MessageTooLongError)
    } else {
        None
    }
}

impl TipView {
    /// A tip moves a positive amount between two different participants and
    /// carries a message of bounded length.
    pub open spec fn valid(self) -> bool {
        tip_fault(self.from, self.to, self.amount, self.message) is None
    }
}

/// Reports what is wrong with this content of a tip, if anything is.
pub fn check_content(
    from: &Address,
    to: &Address,
    amount: i128,
    message: &String,
) -> (result: Result<(), TipError>)
    ensures
        match result {
            Ok(()) => tip_fault(from@, to@, amount as int, message@) is None,
            Err(e) => tip_fault(from@, to@, amount as int, message@) == Some(e),
        },
{
    if amount <= 0 {
        return Err(TipError::InvalidAmountError);
    }
    if from.same(to) {
        return Err(TipError::SelfTipError);
    }
    if message.as_str().unicode_len() > MAX_MESSAGE_LEN {
        return Err(TipError::MessageTooLongError);
    }
    Ok(())
}

/// One transfer from a sender to a recipient, as it was accepted. A tip never
/// changes once it is made.
#[derive(Debug)]
pub struct Tip {
    from: Address,
    to: Address,
    amount: i128,
    message: String,
    timestamp: u64,
    token: Address,
}

impl View for Tip {
    type V = TipView;

    closed spec fn view(&self) -> TipView {
        TipView {
            from: self.from@,
            to: self.to@,
            amount: self.amount as int,
            message: self.message@,
            timestamp: self.timestamp as int,
            token: self.token@,
        }
    }
}

impl Tip {
    /// Every tip that `new` has made is valid.
    pub open spec fn wf(&self) -> bool {
        self@.valid()
    }

    /// Makes the tip with this content, or reports what is wrong with the
    /// content.
    pub fn new(
        from: Address,
        to: Address,
        amount: i128,
        message: String,
        timestamp: u64,
        token: Address,
    ) -> (result: Result<Tip, TipError>)
        ensures
            match result {
                Ok(tip) => {
                    &&& tip_fault(from@, to@, amount as int, message@) is None
                    &&& tip.wf()
                    &&& tip@ == (TipView {
                        from: from@,
                        to: to@,
                        amount: amount as int,
                        message: message@,
                        timestamp: timestamp as int,
                        token: token@,
                    })
                },
                Err(e) => tip_fault(from@, to@, amount as int, message@) == Some(e),
            },
    {
        match check_content(&from, &to, amount, &message) {
            Ok(()) => Ok(Tip { from, to, amount, message, timestamp, token }),
            Err(e) => Err(e),
        }
    }

    /// The participant who sent the tip.
    pub fn sender(&self) -> (sender: &Address)
        ensures
            sender@ == self@.from,
    {
        &self.from
    }

    /// The participant who received the tip.
    pub fn recipient(&self) -> (recipient: &Address)
        ensures
            recipient@ == self@.to,
    {
        &self.to
    }

    /// The amount of the tip, in the smallest unit of its token.
    pub fn amount(&self) -> (amount: i128)
        ensures
            amount == self@.amount,
    {
        self.amount
    }

    /// The message that came with the tip.
    pub fn message(&self) -> (message: &String)
        ensures
            message@ == self@.message,
    {
        &self.message
    }

    /// When the tip was accepted, in seconds.
    pub fn timestamp(&self) -> (timestamp: u64)
        ensures
            timestamp == self@.timestamp,
    {
        self.timestamp
    }

    /// The token in which the tip was paid.
    pub fn token(&self) -> (token: &Address)
        ensures
            token@ == self@.token,
    {
        &self.token
    }
}

impl PartialEq for Tip {
    fn eq(&self, other: &Tip) -> (equal: bool) {
        self.from == other.from && self.to == other.to && self.amount == other.amount && self.message
            == other.message && self.timestamp == other.timestamp && self.token == other.token
    }
}

impl vstd::std_specs::cmp::PartialEqSpecImpl for Tip {
    open spec fn obeys_eq_spec() -> bool {
        true
    }

    open spec fn eq_spec(&self, other: &Tip) -> bool {
        self@ == other@
    }
}

impl Eq for Tip {}

impl Clone for Tip {
    fn clone(&self) -> (copy: Tip)
        ensures
            copy@ == self@,
    {
        Tip {
            from: self.from.clone(),
            to: self.to.clone(),
            amount: self.amount,
            message: self.message.clone(),
            timestamp: self.timestamp,
            token: self.token.clone(),
        }
    }
}

} // verus!
