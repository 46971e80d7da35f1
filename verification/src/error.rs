//! Why an operation is refused.

use vstd::prelude::*;

verus! {

/// The reason for which `send_tip` or `withdraw` refuses a call. A refused
/// call changes no record.
#[derive(Clone, Copy, Debug, PartialEq, Eq, Structural)]
pub enum TipError {
    /// The caller has not signed for the participant that the call names.
    AuthorizationError,
    /// The amount is zero or negative.
    InvalidAmountError,
    /// Sender and recipient are the same participant.
    SelfTipError,
    /// The message has more than `MAX_MESSAGE_LEN` characters.
    MessageTooLongError,
    /// The participant has no balance record for the token.
    NoBalanceError,
    /// The withdrawal exceeds the available balance.
    InsufficientBalanceError,
    /// The transfer service has refused to move the tokens.
    TransferFailure,
}

} // verus!
