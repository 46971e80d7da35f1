//! What holds of the records after any sequence of calls.
//!
//! A history is the sequence of the write calls that were made on an engine
//! since it started, each with what the host reported for it. The records
//! after a history are those that `send_tip` and `withdraw` leave when they
//! are called in that order.

use vstd::prelude::*;
use crate::contract::{
    lemma_tip_keeps_balances_matching, lemma_tip_keeps_profiles_matching, tip_rejection, withdrawal_rejection,
    ContractView,
};
use crate::host::TransferOutcome;
use crate::ledger::balance_of;
use crate::profile::profile_of;
use crate::tip::TipView;
use crate::tip_log::tips_to;

verus! {

/// One call of a write operation.
pub enum Call {
    /// A call of `send_tip` for `tip`.
    SendTip { signer: Seq<char>, tip: TipView, transfer: TransferOutcome },
    /// A call of `withdraw`.
    Withdraw { signer: Seq<char>, user: Seq<char>, token: Seq<char>, amount: int, transfer: TransferOutcome },
}

impl Call {
    /// Whether the call is accepted on these records.
    pub open spec fn accepted_on(self, records: ContractView) -> bool {
        match self {
            Call::SendTip { signer, tip, transfer } => tip_rejection(
                signer,
                tip.from,
                tip.to,
                tip.amount,
                tip.message,
                transfer,
            ) is None,
            Call::Withdraw { signer, user, token, amount, transfer } => withdrawal_rejection(
                records.balances,
                signer,
                user,
                token,
                amount,
                transfer,
            ) is None,
        }
    }

    /// The records that the call leaves: those of the operation where it is
    /// accepted, the same records where it is refused.
    pub open spec fn apply(self, records: ContractView) -> ContractView {
        if self.accepted_on(records) {
            match self {
                Call::SendTip { signer, tip, transfer } => records.with_tip(tip),
                Call::Withdraw { signer, user, token, amount, transfer } => records.with_withdrawal(
                    user,
                    token,
                    amount,
                ),
            }
        } else {
            records
        }
    }
}

/// The records after `calls` are made in order on `records`.
pub open spec fn run(records: ContractView, calls: Seq<Call>) -> ContractView
    decreases calls.len(),
{
    if calls.len() == 0 {
        records
    } else {
        calls.last().apply(run(records, calls.drop_last()))
    }
}

/// The records after the calls of `history`, made in order on an engine that
/// has just started.
pub open spec fn replay(history: Seq<Call>) -> ContractView {
    run(ContractView::empty(), history)
}

/// The tips of the accepted `send_tip` calls of `history`, in the order of the
/// calls.
pub open spec fn accepted_tips(history: Seq<Call>) -> Seq<TipView>
    decreases history.len(),
{
    if history.len() == 0 {
        Seq::empty()
    } else {
        let earlier = accepted_tips(history.drop_last());
        match history.last() {
            Call::SendTip { signer, tip, transfer } => if tip_rejection(
                signer,
                tip.from,
                tip.to,
                tip.amount,
                tip.message,
                transfer,
            ) is None {
                earlier.push(tip)
            } else {
                earlier
            },
            Call::Withdraw { .. } => earlier,
        }
    }
}

/// After any history the log holds exactly the tips of the accepted
/// `send_tip` calls, in the order of the calls: as many tips as calls were
/// accepted.
pub proof fn lemma_log_holds_accepted_tips(history: Seq<Call>)
    ensures
        replay(history).tips == accepted_tips(history),
    decreases history.len(),
{
    if history.len() > 0 {
        lemma_log_holds_accepted_tips(history.drop_last());
    }
}

/// After any history the profile of every participant shows what the log
/// holds: the number of tips from and to the participant, and the sums of
/// their amounts.
pub proof fn lemma_profiles_match_log(history: Seq<Call>, user: Seq<char>)
    ensures
        replay(history).profile_matches_log(user),
    decreases history.len(),
{
    reveal(Seq::filter);
    if history.len() > 0 {
        let earlier = replay(history.drop_last());
        lemma_profiles_match_log(history.drop_last(), user);
        match history.last() {
            Call::SendTip { signer, tip, transfer } => {
                lemma_tip_keeps_profiles_matching(earlier, tip, user);
            },
            Call::Withdraw { .. } => {},
        }
    }
}

/// After any history every balance shows as received the sum of the tips that
/// the log has to its participant in its token.
pub proof fn lemma_balances_match_log(history: Seq<Call>, user: Seq<char>, token: Seq<char>)
    ensures
        replay(history).balance_matches_log(user, token),
    decreases history.len(),
{
    reveal(Seq::filter);
    if history.len() > 0 {
        let earlier = replay(history.drop_last());
        lemma_balances_match_log(history.drop_last(), user, token);
        match history.last() {
            Call::SendTip { signer, tip, transfer } => {
                lemma_tip_keeps_balances_matching(earlier, tip, user, token);
            },
            Call::Withdraw { .. } => {},
        }
    }
}

/// Reading twice with no write in between returns the same: where every call
/// made between two reads is refused, the records are the same at both, and so
/// is every balance, every profile read at the same moment, the tips of every
/// recipient and the number of tips.
pub proof fn lemma_reads_repeat(
    records: ContractView,
    calls: Seq<Call>,
    user: Seq<char>,
    token: Seq<char>,
    now: int,
)
    requires
        forall|i: int| 0 <= i < calls.len() ==> !(#[trigger] calls[i]).accepted_on(records),
    ensures
        run(records, calls) == records,
        balance_of(run(records, calls).balances, user, token) == balance_of(records.balances, user, token),
        profile_of(run(records, calls).profiles, user, now) == profile_of(records.profiles, user, now),
        tips_to(run(records, calls).tips, user) == tips_to(records.tips, user),
        run(records, calls).tips.len() == records.tips.len(),
    decreases calls.len(),
{
    if calls.len() > 0 {
        let earlier = calls.drop_last();
        assert forall|i: int| 0 <= i < earlier.len() implies !(#[trigger] earlier[i]).accepted_on(records) by {
            assert(earlier[i] == calls[i]);
        }
        lemma_reads_repeat(records, earlier, user, token, now);
        assert(!calls[calls.len() - 1].accepted_on(records));
    }
}

/// An accepted call leaves sound records sound.
pub proof fn lemma_call_keeps_sound(records: ContractView, call: Call)
    requires
        records.sound(),
    ensures
        call.apply(records).sound(),
{
    let after = call.apply(records);
    if call.accepted_on(records) {
        match call {
            Call::SendTip { signer, tip, transfer } => {
                assert forall|i: int| 0 <= i < after.tips.len() implies (#[trigger] after.tips[i]).valid() by {
                    if i < records.tips.len() {
                        assert(records.tips[i].valid());
                    }
                }
            },
            Call::Withdraw { signer, user, token, amount, transfer } => {},
        }
    }
}

/// After any history the records are sound: every logged tip is valid, and of
/// every balance what was received is what is available plus what was
/// withdrawn, neither of them negative.
pub proof fn lemma_replay_sound(history: Seq<Call>)
    ensures
        replay(history).sound(),
    decreases history.len(),
{
    if history.len() > 0 {
        lemma_replay_sound(history.drop_last());
        lemma_call_keeps_sound(replay(history.drop_last()), history.last());
    }
}

/// No call takes back what was recorded: the log only grows at its end, a
/// balance on record stays on record and shows no less as received or as
/// withdrawn, and a profile on record stays on record with the moment at which
/// it was first seen.
pub proof fn lemma_call_keeps_what_was_recorded(
    records: ContractView,
    call: Call,
    user: Seq<char>,
    token: Seq<char>,
)
    ensures
        records.tips.is_prefix_of(call.apply(records).tips),
        records.balances.contains_key((user, token)) ==> call.apply(records).balances.contains_key(
            (user, token),
        ),
        balance_of(call.apply(records).balances, user, token).total_received >= balance_of(
            records.balances,
            user,
            token,
        ).total_received,
        balance_of(call.apply(records).balances, user, token).withdrawn >= balance_of(
            records.balances,
            user,
            token,
        ).withdrawn,
        records.profiles.contains_key(user) ==> call.apply(records).profiles.contains_key(user)
            && call.apply(records).profiles[user].first_interaction == records.profiles[user].first_interaction,
{
}

} // verus!
