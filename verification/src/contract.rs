//! The engine itself: the operations that accept tips and withdrawals and
//! keep the log, the balances and the profiles in step.

use vstd::prelude::*;
use crate::address::Address;
use crate::balance::Balance;
use crate::error::TipError;
use crate::history::Call;
use crate::host::{
    Account, AccountView, CallerAuth, Event, EventView, TransferOrder, TransferOrderView, TransferOutcome,
};
use crate::ledger::{
    all_balanced, balance_of, deposited, paid_out, withdrawal_fault, BalanceLedger, BalanceMap,
};
use crate::profile::{
    all_valid, profile_of, received_recorded, sent_recorded, ProfileAggregator, ProfileMap, UserProfile,
};
use crate::tip::{check_content, tip_fault, Tip, TipView};
use crate::tip_log::{
    lemma_sum_push, lemma_tips_from_push, lemma_tips_to_in_push, lemma_tips_to_push, sum_of_amounts, tip_views,
    tips_from, tips_to, tips_to_in, TipLog,
};

verus! {

/// Why a tip is refused, if it is. The checks are made in this order: the
/// signature, the content of the tip, the transfer of the tokens.
pub open spec fn tip_rejection(
    signer: Seq<char>,
    from: Seq<char>,
    to: Seq<char>,
    amount: int,
    message: Seq<char>,
    transfer: TransferOutcome,
) -> Option<TipError> {
    if signer != from {
        Some(TipError::AuthorizationError)
    } else if tip_fault(from, to, amount, message) is Some {
        tip_fault(from, to, amount, message)
    } else if transfer == TransferOutcome::Rejected {
        Some(TipError::TransferFailure)
    } else {
        None
    }
}

/// Why a withdrawal is refused, if it is. The checks are made in this order:
/// the signature, the amount, the balance on record, the transfer of the
/// tokens.
pub open spec fn withdrawal_rejection(
    balances: BalanceMap,
    signer: Seq<char>,
    user: Seq<char>,
    token: Seq<char>,
    amount: int,
    transfer: TransferOutcome,
) -> Option<TipError> {
    if signer != user {
        Some(TipError::AuthorizationError)
    } else if amount <= 0 {
        Some(TipError::InvalidAmountError)
    } else if withdrawal_fault(balances, user, token, amount) is Some {
        withdrawal_fault(balances, user, token, amount)
    } else if transfer == TransferOutcome::Rejected {
        Some(TipError::TransferFailure)
    } else {
        None
    }
}

/// All the records of the engine, as a mathematical value.
pub struct ContractView {
    /// The accepted tips, oldest first.
    pub tips: Seq<TipView>,
    /// The balances on record.
    pub balances: BalanceMap,
    /// The profiles on record.
    pub profiles: ProfileMap,
}

impl ContractView {
    /// No record at all.
    pub open spec fn empty() -> ContractView {
        ContractView { tips: Seq::empty(), balances: Map::empty(), profiles: Map::empty() }
    }

    /// These records after `tip` has been accepted: the tip is logged, its
    /// amount is added to the recipient's balance, and it is counted in the
    /// profiles of sender and recipient.
    pub open spec fn with_tip(self, tip: TipView) -> ContractView {
        ContractView {
            tips: self.tips.push(tip),
            balances: deposited(self.balances, tip.to, tip.token, tip.amount),
            profiles: received_recorded(
                sent_recorded(self.profiles, tip.from, tip.amount, tip.timestamp),
                tip.to,
                tip.amount,
                tip.timestamp,
            ),
        }
    }

    /// These records after `amount` of the token has been paid out to `user`.
    pub open spec fn with_withdrawal(self, user: Seq<char>, token: Seq<char>, amount: int) -> ContractView {
        ContractView { balances: paid_out(self.balances, user, token, amount), ..self }
    }

    /// Whether every counter that the tip would raise can take it.
    pub open spec fn has_room_for(self, from: Seq<char>, to: Seq<char>, token: Seq<char>, amount: int) -> bool {
        &&& self.tips.len() < u32::MAX
        &&& balance_of(self.balances, to, token).total_received + amount <= i128::MAX
        &&& profile_of(self.profiles, from, 0).tips_sent < u32::MAX
        &&& profile_of(self.profiles, from, 0).total_sent + amount <= i128::MAX
        &&& profile_of(self.profiles, to, 0).tips_received < u32::MAX
        &&& profile_of(self.profiles, to, 0).total_received + amount <= i128::MAX
    }

    /// Whether the profile of `user` shows what the log holds: as many tips
    /// sent and received as the log has from and to `user`, and the sums of
    /// their amounts.
    pub open spec fn profile_matches_log(self, user: Seq<char>) -> bool {
        let profile = profile_of(self.profiles, user, 0);
        &&& profile.tips_sent == tips_from(self.tips, user).len()
        &&& profile.total_sent == sum_of_amounts(tips_from(self.tips, user))
        &&& profile.tips_received == tips_to(self.tips, user).len()
        &&& profile.total_received == sum_of_amounts(tips_to(self.tips, user))
    }

    /// Whether the balance of `user` in `token` shows as received the sum of
    /// the tips that the log has to `user` in `token`.
    pub open spec fn balance_matches_log(self, user: Seq<char>, token: Seq<char>) -> bool {
        balance_of(self.balances, user, token).total_received == sum_of_amounts(
            tips_to_in(self.tips, user, token),
        )
    }

    /// What holds of the records at all times: every tip in the log is valid,
    /// every balance is balanced, and every profile is valid.
    pub open spec fn sound(self) -> bool {
        &&& forall|i: int| 0 <= i < self.tips.len() ==> (#[trigger] self.tips[i]).valid()
        &&& all_balanced(self.balances)
        &&& all_valid(self.profiles)
    }
}

/// Accepting a tip keeps the profile of every participant in step with the
/// log.
pub proof fn lemma_tip_keeps_profiles_matching(records: ContractView, tip: TipView, user: Seq<char>)
    requires
        records.profile_matches_log(user),
    ensures
        records.with_tip(tip).profile_matches_log(user),
{
    lemma_tips_from_push(records.tips, tip, user);
    lemma_tips_to_push(records.tips, tip, user);
    lemma_sum_push(tips_from(records.tips, user), tip);
    lemma_sum_push(tips_to(records.tips, user), tip);
}

/// Accepting a tip keeps every balance in step with the log.
pub proof fn lemma_tip_keeps_balances_matching(
    records: ContractView,
    tip: TipView,
    user: Seq<char>,
    token: Seq<char>,
)
    requires
        records.balance_matches_log(user, token),
    ensures
        records.with_tip(tip).balance_matches_log(user, token),
{
    lemma_tips_to_in_push(records.tips, tip, user, token);
    lemma_sum_push(tips_to_in(records.tips, user, token), tip);
}

/// The engine: the tip log, the balance ledger and the profile aggregator,
/// changed together by `send_tip` and `withdraw`.
#[derive(Debug)]
pub struct MicrotipContract {
    log: TipLog,
    ledger: BalanceLedger,
    profiles: ProfileAggregator,
}

impl View for MicrotipContract {
    type V = ContractView;

    closed spec fn view(&self) -> ContractView {
        ContractView { tips: self.log@, balances: self.ledger@, profiles: self.profiles@ }
    }
}

impl MicrotipContract {
    /// The invariant of the engine: each of its three parts is well formed.
    pub closed spec fn wf(&self) -> bool {
        &&& self.log.wf()
        &&& self.ledger.wf()
        &&& self.profiles.wf()
    }

    /// The records of a well-formed engine are sound: in particular, for every
    /// balance, what was received is what is available plus what was
    /// withdrawn, and neither of the two is negative.
    pub proof fn lemma_sound(&self)
        requires
            self.wf(),
        ensures
            self@.sound(),
            self@.tips.len() <= u32::MAX,
    {
        self.ledger.lemma_all_balanced();
        self.profiles.lemma_all_valid();
    }

    /// The engine as it starts: without any record.
    pub fn init() -> (contract: MicrotipContract)
        ensures
            contract.wf(),
            contract@ == ContractView::empty(),
            forall|user: Seq<char>| contract@.profile_matches_log(user),
            forall|user: Seq<char>, token: Seq<char>| contract@.balance_matches_log(user, token),
    {
        let contract = MicrotipContract {
            log: TipLog::new(),
            ledger: BalanceLedger::new(),
            profiles: ProfileAggregator::new(),
        };
        proof {
            reveal(Seq::filter);
        }
        contract
    }

    /// The engine that holds these records.
    pub fn from_parts(
        log: TipLog,
        ledger: BalanceLedger,
        profiles: ProfileAggregator,
    ) -> (contract: MicrotipContract)
        requires
            log.wf(),
            ledger.wf(),
            profiles.wf(),
        ensures
            contract.wf(),
            contract@ == (ContractView { tips: log@, balances: ledger@, profiles: profiles@ }),
    {
        MicrotipContract { log, ledger, profiles }
    }

    /// The tip log of the engine.
    pub fn log(&self) -> (log: &TipLog)
        ensures
            log@ == self@.tips,
            self.wf() ==> log.wf(),
    {
        &self.log
    }

    /// The balance ledger of the engine.
    pub fn ledger(&self) -> (ledger: &BalanceLedger)
        ensures
            ledger@ == self@.balances,
            self.wf() ==> ledger.wf(),
    {
        &self.ledger
    }

    /// The profile aggregator of the engine.
    pub fn profiles(&self) -> (profiles: &ProfileAggregator)
        ensures
            profiles@ == self@.profiles,
            self.wf() ==> profiles.wf(),
    {
        &self.profiles
    }

    /// Prepares a tip: tells whether a tip with this content, signed as `auth`
    /// says, would be accepted, and if so, which transfer the host is to ask
    /// for before it calls `send_tip`: that of the amount from the sender into
    /// custody.
    pub fn prepare_tip(
        auth: &CallerAuth,
        from: &Address,
        to: &Address,
        token: &Address,
        amount: i128,
        message: &String,
    ) -> (result: Result<TransferOrder, TipError>)
        ensures
            match result {
                Ok(order) => {
                    &&& tip_rejection(
                        auth@,
                        from@,
                        to@,
                        amount as int,
                        message@,
                        TransferOutcome::Completed,
                    ) is None
                    &&& order@ == (TransferOrderView {
                        token: token@,
                        from: AccountView::Participant(from@),
                        to: AccountView::Custody,
                        amount: amount as int,
                    })
                },
                Err(e) => tip_rejection(auth@, from@, to@, amount as int, message@, TransferOutcome::Completed)
                    == Some(e),
            },
    {
        if !auth.authorizes(from) {
            return Err(TipError::AuthorizationError);
        }
        match check_content(from, to, amount, message) {
            Ok(()) => Ok(
                TransferOrder {
                    token: token.clone(),
                    from: Account::Participant(from.clone()),
                    to: Account::Custody,
                    amount,
                },
            ),
            Err(e) => Err(e),
        }
    }

    /// Tells whether every counter that a tip of `amount` of `token` from
    /// `from` to `to` would raise can take it.
    pub fn has_room_for(&self, from: &Address, to: &Address, token: &Address, amount: i128) -> (room: bool)
        requires
            self.wf(),
        ensures
            room == self@.has_room_for(from@, to@, token@, amount as int),
    {
        let received = match self.ledger.get(to, token) {
            Some(balance) => balance.total_received(),
            None => 0,
        };
        let sender = self.profiles.get_user_profile(from, 0);
        let recipient = self.profiles.get_user_profile(to, 0);
        let log_has_room = self.log.count() < u32::MAX;
        let balance_has_room = received.checked_add(amount).is_some();
        let sender_has_room = sender.tips_sent() < u32::MAX && sender.total_sent().checked_add(amount).is_some();
        let recipient_has_room = recipient.tips_received() < u32::MAX && recipient.total_received().checked_add(
            amount,
        ).is_some();
        log_has_room && balance_has_room && sender_has_room && recipient_has_room
    }

    /// Sends a tip of `amount` of `token` from `from` to `to`.
    ///
    /// `auth` says who signed the call, `transfer` what the transfer service
    /// answered when asked to move the amount from the sender into custody,
    /// `timestamp` what the clock shows and `tip_id` what the sequencer gave.
    ///
    /// An accepted tip is logged, added to the recipient's balance and counted
    /// in both profiles. Its identifier is returned, with the event that the
    /// host is to publish. A refused tip changes nothing.
    ///
    /// Where the tip is to be accepted, the counters that it raises must have
    /// room for it: `has_room_for` tells.
    ///
    /// The records change as `history::Call::apply` says of this call, so what
    /// `history` proves of every sequence of calls holds of the engine.
    pub fn send_tip(
        &mut self,
        auth: &CallerAuth,
        from: Address,
        to: Address,
        token: Address,
        amount: i128,
        message: String,
        transfer: TransferOutcome,
        timestamp: u64,
        tip_id: u64,
    ) -> (result: Result<(u64, Event), TipError>)
        requires
            old(self).wf(),
            tip_rejection(auth@, from@, to@, amount as int, message@, transfer) is None ==> old(
                self,
            )@.has_room_for(from@, to@, token@, amount as int),
        ensures
            final(self).wf(),
            match result {
                Ok((id, event)) => {
                    &&& id == tip_id
                    &&& event@ == (EventView::TipSent {
                        from: from@,
                        to: to@,
                        amount: amount as int,
                        timestamp: timestamp as int,
                    })
                    &&& tip_rejection(auth@, from@, to@, amount as int, message@, transfer) is None
                    &&& final(self)@ == old(self)@.with_tip(
                        TipView {
                            from: from@,
                            to: to@,
                            amount: amount as int,
                            message: message@,
                            timestamp: timestamp as int,
                            token: token@,
                        },
                    )
                },
                Err(e) => {
                    &&& tip_rejection(auth@, from@, to@, amount as int, message@, transfer) == Some(e)
                    &&& final(self)@ == old(self)@
                },
            },
            final(self)@ == (Call::SendTip {
                signer: auth@,
                tip: TipView {
                    from: from@,
                    to: to@,
                    amount: amount as int,
                    message: message@,
                    timestamp: timestamp as int,
                    token: token@,
                },
                transfer,
            }).apply(old(self)@),
            forall|user: Seq<char>|
                old(self)@.profile_matches_log(user) ==> #[trigger] final(self)@.profile_matches_log(user),
            forall|user: Seq<char>, asset: Seq<char>|
                old(self)@.balance_matches_log(user, asset) ==> #[trigger] final(self)@.balance_matches_log(
                    user,
                    asset,
                ),
    {
        if !auth.authorizes(&from) {
            return Err(TipError::AuthorizationError);
        }
        let tip = match Tip::new(from, to, amount, message, timestamp, token) {
            Ok(tip) => tip,
            Err(e) => {
                return Err(e);
            },
        };
        if transfer == TransferOutcome::Rejected {
            return Err(TipError::TransferFailure);
        }
        let event = Event::TipSent {
            from: tip.sender().clone(),
            to: tip.recipient().clone(),
            amount,
            timestamp,
        };
        self.ledger.deposit(tip.recipient(), tip.token(), amount);
        self.profiles.record_sent(tip.sender(), amount, timestamp);
        self.profiles.record_received(tip.recipient(), amount, timestamp);
        self.log.append(tip);
        proof {
            let before = old(self)@;
            let after = self@;
            assert forall|user: Seq<char>| before.profile_matches_log(user) implies #[trigger] after.profile_matches_log(
                user,
            ) by {
                lemma_tip_keeps_profiles_matching(before, tip@, user);
            }
            assert forall|user: Seq<char>, asset: Seq<char>| before.balance_matches_log(user, asset) implies
                #[trigger] after.balance_matches_log(user, asset) by {
                lemma_tip_keeps_balances_matching(before, tip@, user, asset);
            }
        }
        Ok((tip_id, event))
    }

    /// Tells why a withdrawal would be refused before the tokens are moved, if
    /// it would.
    fn check_withdrawal(
        &self,
        auth: &CallerAuth,
        user: &Address,
        token: &Address,
        amount: i128,
    ) -> (result: Result<(), TipError>)
        requires
            self.wf(),
        ensures
            match result {
                Ok(()) => withdrawal_rejection(
                    self@.balances,
                    auth@,
                    user@,
                    token@,
                    amount as int,
                    TransferOutcome::Completed,
                ) is None,
                Err(e) => withdrawal_rejection(
                    self@.balances,
                    auth@,
                    user@,
                    token@,
                    amount as int,
                    TransferOutcome::Completed,
                ) == Some(e),
            },
    {
        if !auth.authorizes(user) {
            return Err(TipError::AuthorizationError);
        }
        if amount <= 0 {
            return Err(TipError::InvalidAmountError);
        }
        match self.ledger.get(user, token) {
            None => Err(TipError::NoBalanceError),
            Some(balance) => {
                if balance.available() < amount {
                    Err(TipError::InsufficientBalanceError)
                } else {
                    Ok(())
                }
            },
        }
    }

    /// Prepares a withdrawal: tells whether a withdrawal of `amount` of
    /// `token` by `user`, signed as `auth` says, would be accepted, and if so,
    /// which transfer the host is to ask for before it calls `withdraw`: that
    /// of the amount out of custody to the user.
    pub fn prepare_withdrawal(
        &self,
        auth: &CallerAuth,
        user: &Address,
        token: &Address,
        amount: i128,
    ) -> (result: Result<TransferOrder, TipError>)
        requires
            self.wf(),
        ensures
            match result {
                Ok(order) => {
                    &&& withdrawal_rejection(
                        self@.balances,
                        auth@,
                        user@,
                        token@,
                        amount as int,
                        TransferOutcome::Completed,
                    ) is None
                    &&& order@ == (TransferOrderView {
                        token: token@,
                        from: AccountView::Custody,
                        to: AccountView::Participant(user@),
                        amount: amount as int,
                    })
                },
                Err(e) => withdrawal_rejection(
                    self@.balances,
                    auth@,
                    user@,
                    token@,
                    amount as int,
                    TransferOutcome::Completed,
                ) == Some(e),
            },
    {
        match self.check_withdrawal(auth, user, token, amount) {
            Ok(()) => Ok(
                TransferOrder {
                    token: token.clone(),
                    from: Account::Custody,
                    to: Account::Participant(user.clone()),
                    amount,
                },
            ),
            Err(e) => Err(e),
        }
    }

    /// Withdraws `amount` of `token` from the balance of `user`.
    ///
    /// `auth` says who signed the call, `transfer` what the transfer service
    /// answered when asked to move the amount out of custody to the user, and
    /// `timestamp` what the clock shows.
    ///
    /// An accepted withdrawal moves the amount from the available to the
    /// withdrawn part of the balance, and the event that the host is to
    /// publish is returned. A refused one changes nothing.
    ///
    /// The records change as `history::Call::apply` says of this call.
    pub fn withdraw(
        &mut self,
        auth: &CallerAuth,
        user: Address,
        token: Address,
        amount: i128,
        transfer: TransferOutcome,
        timestamp: u64,
    ) -> (result: Result<Event, TipError>)
        requires
            old(self).wf(),
        ensures
            final(self).wf(),
            match result {
                Ok(event) => {
                    &&& event@ == (EventView::Withdrawal {
                        user: user@,
                        token: token@,
                        amount: amount as int,
                        timestamp: timestamp as int,
                    })
                    &&& withdrawal_rejection(
                        old(self)@.balances,
                        auth@,
                        user@,
                        token@,
                        amount as int,
                        transfer,
                    ) is None
                    &&& final(self)@ == old(self)@.with_withdrawal(user@, token@, amount as int)
                },
                Err(e) => {
                    &&& withdrawal_rejection(
                        old(self)@.balances,
                        auth@,
                        user@,
                        token@,
                        amount as int,
                        transfer,
                    ) == Some(e)
                    &&& final(self)@ == old(self)@
                },
            },
            final(self)@ == (Call::Withdraw {
                signer: auth@,
                user: user@,
                token: token@,
                amount: amount as int,
                transfer,
            }).apply(old(self)@),
            forall|who: Seq<char>|
                old(self)@.profile_matches_log(who) ==> #[trigger] final(self)@.profile_matches_log(who),
            forall|who: Seq<char>, asset: Seq<char>|
                old(self)@.balance_matches_log(who, asset) ==> #[trigger] final(self)@.balance_matches_log(
                    who,
                    asset,
                ),
    {
        match self.check_withdrawal(auth, &user, &token, amount) {
            Ok(()) => {},
            Err(e) => {
                return Err(e);
            },
        }
        if transfer == TransferOutcome::Rejected {
            return Err(TipError::TransferFailure);
        }
        match self.ledger.withdraw(&user, &token, amount) {
            Ok(()) => Ok(Event::Withdrawal { user, token, amount, timestamp }),
            Err(e) => Err(e),
        }
    }

    /// The balance of `user` in `token`: the one on record, or a zero balance
    /// where there is none. Nothing is recorded.
    pub fn get_balance(&self, user: &Address, token: &Address) -> (balance: Balance)
        requires
            self.wf(),
        ensures
            balance.wf(),
            balance@ == balance_of(self@.balances, user@, token@),
    {
        self.ledger.get_balance(user, token)
    }

    /// The profile of `user`: the one on record, or a fresh one, first seen at
    /// `now`, where there is none. Nothing is recorded.
    pub fn get_user_profile(&self, user: &Address, now: u64) -> (profile: UserProfile)
        requires
            self.wf(),
        ensures
            profile.wf(),
            profile@ == profile_of(self@.profiles, user@, now as int),
    {
        self.profiles.get_user_profile(user, now)
    }

    /// The tips that `user` has received, oldest first.
    pub fn get_tips_for_user(&self, user: &Address) -> (tips: Vec<Tip>)
        ensures
            tip_views(tips@) == tips_to(self@.tips, user@),
    {
        self.log.tips_for(user)
    }

    /// The number of tips that were ever accepted.
    pub fn get_total_tips_count(&self) -> (count: u32)
        requires
            self.wf(),
        ensures
            count == self@.tips.len(),
    {
        self.log.count()
    }
}

} // verus!
