//! The profile aggregator: one activity profile per participant.

use vstd::prelude::*;
use crate::address::Address;

verus! {

/// A profile as a mathematical value.
pub struct UserProfileView {
    pub tips_sent: int,
    pub tips_received: int,
    pub total_sent: int,
    pub total_received: int,
    pub first_interaction: int,
}

impl UserProfileView {
    /// The profile of a participant who is first seen at `now`.
    pub open spec fn fresh(now: int) -> UserProfileView {
        UserProfileView {
            tips_sent: 0,
            tips_received: 0,
            total_sent: 0,
            total_received: 0,
            first_interaction: now,
        }
    }

    /// This profile after the participant has sent one more tip of `amount`.
    pub open spec fn record_sent(self, amount: int) -> UserProfileView {
        UserProfileView { tips_sent: self.tips_sent + 1, total_sent: self.total_sent + amount, ..self }
    }

    /// This profile after the participant has received one more tip of
    /// `amount`.
    pub open spec fn record_received(self, amount: int) -> UserProfileView {
        UserProfileView {
            tips_received: self.tips_received + 1,
            total_received: self.total_received + amount,
            ..self
        }
    }

    /// Neither total is negative.
    pub open spec fn valid(self) -> bool {
        self.total_sent >= 0 && self.total_received >= 0
    }
}

/// What one participant has sent and received, over all tokens together.
#[derive(Clone, Copy, Debug, PartialEq, Eq, Structural)]
pub struct UserProfile {
    tips_sent: u32,
    tips_received: u32,
    total_sent: i128,
    total_received: i128,
    first_interaction: u64,
}

impl View for UserProfile {
    type V = UserProfileView;

    closed spec fn view(&self) -> UserProfileView {
        UserProfileView {
            tips_sent: self.tips_sent as int,
            tips_received: self.tips_received as int,
            total_sent: self.total_sent as int,
            total_received: self.total_received as int,
            first_interaction: self.first_interaction as int,
        }
    }
}

impl UserProfile {
    /// The invariant of every profile: neither total is negative.
    pub open spec fn wf(&self) -> bool {
        self@.valid()
    }

    /// The profile of a participant who is first seen at `now`.
    pub fn new(now: u64) -> (profile: UserProfile)
        ensures
            profile.wf(),
            profile@ == UserProfileView::fresh(now as int),
    {
        UserProfile { tips_sent: 0, tips_received: 0, total_sent: 0, total_received: 0, first_interaction: now }
    }

    /// The profile with these counters, if neither total is negative.
    pub fn from_parts(
        tips_sent: u32,
        tips_received: u32,
        total_sent: i128,
        total_received: i128,
        first_interaction: u64,
    ) -> (result: Option<UserProfile>)
        ensures
            result is Some <==> total_sent >= 0 && total_received >= 0,
            result matches Some(profile) ==> {
                &&& profile.wf()
                &&& profile@ == (UserProfileView {
                    tips_sent: tips_sent as int,
                    tips_received: tips_received as int,
                    total_sent: total_sent as int,
                    total_received: total_received as int,
                    first_interaction: first_interaction as int,
                })
            },
    {
        if total_sent >= 0 && total_received >= 0 {
            Some(UserProfile { tips_sent, tips_received, total_sent, total_received, first_interaction })
        } else {
            None
        }
    }

    /// Counts one more tip sent, of `amount`. The caller vouches that the
    /// amount is positive.
    pub fn record_sent(&mut self, amount: i128)
        requires
            old(self).wf(),
            amount > 0,
            old(self)@.tips_sent < u32::MAX,
            old(self)@.total_sent + amount <= i128::MAX,
        ensures
            final(self).wf(),
            final(self)@ == old(self)@.record_sent(amount as int),
    {
        self.tips_sent = self.tips_sent + 1;
        self.total_sent = self.total_sent + amount;
    }

    /// Counts one more tip received, of `amount`. The caller vouches that the
    /// amount is positive.
    pub fn record_received(&mut self, amount: i128)
        requires
            old(self).wf(),
            amount > 0,
            old(self)@.tips_received < u32::MAX,
            old(self)@.total_received + amount <= i128::MAX,
        ensures
            final(self).wf(),
            final(self)@ == old(self)@.record_received(amount as int),
    {
        self.tips_received = self.tips_received + 1;
        self.total_received = self.total_received + amount;
    }

    /// How many tips the participant has sent.
    pub fn tips_sent(&self) -> (count: u32)
        ensures
            count == self@.tips_sent,
    {
        self.tips_sent
    }

    /// How many tips the participant has received.
    pub fn tips_received(&self) -> (count: u32)
        ensures
            count == self@.tips_received,
    {
        self.tips_received
    }

    /// The sum of the tips sent, over all tokens.
    pub fn total_sent(&self) -> (amount: i128)
        ensures
            amount == self@.total_sent,
    {
        self.total_sent
    }

    /// The sum of the tips received, over all tokens.
    pub fn total_received(&self) -> (amount: i128)
        ensures
            amount == self@.total_received,
    {
        self.total_received
    }

    /// When the participant was first seen, in seconds.
    pub fn first_interaction(&self) -> (timestamp: u64)
        ensures
            timestamp == self@.first_interaction,
    {
        self.first_interaction
    }
}

/// The profiles on record, as a mathematical value: each participant that has
/// a record, with the profile.
pub type ProfileMap = Map<Seq<char>, UserProfileView>;

/// The profile that the records show for a participant at `now`: the one on
/// record, or a fresh one where there is none.
pub open spec fn profile_of(profiles: ProfileMap, user: Seq<char>, now: int) -> UserProfileView {
    if profiles.contains_key(user) {
        profiles[user]
    } else {
        UserProfileView::fresh(now)
    }
}

/// The records after the participant has sent one tip of `amount` at `now`.
pub open spec fn sent_recorded(profiles: ProfileMap, user: Seq<char>, amount: int, now: int) -> ProfileMap {
    profiles.insert(user, profile_of(profiles, user, now).record_sent(amount))
}

/// The records after the participant has received one tip of `amount` at
/// `now`.
pub open spec fn received_recorded(profiles: ProfileMap, user: Seq<char>, amount: int, now: int) -> ProfileMap {
    profiles.insert(user, profile_of(profiles, user, now).record_received(amount))
}

/// Every profile on record is valid.
pub open spec fn all_valid(profiles: ProfileMap) -> bool {
    forall|user: Seq<char>| #[trigger] profiles.contains_key(user) ==> profiles[user].valid()
}

/// One record of the aggregator: a participant with the profile.
#[derive(Debug)]
struct ProfileEntry {
    owner: Address,
    profile: UserProfile,
}

/// The profile aggregator. It holds at most one profile for each participant.
#[derive(Debug)]
pub struct ProfileAggregator {
    entries: Vec<ProfileEntry>,
}

impl View for ProfileAggregator {
    type V = ProfileMap;

    closed spec fn view(&self) -> ProfileMap {
        Map::new(
            |user: Seq<char>| exists|i: int| self.holds(i, user),
            |user: Seq<char>| self.entries[choose|i: int| self.holds(i, user)].profile@,
        )
    }
}

impl ProfileAggregator {
    /// The participant of the record at `i`.
    spec fn key_at(&self, i: int) -> Seq<char> {
        self.entries[i].owner@
    }

    /// Whether the record at `i` is that of `user`.
    spec fn holds(&self, i: int, user: Seq<char>) -> bool {
        0 <= i < self.entries.len() && self.key_at(i) == user
    }

    /// The invariant of the aggregator: every profile in it is valid, and no
    /// participant has two records.
    pub closed spec fn wf(&self) -> bool {
        &&& forall|i: int| 0 <= i < self.entries.len() ==> (#[trigger] self.entries[i]).profile.wf()
        &&& forall|i: int, j: int|
            0 <= i < j < self.entries.len() ==> #[trigger] self.key_at(i) != #[trigger] self.key_at(j)
    }

    /// The record at `i` is the one that the view shows for its key.
    proof fn lemma_entry(&self, i: int)
        requires
            self.wf(),
            0 <= i < self.entries.len(),
        ensures
            self@.contains_key(self.key_at(i)),
            self@[self.key_at(i)] == self.entries[i].profile@,
    {
        let user = self.key_at(i);
        assert(self.holds(i, user));
        let j = choose|j: int| self.holds(j, user);
        assert(self.holds(j, user));
        assert(i == j) by {
            if i < j {
                assert(self.key_at(i) != self.key_at(j));
            } else if j < i {
                assert(self.key_at(j) != self.key_at(i));
            }
        }
    }

    /// In a well-formed aggregator every profile on record is valid.
    pub proof fn lemma_all_valid(&self)
        requires
            self.wf(),
        ensures
            all_valid(self@),
    {
        assert forall|user: Seq<char>| #[trigger] self@.contains_key(user) implies self@[user].valid() by {
            let i = choose|i: int| self.holds(i, user);
            assert(self.holds(i, user));
            self.lemma_entry(i);
            assert(self.entries[i].profile.wf());
        }
    }

    /// Changing the profile of the record at `i` changes the view at its key and
    /// nowhere else.
    proof fn lemma_updated(&self, before: &ProfileAggregator, i: int)
        requires
            before.wf(),
            0 <= i < before.entries.len(),
            self.entries.len() == before.entries.len(),
            forall|j: int| 0 <= j < before.entries.len() && j != i ==> self.entries[j] == before.entries[j],
            self.key_at(i) == before.key_at(i),
            self.entries[i].profile.wf(),
        ensures
            self.wf(),
            self@ == before@.insert(before.key_at(i), self.entries[i].profile@),
    {
        assert forall|j: int| 0 <= j < self.entries.len() implies self.key_at(j) == before.key_at(j) by {}
        assert forall|j: int| 0 <= j < self.entries.len() implies (#[trigger] self.entries[j]).profile.wf() by {
            if j != i {
                assert(before.entries[j].profile.wf());
            }
        }
        assert forall|j: int, k: int| 0 <= j < k < self.entries.len() implies #[trigger] self.key_at(j)
            != #[trigger] self.key_at(k) by {
            assert(before.key_at(j) != before.key_at(k));
        }
        let after = before@.insert(before.key_at(i), self.entries[i].profile@);
        assert forall|user: Seq<char>| self@.contains_key(user) <==> after.contains_key(user) by {
            if self@.contains_key(user) {
                let j = choose|j: int| self.holds(j, user);
                assert(before.holds(j, user));
            }
            if before@.contains_key(user) {
                let j = choose|j: int| before.holds(j, user);
                assert(self.holds(j, user));
            }
            if user == before.key_at(i) {
                assert(self.holds(i, user));
            }
        }
        assert forall|user: Seq<char>| self@.contains_key(user) implies self@[user] == after[user] by {
            let j = choose|j: int| self.holds(j, user);
            assert(self.holds(j, user));
            self.lemma_entry(j);
            before.lemma_entry(j);
        }
        assert(self@ =~= after);
    }

    /// Adding a record for a key that had none adds it to the view and changes
    /// nothing else.
    proof fn lemma_pushed(&self, before: &ProfileAggregator, entry: ProfileEntry)
        requires
            before.wf(),
            self.entries@ == before.entries@.push(entry),
            entry.profile.wf(),
            !before@.contains_key(entry.owner@),
        ensures
            self.wf(),
            self@ == before@.insert(entry.owner@, entry.profile@),
    {
        let n = before.entries.len() as int;
        let new_key = entry.owner@;
        assert forall|j: int| 0 <= j < n implies self.key_at(j) == before.key_at(j) && self.entries[j]
            == before.entries[j] by {}
        assert(self.key_at(n) == new_key);
        assert forall|j: int| 0 <= j < self.entries.len() implies (#[trigger] self.entries[j]).profile.wf() by {
            if j < n {
                assert(before.entries[j].profile.wf());
            }
        }
        assert forall|j: int, k: int| 0 <= j < k < self.entries.len() implies #[trigger] self.key_at(j)
            != #[trigger] self.key_at(k) by {
            if k < n {
                assert(before.key_at(j) != before.key_at(k));
            } else {
                assert(before.holds(j, before.key_at(j)));
            }
        }
        let after = before@.insert(new_key, entry.profile@);
        assert forall|user: Seq<char>| self@.contains_key(user) <==> after.contains_key(user) by {
            if self@.contains_key(user) {
                let j = choose|j: int| self.holds(j, user);
                if j < n {
                    assert(before.holds(j, user));
                }
            }
            if before@.contains_key(user) {
                let j = choose|j: int| before.holds(j, user);
                assert(self.holds(j, user));
            }
            if user == new_key {
                assert(self.holds(n, user));
            }
        }
        assert forall|user: Seq<char>| self@.contains_key(user) implies self@[user] == after[user] by {
            let j = choose|j: int| self.holds(j, user);
            assert(self.holds(j, user));
            self.lemma_entry(j);
            if j < n {
                before.lemma_entry(j);
            }
        }
        assert(self@ =~= after);
    }

    /// The aggregator without any record.
    pub fn new() -> (profiles: ProfileAggregator)
        ensures
            profiles.wf(),
            profiles@ == Map::<Seq<char>, UserProfileView>::empty(),
    {
        let profiles = ProfileAggregator { entries: Vec::new() };
        assert(profiles@ =~= Map::<Seq<char>, UserProfileView>::empty());
        profiles
    }

    /// Where the record of the participant is, if there is one.
    fn find(&self, user: &Address) -> (found: Option<usize>)
        requires
            self.wf(),
        ensures
            match found {
                Some(i) => {
                    &&& self.holds(i as int, user@)
                    &&& self@.contains_key(user@)
                    &&& self@[user@] == self.entries[i as int].profile@
                },
                None => !self@.contains_key(user@),
            },
    {
        let mut i: usize = 0;
        while i < self.entries.len()
            invariant
                self.wf(),
                i <= self.entries.len(),
                forall|j: int| 0 <= j < i ==> !self.holds(j, user@),
            decreases self.entries.len() - i,
        {
            if self.entries[i].owner.same(user) {
                proof {
                    self.lemma_entry(i as int);
                }
                return Some(i);
            }
            i = i + 1;
        }
        None
    }

    /// The profile on record for the participant, if there is one.
    pub fn get(&self, user: &Address) -> (found: Option<UserProfile>)
        requires
            self.wf(),
        ensures
            match found {
                Some(profile) => {
                    &&& self@.contains_key(user@)
                    &&& profile@ == self@[user@]
                    &&& profile.wf()
                },
                None => !self@.contains_key(user@),
            },
    {
        match self.find(user) {
            Some(i) => Some(self.entries[i].profile),
            None => None,
        }
    }

    /// The profile of the participant: the one on record, or a fresh one,
    /// first seen at `now`, where there is none. Nothing is recorded.
    pub fn get_user_profile(&self, user: &Address, now: u64) -> (profile: UserProfile)
        requires
            self.wf(),
        ensures
            profile.wf(),
            profile@ == profile_of(self@, user@, now as int),
    {
        match self.find(user) {
            Some(i) => self.entries[i].profile,
            None => UserProfile::new(now),
        }
    }

    /// Puts `profile` on record for the participant, in place of the record
    /// that the participant had, if any.
    pub fn put(&mut self, user: Address, profile: UserProfile)
        requires
            old(self).wf(),
            profile.wf(),
        ensures
            final(self).wf(),
            final(self)@ == old(self)@.insert(user@, profile@),
    {
        let ghost before = *self;
        match self.find(&user) {
            Some(i) => {
                self.entries[i].profile = profile;
                proof {
                    self.lemma_updated(&before, i as int);
                }
            },
            None => {
                let entry = ProfileEntry { owner: user, profile };
                self.entries.push(entry);
                proof {
                    self.lemma_pushed(&before, entry);
                }
            },
        }
    }

    /// Counts one more tip sent by the participant, of `amount`, starting from
    /// a fresh profile, first seen at `now`, where the participant has none.
    /// The caller vouches that the amount is positive.
    pub fn record_sent(&mut self, user: &Address, amount: i128, now: u64)
        requires
            old(self).wf(),
            amount > 0,
            profile_of(old(self)@, user@, now as int).tips_sent < u32::MAX,
            profile_of(old(self)@, user@, now as int).total_sent + amount <= i128::MAX,
        ensures
            final(self).wf(),
            final(self)@ == sent_recorded(old(self)@, user@, amount as int, now as int),
    {
        let ghost before = *self;
        match self.find(user) {
            Some(i) => {
                self.entries[i].profile.record_sent(amount);
                proof {
                    self.lemma_updated(&before, i as int);
                }
            },
            None => {
                let mut profile = UserProfile::new(now);
                profile.record_sent(amount);
                let entry = ProfileEntry { owner: user.clone(), profile };
                self.entries.push(entry);
                proof {
                    self.lemma_pushed(&before, entry);
                }
            },
        }
    }

    /// Counts one more tip received by the participant, of `amount`, starting
    /// from a fresh profile, first seen at `now`, where the participant has
    /// none. The caller vouches that the amount is positive.
    pub fn record_received(&mut self, user: &Address, amount: i128, now: u64)
        requires
            old(self).wf(),
            amount > 0,
            profile_of(old(self)@, user@, now as int).tips_received < u32::MAX,
            profile_of(old(self)@, user@, now as int).total_received + amount <= i128::MAX,
        ensures
            final(self).wf(),
            final(self)@ == received_recorded(old(self)@, user@, amount as int, now as int),
    {
        let ghost before = *self;
        match self.find(user) {
            Some(i) => {
                self.entries[i].profile.record_received(amount);
                proof {
                    self.lemma_updated(&before, i as int);
                }
            },
            None => {
                let mut profile = UserProfile::new(now);
                profile.record_received(amount);
                let entry = ProfileEntry { owner: user.clone(), profile };
                self.entries.push(entry);
                proof {
                    self.lemma_pushed(&before, entry);
                }
            },
        }
    }
}

} // verus!
