//! The balance ledger: one balance per participant and token.

use vstd::prelude::*;
use crate::address::Address;
use crate::balance::{Balance, BalanceView};
use crate::error::TipError;

verus! {

/// The balances on record, as a mathematical value: each pair of a participant
/// and a token that has a record, with its balance.
pub type BalanceMap = Map<(Seq<char>, Seq<char>), BalanceView>;

/// The balance that the records show for a participant in a token: the one on
/// record, or zero where there is none.
pub open spec fn balance_of(balances: BalanceMap, user: Seq<char>, token: Seq<char>) -> BalanceView {
    if balances.contains_key((user, token)) {
        balances[(user, token)]
    } else {
        BalanceView::zero(token)
    }
}

/// Every balance on record is balanced and is kept in the token it is filed
/// under.
pub open spec fn all_balanced(balances: BalanceMap) -> bool {
    forall|key: (Seq<char>, Seq<char>)| #[trigger]
        balances.contains_key(key) ==> balances[key].balanced() && balances[key].token == key.1
}

/// The records after the participant has received `amount` of the token.
pub open spec fn deposited(balances: BalanceMap, user: Seq<char>, token: Seq<char>, amount: int) -> BalanceMap {
    balances.insert((user, token), balance_of(balances, user, token).deposit(amount))
}

/// The records after `amount` of the token has been paid out to the
/// participant.
pub open spec fn paid_out(balances: BalanceMap, user: Seq<char>, token: Seq<char>, amount: int) -> BalanceMap {
    balances.insert((user, token), balance_of(balances, user, token).withdraw(amount))
}

/// Why the ledger refuses to pay `amount` of the token out to the participant,
/// if it does: there is no record, or the record has too little available.
pub open spec fn withdrawal_fault(
    balances: BalanceMap,
    user: Seq<char>,
    token: Seq<char>,
    amount: int,
) -> Option<TipError> {
    if !balances.contains_key((user, token)) {
        Some(TipError::NoBalanceError)
    } else if balances[(user, token)].available < amount {
        Some(TipError::InsufficientBalanceError)
    } else {
        None
    }
}

/// One record of the ledger: a participant with the balance in one token.
#[derive(Debug)]
struct BalanceEntry {
    owner: Address,
    balance: Balance,
}

/// The balance ledger. It holds at most one balance for each pair of a
/// participant and a token.
#[derive(Debug)]
pub struct BalanceLedger {
    entries: Vec<BalanceEntry>,
}

impl View for BalanceLedger {
    type V = BalanceMap;

    closed spec fn view(&self) -> BalanceMap {
        Map::new(
            |key: (Seq<char>, Seq<char>)| exists|i: int| self.holds(i, key),
            |key: (Seq<char>, Seq<char>)| self.entries[choose|i: int| self.holds(i, key)].balance@,
        )
    }
}

impl BalanceLedger {
    /// The participant and the token of the record at `i`.
    spec fn key_at(&self, i: int) -> (Seq<char>, Seq<char>) {
        (self.entries[i].owner@, self.entries[i].balance@.token)
    }

    /// Whether the record at `i` is that of `key`.
    spec fn holds(&self, i: int, key: (Seq<char>, Seq<char>)) -> bool {
        0 <= i < self.entries.len() && self.key_at(i) == key
    }

    /// The invariant of the ledger: every balance in it is balanced, and no
    /// pair of a participant and a token has two records.
    pub closed spec fn wf(&self) -> bool {
        &&& forall|i: int| 0 <= i < self.entries.len() ==> (#[trigger] self.entries[i]).balance.wf()
        &&& forall|i: int, j: int|
            0 <= i < j < self.entries.len() ==> #[trigger] self.key_at(i) != #[trigger] self.key_at(j)
    }

    /// The record at `i` is the one that the view shows for its key.
    proof fn lemma_entry(&self, i: int)
        requires
            self.wf(),
            0 <= i < self.entries.len(),
        ensures
            self@.contains_key(self.key_at(i)),
            self@[self.key_at(i)] == self.entries[i].balance@,
    {
        let key = self.key_at(i);
        assert(self.holds(i, key));
        let j = choose|j: int| self.holds(j, key);
        assert(self.holds(j, key));
        assert(i == j) by {
            if i < j {
                assert(self.key_at(i) != self.key_at(j));
            } else if j < i {
                assert(self.key_at(j) != self.key_at(i));
            }
        }
    }

    /// In a well-formed ledger every balance on record is balanced.
    pub proof fn lemma_all_balanced(&self)
        requires
            self.wf(),
        ensures
            all_balanced(self@),
    {
        assert forall|key: (Seq<char>, Seq<char>)| #[trigger] self@.contains_key(key) implies self@[key].balanced()
            && self@[key].token == key.1 by {
            let i = choose|i: int| self.holds(i, key);
            assert(self.holds(i, key));
            self.lemma_entry(i);
            assert(self.entries[i].balance.wf());
        }
    }

    /// Changing the balance of the record at `i` changes the view at its key and
    /// nowhere else.
    proof fn lemma_updated(&self, before: &BalanceLedger, i: int)
        requires
            before.wf(),
            0 <= i < before.entries.len(),
            self.entries.len() == before.entries.len(),
            forall|j: int| 0 <= j < before.entries.len() && j != i ==> self.entries[j] == before.entries[j],
            self.key_at(i) == before.key_at(i),
            self.entries[i].balance.wf(),
        ensures
            self.wf(),
            self@ == before@.insert(before.key_at(i), self.entries[i].balance@),
    {
        assert forall|j: int| 0 <= j < self.entries.len() implies self.key_at(j) == before.key_at(j) by {}
        assert forall|j: int| 0 <= j < self.entries.len() implies (#[trigger] self.entries[j]).balance.wf() by {
            if j != i {
                assert(before.entries[j].balance.wf());
            }
        }
        assert forall|j: int, k: int| 0 <= j < k < self.entries.len() implies #[trigger] self.key_at(j)
            != #[trigger] self.key_at(k) by {
            assert(before.key_at(j) != before.key_at(k));
        }
        let after = before@.insert(before.key_at(i), self.entries[i].balance@);
        assert forall|key: (Seq<char>, Seq<char>)| self@.contains_key(key) <==> after.contains_key(key) by {
            if self@.contains_key(key) {
                let j = choose|j: int| self.holds(j, key);
                assert(before.holds(j, key));
            }
            if before@.contains_key(key) {
                let j = choose|j: int| before.holds(j, key);
                assert(self.holds(j, key));
            }
            if key == before.key_at(i) {
                assert(self.holds(i, key));
            }
        }
        assert forall|key: (Seq<char>, Seq<char>)| self@.contains_key(key) implies self@[key] == after[key] by {
            let j = choose|j: int| self.holds(j, key);
            assert(self.holds(j, key));
            self.lemma_entry(j);
            before.lemma_entry(j);
        }
        assert(self@ =~= after);
    }

    /// Adding a record for a key that had none adds it to the view and changes
    /// nothing else.
    proof fn lemma_pushed(&self, before: &BalanceLedger, entry: BalanceEntry)
        requires
            before.wf(),
            self.entries@ == before.entries@.push(entry),
            entry.balance.wf(),
            !before@.contains_key((entry.owner@, entry.balance@.token)),
        ensures
            self.wf(),
            self@ == before@.insert((entry.owner@, entry.balance@.token), entry.balance@),
    {
        let n = before.entries.len() as int;
        let new_key = (entry.owner@, entry.balance@.token);
        assert forall|j: int| 0 <= j < n implies self.key_at(j) == before.key_at(j) && self.entries[j]
            == before.entries[j] by {}
        assert(self.key_at(n) == new_key);
        assert forall|j: int| 0 <= j < self.entries.len() implies (#[trigger] self.entries[j]).balance.wf() by {
            if j < n {
                assert(before.entries[j].balance.wf());
            }
        }
        assert forall|j: int, k: int| 0 <= j < k < self.entries.len() implies #[trigger] self.key_at(j)
            != #[trigger] self.key_at(k) by {
            if k < n {
                assert(before.key_at(j) != before.key_at(k));
            } else {
                assert(before.holds(j, before.key_at(j)));
            }
        }
        let after = before@.insert(new_key, entry.balance@);
        assert forall|key: (Seq<char>, Seq<char>)| self@.contains_key(key) <==> after.contains_key(key) by {
            if self@.contains_key(key) {
                let j = choose|j: int| self.holds(j, key);
                if j < n {
                    assert(before.holds(j, key));
                }
            }
            if before@.contains_key(key) {
                let j = choose|j: int| before.holds(j, key);
                assert(self.holds(j, key));
            }
            if key == new_key {
                assert(self.holds(n, key));
            }
        }
        assert forall|key: (Seq<char>, Seq<char>)| self@.contains_key(key) implies self@[key] == after[key] by {
            let j = choose|j: int| self.holds(j, key);
            assert(self.holds(j, key));
            self.lemma_entry(j);
            if j < n {
                before.lemma_entry(j);
            }
        }
        assert(self@ =~= after);
    }

    /// The ledger without any record.
    pub fn new() -> (ledger: BalanceLedger)
        ensures
            ledger.wf(),
            ledger@ == Map::<(Seq<char>, Seq<char>), BalanceView>::empty(),
    {
        let ledger = BalanceLedger { entries: Vec::new() };
        assert(ledger@ =~= Map::<(Seq<char>, Seq<char>), BalanceView>::empty());
        ledger
    }

    /// Where the record of the participant in the token is, if there is one.
    fn find(&self, user: &Address, token: &Address) -> (found: Option<usize>)
        requires
            self.wf(),
        ensures
            match found {
                Some(i) => {
                    &&& self.holds(i as int, (user@, token@))
                    &&& self@.contains_key((user@, token@))
                    &&& self@[(user@, token@)] == self.entries[i as int].balance@
                },
                None => !self@.contains_key((user@, token@)),
            },
    {
        let mut i: usize = 0;
        while i < self.entries.len()
            invariant
                self.wf(),
                i <= self.entries.len(),
                forall|j: int| 0 <= j < i ==> !self.holds(j, (user@, token@)),
            decreases self.entries.len() - i,
        {
            if self.entries[i].owner.same(user) && self.entries[i].balance.token().same(token) {
                proof {
                    self.lemma_entry(i as int);
                }
                return Some(i);
            }
            i = i + 1;
        }
        None
    }

    /// The balance on record for the participant in the token, if there is
    /// one.
    pub fn get(&self, user: &Address, token: &Address) -> (found: Option<&Balance>)
        requires
            self.wf(),
        ensures
            match found {
                Some(balance) => {
                    &&& self@.contains_key((user@, token@))
                    &&& balance@ == self@[(user@, token@)]
                    &&& balance.wf()
                },
                None => !self@.contains_key((user@, token@)),
            },
    {
        match self.find(user, token) {
            Some(i) => Some(&self.entries[i].balance),
            None => None,
        }
    }

    /// The balance of the participant in the token: the one on record, or a
    /// zero balance where there is none. Nothing is recorded.
    pub fn get_balance(&self, user: &Address, token: &Address) -> (balance: Balance)
        requires
            self.wf(),
        ensures
            balance.wf(),
            balance@ == balance_of(self@, user@, token@),
    {
        match self.find(user, token) {
            Some(i) => self.entries[i].balance.clone(),
            None => Balance::new(token.clone()),
        }
    }

    /// Puts `balance` on record for the participant, in place of the record
    /// that the participant had for that token, if any.
    pub fn put(&mut self, user: Address, balance: Balance)
        requires
            old(self).wf(),
            balance.wf(),
        ensures
            final(self).wf(),
            final(self)@ == old(self)@.insert((user@, balance@.token), balance@),
    {
        let ghost before = *self;
        match self.find(&user, balance.token()) {
            Some(i) => {
                self.entries[i].balance = balance;
                proof {
                    self.lemma_updated(&before, i as int);
                }
            },
            None => {
                let entry = BalanceEntry { owner: user, balance };
                self.entries.push(entry);
                proof {
                    self.lemma_pushed(&before, entry);
                }
            },
        }
    }

    /// Records that the participant has received `amount` of the token,
    /// starting from a zero balance where the participant has none. The caller
    /// vouches that the amount is positive.
    pub fn deposit(&mut self, user: &Address, token: &Address, amount: i128)
        requires
            old(self).wf(),
            amount > 0,
            balance_of(old(self)@, user@, token@).total_received + amount <= i128::MAX,
        ensures
            final(self).wf(),
            final(self)@ == deposited(old(self)@, user@, token@, amount as int),
    {
        let ghost before = *self;
        match self.find(user, token) {
            Some(i) => {
                self.entries[i].balance.deposit(amount);
                proof {
                    self.lemma_updated(&before, i as int);
                }
            },
            None => {
                let mut balance = Balance::new(token.clone());
                balance.deposit(amount);
                let entry = BalanceEntry { owner: user.clone(), balance };
                self.entries.push(entry);
                proof {
                    self.lemma_pushed(&before, entry);
                }
            },
        }
    }

    /// Pays `amount` of the token out of the participant's balance. The caller
    /// vouches that the amount is positive.
    pub fn withdraw(
        &mut self,
        user: &Address,
        token: &Address,
        amount: i128,
    ) -> (result: Result<(), TipError>)
        requires
            old(self).wf(),
            amount > 0,
        ensures
            final(self).wf(),
            match result {
                Ok(()) => {
                    &&& withdrawal_fault(old(self)@, user@, token@, amount as int) is None
                    &&& final(self)@ == paid_out(old(self)@, user@, token@, amount as int)
                },
                Err(e) => {
                    &&& withdrawal_fault(old(self)@, user@, token@, amount as int) == Some(e)
                    &&& final(self)@ == old(self)@
                },
            },
    {
        let ghost before = *self;
        match self.find(user, token) {
            Some(i) => {
                let result = self.entries[i].balance.withdraw(amount);
                proof {
                    self.lemma_updated(&before, i as int);
                    if result is Err {
                        assert(self@ =~= before@);
                    }
                }
                result
            },
            None => Err(TipError::NoBalanceError),
        }
    }
}

} // verus!
