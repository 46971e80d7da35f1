//! The tip log: every accepted tip, in the order of acceptance.

use vstd::prelude::*;
use crate::address::Address;
use crate::tip::{Tip, TipView};

verus! {

/// The tips of `tips` as mathematical values, in the same order.
pub open spec fn tip_views(tips: Seq<Tip>) -> Seq<TipView> {
    tips.map_values(|tip: Tip| tip@)
}

/// The tips of `tips` that `user` has received, in the same order.
pub open spec fn tips_to(tips: Seq<TipView>, user: Seq<char>) -> Seq<TipView> {
    tips.filter(|tip: TipView| tip.to == user)
}

/// The tips of `tips` that `user` has sent, in the same order.
pub open spec fn tips_from(tips: Seq<TipView>, user: Seq<char>) -> Seq<TipView> {
    tips.filter(|tip: TipView| tip.from == user)
}

/// The tips of `tips` that `user` has received in `token`, in the same order.
pub open spec fn tips_to_in(tips: Seq<TipView>, user: Seq<char>, token: Seq<char>) -> Seq<TipView> {
    tips.filter(|tip: TipView| tip.to == user && tip.token == token)
}

/// The sum of the amounts of `tips`.
pub open spec fn sum_of_amounts(tips: Seq<TipView>) -> int
    decreases tips.len(),
{
    if tips.len() == 0 {
        0
    } else {
        sum_of_amounts(tips.drop_last()) + tips.last().amount
    }
}

/// One more tip adds its amount to the sum.
pub proof fn lemma_sum_push(tips: Seq<TipView>, tip: TipView)
    ensures
        sum_of_amounts(tips.push(tip)) == sum_of_amounts(tips) + tip.amount,
{
    assert(tips.push(tip).drop_last() =~= tips);
}

/// One more tip is one more tip for its recipient and for nobody else.
pub proof fn lemma_tips_to_push(tips: Seq<TipView>, tip: TipView, user: Seq<char>)
    ensures
        tips_to(tips.push(tip), user) == if tip.to == user {
            tips_to(tips, user).push(tip)
        } else {
            tips_to(tips, user)
        },
{
    reveal(Seq::filter);
    assert(tips.push(tip).drop_last() =~= tips);
}

/// One more tip is one more tip of its sender and of nobody else.
pub proof fn lemma_tips_from_push(tips: Seq<TipView>, tip: TipView, user: Seq<char>)
    ensures
        tips_from(tips.push(tip), user) == if tip.from == user {
            tips_from(tips, user).push(tip)
        } else {
            tips_from(tips, user)
        },
{
    reveal(Seq::filter);
    assert(tips.push(tip).drop_last() =~= tips);
}

/// One more tip is one more tip for its recipient in its token and for no
/// other pair of a participant and a token.
pub proof fn lemma_tips_to_in_push(tips: Seq<TipView>, tip: TipView, user: Seq<char>, token: Seq<char>)
    ensures
        tips_to_in(tips.push(tip), user, token) == if tip.to == user && tip.token == token {
            tips_to_in(tips, user, token).push(tip)
        } else {
            tips_to_in(tips, user, token)
        },
{
    reveal(Seq::filter);
    assert(tips.push(tip).drop_last() =~= tips);
}

/// The tip log. Tips are only ever added at its end.
#[derive(Debug)]
pub struct TipLog {
    tips: Vec<Tip>,
}

impl View for TipLog {
    type V = Seq<TipView>;

    closed spec fn view(&self) -> Seq<TipView> {
        tip_views(self.tips@)
    }
}

impl TipLog {
    /// The invariant of the log: every tip in it is valid, and their number
    /// fits the counter.
    pub open spec fn wf(&self) -> bool {
        &&& self@.len() <= u32::MAX
        &&& forall|i: int| 0 <= i < self@.len() ==> (#[trigger] self@[i]).valid()
    }

    /// The log without any tip.
    pub fn new() -> (log: TipLog)
        ensures
            log.wf(),
            log@ == Seq::<TipView>::empty(),
    {
        let log = TipLog { tips: Vec::new() };
        assert(log@ =~= Seq::<TipView>::empty());
        log
    }

    /// Adds a tip at the end of the log.
    pub fn append(&mut self, tip: Tip)
        requires
            old(self).wf(),
            tip.wf(),
            old(self)@.len() < u32::MAX,
        ensures
            final(self).wf(),
            final(self)@ == old(self)@.push(tip@),
    {
        self.tips.push(tip);
        assert(self@ =~= old(self)@.push(tip@));
    }

    /// The tips that `user` has received, oldest first.
    pub fn tips_for(&self, user: &Address) -> (found: Vec<Tip>)
        ensures
            tip_views(found@) == tips_to(self@, user@),
    {
        let mut found: Vec<Tip> = Vec::new();
        let mut i: usize = 0;
        proof {
            reveal(Seq::filter);
            assert(self@.take(0) =~= Seq::<TipView>::empty());
            assert(tip_views(found@) =~= tips_to(self@.take(0), user@));
        }
        while i < self.tips.len()
            invariant
                i <= self.tips.len(),
                self@.len() == self.tips.len(),
                tip_views(found@) == tips_to(self@.take(i as int), user@),
            decreases self.tips.len() - i,
        {
            let ghost seen = self@.take(i as int);
            proof {
                assert(self@.take(i + 1) =~= seen.push(self@[i as int]));
                lemma_tips_to_push(seen, self@[i as int], user@);
            }
            if self.tips[i].recipient().same(user) {
                let tip = self.tips[i].clone();
                let ghost earlier = found@;
                found.push(tip);
                assert(tip_views(found@) =~= tip_views(earlier).push(tip@));
            }
            i = i + 1;
        }
        assert(self@.take(i as int) =~= self@);
        found
    }

    /// All the tips of the log, oldest first.
    pub fn tips(&self) -> (tips: &Vec<Tip>)
        ensures
            tip_views(tips@) == self@,
    {
        &self.tips
    }

    /// The number of tips in the log.
    pub fn count(&self) -> (count: u32)
        requires
            self.wf(),
        ensures
            count == self@.len(),
    {
        self.tips.len() as u32
    }
}

} // verus!
