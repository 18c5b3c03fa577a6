//! What holds of the endorsement ledger along any sequence of calls.

use crate::endorsements::model::{total_stake, LedgerState};
use crate::endorsements::types::Endorsement;
use crate::primitives::{AccountId, Balance, SkillId};
use vstd::prelude::*;

verus! {

/// A call to endorse, by its arguments and the balance ledger's answer.
pub ghost struct Call {
    pub who: AccountId,
    pub skill_id: SkillId,
    pub stake: Balance,
    /// Whether the balance ledger reserved the stake.
    pub reserved: bool,
}

impl LedgerState {
    /// The ledger after `call`.
    pub open spec fn step(self, call: Call) -> LedgerState {
        self.settle(call.who, call.skill_id, call.stake, call.reserved).1
    }

    /// The ledger after `calls`, applied in order.
    pub open spec fn run(self, calls: Seq<Call>) -> LedgerState
        decreases calls.len(),
    {
        if calls.len() == 0 {
            self
        } else {
            self.run(calls.drop_last()).step(calls.last())
        }
    }

    /// The endorsements that `calls` leave for `skill_id`: one for each call on
    /// that credential whose stake was reserved, in the order of the calls.
    pub open spec fn recorded(calls: Seq<Call>, skill_id: SkillId) -> Seq<Endorsement>
        decreases calls.len(),
    {
        if calls.len() == 0 {
            Seq::empty()
        } else {
            let earlier = Self::recorded(calls.drop_last(), skill_id);
            let call = calls.last();
            if call.reserved && call.skill_id == skill_id {
                earlier.push(Endorsement { endorser: call.who, stake: call.stake })
            } else {
                earlier
            }
        }
    }

    /// The ledger records a stake exactly when it was reserved: after a
    /// sequence of calls a credential holds what it held before, followed by
    /// one endorsement for each call on it that the balance ledger granted, and
    /// none for a call that it refused.
    pub proof fn lemma_records_follow_reservations(self, calls: Seq<Call>, skill_id: SkillId)
        ensures
            self.run(calls).endorsements_of(skill_id) == self.endorsements_of(skill_id)
                + Self::recorded(calls, skill_id),
        decreases calls.len(),
    {
        if calls.len() == 0 {
            assert(self.endorsements_of(skill_id) + Seq::<Endorsement>::empty()
                =~= self.endorsements_of(skill_id));
        } else {
            let earlier = calls.drop_last();
            let call = calls.last();
            self.lemma_records_follow_reservations(earlier, skill_id);
            let middle = self.run(earlier);
            if call.reserved && call.skill_id == skill_id {
                let added = Endorsement { endorser: call.who, stake: call.stake };
                assert((self.endorsements_of(skill_id) + Self::recorded(earlier, skill_id)).push(
                    added,
                ) =~= self.endorsements_of(skill_id) + Self::recorded(earlier, skill_id).push(
                    added,
                ));
            } else {
                assert(middle.step(call).endorsements_of(skill_id) == middle.endorsements_of(
                    skill_id,
                ));
            }
        }
    }

    /// Every sequence of calls leads from a reachable ledger to a reachable
    /// one: after each call, every score is the clamped sum of the stakes
    /// recorded for its credential.
    pub proof fn lemma_run_preserves_inv(self, calls: Seq<Call>)
        requires
            self.inv(),
        ensures
            self.run(calls).inv(),
        decreases calls.len(),
    {
        if calls.len() > 0 {
            let earlier = calls.drop_last();
            let call = calls.last();
            self.lemma_run_preserves_inv(earlier);
            if call.reserved {
                self.run(earlier).lemma_endorse_preserves_inv(call.who, call.skill_id, call.stake);
            }
        }
    }

    /// In a reachable ledger a score is exactly the sum of the stakes recorded
    /// for its credential, as long as that sum is a balance.
    pub proof fn lemma_score_is_total_stake(self, skill_id: SkillId)
        requires
            self.inv(),
            total_stake(self.endorsements_of(skill_id)) <= Balance::MAX,
        ensures
            self.score_of(skill_id) == total_stake(self.endorsements_of(skill_id)),
    {
    }

    /// Endorsements are never removed or changed and a score never falls: what
    /// a credential held before a sequence of calls is the beginning of what it
    /// holds after.
    pub proof fn lemma_records_only_grow(self, calls: Seq<Call>, skill_id: SkillId)
        ensures
            self.endorsements_of(skill_id).is_prefix_of(self.run(calls).endorsements_of(skill_id)),
            self.score_of(skill_id) <= self.run(calls).score_of(skill_id),
        decreases calls.len(),
    {
        if calls.len() > 0 {
            let earlier = calls.drop_last();
            self.lemma_records_only_grow(earlier, skill_id);
            let middle = self.run(earlier);
            let after = middle.step(calls.last());
            assert(middle.endorsements_of(skill_id).is_prefix_of(after.endorsements_of(skill_id)));
            assert(middle.score_of(skill_id) <= after.score_of(skill_id));
        }
    }
}

} // verus!
