//! The endorsement ledger as a mathematical state machine.

use crate::endorsements::types::{Endorsement, Error, Event};
use crate::primitives::{AccountId, Balance, SkillId};
use vstd::prelude::*;

verus! {

/// The sum of the stakes of a list of endorsements.
pub open spec fn total_stake(list: Seq<Endorsement>) -> nat
    decreases list.len(),
{
    if list.len() == 0 {
        0
    } else {
        total_stake(list.drop_last()) + list.last().stake as nat
    }
}

/// An amount clamped to the largest balance.
pub open spec fn saturated(amount: nat) -> Balance {
    if amount > Balance::MAX {
        Balance::MAX
    } else {
        amount as Balance
    }
}

/// The mathematical value of an endorsement ledger.
pub ghost struct LedgerState {
    /// For each credential that was endorsed, its endorsements, oldest first.
    pub endorsements: Map<SkillId, Seq<Endorsement>>,
    /// For each credential that was endorsed, its score.
    pub skill_scores: Map<SkillId, Balance>,
}

impl LedgerState {
    /// The ledger before any call.
    pub open spec fn init() -> LedgerState {
        LedgerState { endorsements: Map::empty(), skill_scores: Map::empty() }
    }

    /// The endorsements of `skill_id`, oldest first; empty if it was never endorsed.
    pub open spec fn endorsements_of(self, skill_id: SkillId) -> Seq<Endorsement> {
        if self.endorsements.contains_key(skill_id) {
            self.endorsements[skill_id]
        } else {
            Seq::empty()
        }
    }

    /// The score of `skill_id`; zero if it was never endorsed.
    pub open spec fn score_of(self, skill_id: SkillId) -> Balance {
        if self.skill_scores.contains_key(skill_id) {
            self.skill_scores[skill_id]
        } else {
            0
        }
    }

    /// The ledger after `who` endorses `skill_id` with `stake`.
    pub open spec fn endorse(self, who: AccountId, skill_id: SkillId, stake: Balance) -> LedgerState {
        LedgerState {
            endorsements: self.endorsements.insert(
                skill_id,
                self.endorsements_of(skill_id).push(Endorsement { endorser: who, stake }),
            ),
            skill_scores: self.skill_scores.insert(
                skill_id,
                saturated(self.score_of(skill_id) as nat + stake as nat),
            ),
        }
    }

    /// What a call to endorse returns, and the ledger it leaves, given whether
    /// the balance ledger reserved the stake.
    pub open spec fn settle(
        self,
        who: AccountId,
        skill_id: SkillId,
        stake: Balance,
        reserved: bool,
    ) -> (Result<Event, Error>, LedgerState) {
        if reserved {
            (
                Ok(Event::SkillEndorsed { skill_id, endorser: who, stake }),
                self.endorse(who, skill_id, stake),
            )
        } else {
            (Err(Error::InsufficientBalance), self)
        }
    }

    /// What holds of every ledger that calls can reach.
    ///
    /// A credential's score is the sum of its stakes, clamped to the largest
    /// balance, and a credential has a score exactly if it has endorsements.
    pub open spec fn inv(self) -> bool {
        &&& forall|skill_id: SkillId| #[trigger]
            self.score_of(skill_id) == saturated(total_stake(self.endorsements_of(skill_id)))
        &&& forall|skill_id: SkillId| #[trigger]
            self.skill_scores.contains_key(skill_id) <==> self.endorsements.contains_key(skill_id)
        &&& forall|skill_id: SkillId| #[trigger]
            self.endorsements.contains_key(skill_id) ==> self.endorsements[skill_id].len() > 0
    }

    /// One more endorsement adds its stake to the sum.
    pub proof fn lemma_total_stake_push(list: Seq<Endorsement>, endorsement: Endorsement)
        ensures
            total_stake(list.push(endorsement)) == total_stake(list) + endorsement.stake,
    {
        assert(list.push(endorsement).drop_last() =~= list);
    }

    /// An endorsement leads from a reachable ledger to a reachable one.
    pub proof fn lemma_endorse_preserves_inv(self, who: AccountId, skill_id: SkillId, stake: Balance)
        requires
            self.inv(),
        ensures
            self.endorse(who, skill_id, stake).inv(),
    {
        let after = self.endorse(who, skill_id, stake);
        Self::lemma_total_stake_push(
            self.endorsements_of(skill_id),
            Endorsement { endorser: who, stake },
        );
        assert forall|id: SkillId| #[trigger]
            after.score_of(id) == saturated(total_stake(after.endorsements_of(id))) by {
            if id != skill_id {
                assert(after.endorsements_of(id) == self.endorsements_of(id));
                assert(after.score_of(id) == self.score_of(id));
            }
        }
    }
}

} // verus!
