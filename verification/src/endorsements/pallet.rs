//! The ledger's state container and its operations.

use crate::endorsements::model::{saturated, LedgerState};
use crate::endorsements::types::{Endorsement, Error, Event};
use crate::primitives::{AccountId, Balance, SkillId};
use std::collections::HashMap;
use vstd::prelude::*;

verus! {

broadcast use vstd::std_specs::hash::group_hash_axioms;

/// `sp_arithmetic::traits::Saturating::saturating_add`, which `frame_support`
/// hands on under `sp_runtime`, on two balances. Trusted, not proved: it
/// returns their sum, or the largest balance where the sum is larger than that.
#[verifier::external_body]
fn saturating_add(score: Balance, stake: Balance) -> (sum: Balance)
    ensures
        sum == saturated(score as nat + stake as nat),
{
    frame_support::sp_runtime::Saturating::saturating_add(score, stake)
}

/// The endorsement ledger: per credential, its endorsements and its score.
pub struct Pallet {
    endorsements: HashMap<SkillId, Vec<Endorsement>>,
    skill_scores: HashMap<SkillId, Balance>,
}

impl View for Pallet {
    type V = LedgerState;

    closed spec fn view(&self) -> LedgerState {
        LedgerState {
            endorsements: self.endorsements@.map_values(|list: Vec<Endorsement>| list@),
            skill_scores: self.skill_scores@,
        }
    }
}

impl Pallet {
    /// The ledger is well formed: its view is a reachable state.
    pub open spec fn inv(&self) -> bool {
        self@.inv()
    }

    /// An empty ledger.
    pub fn new() -> (pallet: Pallet)
        ensures
            pallet.inv(),
            pallet@ == LedgerState::init(),
    {
        let pallet = Pallet { endorsements: HashMap::new(), skill_scores: HashMap::new() };
        proof {
            assert(pallet@.endorsements =~= Map::empty());
        }
        pallet
    }

    /// Concludes an endorsement once the balance ledger has answered the
    /// request to reserve `stake` on the account of `who`.
    ///
    /// After a refusal the call fails and nothing changes. After a reservation
    /// the endorsement is appended to the list of `skill_id`, whether or not a
    /// credential was ever minted under that identifier, and the stake is added
    /// to its score, which stops at the largest balance.
    pub fn settle_endorsement<E>(
        &mut self,
        who: AccountId,
        skill_id: SkillId,
        stake: Balance,
        reservation: Result<(), E>,
    ) -> (result: Result<Event, Error>)
        requires
            old(self).inv(),
        ensures
            final(self).inv(),
            (result, final(self)@) == old(self)@.settle(who, skill_id, stake, reservation is Ok),
    {
        if reservation.is_err() {
            return Err(Error::InsufficientBalance);
        }
        let mut list = match self.endorsements.remove(&skill_id) {
            Some(list) => list,
            None => Vec::new(),
        };
        list.push(Endorsement { endorser: who, stake });
        self.endorsements.insert(skill_id, list);
        let score: Balance = match self.skill_scores.get(&skill_id) {
            Some(score) => *score,
            None => 0,
        };
        self.skill_scores.insert(skill_id, saturating_add(score, stake));
        proof {
            let before = old(self)@;
            let after = before.endorse(who, skill_id, stake);
            assert(self@.endorsements =~= after.endorsements);
            assert(self@.skill_scores =~= after.skill_scores);
            before.lemma_endorse_preserves_inv(who, skill_id, stake);
        }
        Ok(Event::SkillEndorsed { skill_id, endorser: who, stake })
    }

    /// Endorses `skill_id` with `stake` on behalf of `who`.
    ///
    /// First asks the balance ledger, through `reserve`, to move `stake` from
    /// the free balance of `who` to its reserved balance, then concludes as
    /// [`Pallet::settle_endorsement`] does with the answer: nothing is recorded
    /// unless the funds were reserved.
    pub fn endorse_skill<E, F: FnOnce(AccountId, Balance) -> Result<(), E>>(
        &mut self,
        who: AccountId,
        skill_id: SkillId,
        stake: Balance,
        reserve: F,
    ) -> (result: Result<Event, Error>)
        requires
            old(self).inv(),
            reserve.requires((who, stake)),
        ensures
            final(self).inv(),
            result is Err ==> {
                &&& result == Err::<Event, Error>(Error::InsufficientBalance)
                &&& final(self)@ == old(self)@
            },
            result is Ok ==> {
                &&& result == Ok::<Event, Error>(
                    Event::SkillEndorsed { skill_id, endorser: who, stake },
                )
                &&& final(self)@ == old(self)@.endorse(who, skill_id, stake)
            },
            exists|reservation: Result<(), E>|
                {
                    &&& #[trigger] reserve.ensures((who, stake), reservation)
                    &&& (result, final(self)@) == old(self)@.settle(
                        who,
                        skill_id,
                        stake,
                        reservation is Ok,
                    )
                },
    {
        let reservation = reserve(who, stake);
        self.settle_endorsement(who, skill_id, stake, reservation)
    }

    /// The endorsements of `skill_id`, oldest first.
    pub fn endorsements(&self, skill_id: SkillId) -> (list: Vec<Endorsement>)
        ensures
            list@ == self@.endorsements_of(skill_id),
    {
        match self.endorsements.get(&skill_id) {
            Some(list) => list.clone(),
            None => Vec::new(),
        }
    }

    /// The score of `skill_id`: zero if it was never endorsed.
    pub fn skill_score(&self, skill_id: SkillId) -> (score: Balance)
        ensures
            score == self@.score_of(skill_id),
    {
        match self.skill_scores.get(&skill_id) {
            Some(score) => *score,
            None => 0,
        }
    }
}

} // verus!
