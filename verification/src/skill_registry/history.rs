//! What holds of the registry along any sequence of calls.

use crate::primitives::{AccountId, BlockNumber, SkillId};
use crate::skill_registry::model::RegistryState;
use crate::skill_registry::types::{Error, Event, SkillRecord};
use vstd::prelude::*;

verus! {

/// A call to the registry, by its arguments.
pub ghost enum Call {
    /// `who` asks to mint a credential in block `now`.
    Mint { who: AccountId, metadata_cid: Seq<u8>, soulbound: bool, now: BlockNumber },
    /// `who` asks to mark the credential `skill_id` verified.
    Verify { who: AccountId, skill_id: SkillId },
}

impl RegistryState {
    /// Whether the registry carries `call` out rather than rejecting it.
    pub open spec fn admits(self, call: Call) -> bool {
        match call {
            Call::Mint { metadata_cid, .. } => self.accepts(metadata_cid),
            Call::Verify { skill_id, .. } => self.skills.contains_key(skill_id),
        }
    }

    /// What the registry answers to `call`: the fact it reports if the call is
    /// admitted, the reason if it is rejected.
    pub open spec fn reply(self, call: Call) -> Result<Event, Error> {
        match call {
            Call::Mint { who, metadata_cid, .. } => if self.accepts(metadata_cid) {
                Ok(Event::SkillMinted { skill_id: self.next_skill_id as SkillId, owner: who })
            } else {
                Err(Error::MetadataTooLong)
            },
            Call::Verify { skill_id, .. } => if self.skills.contains_key(skill_id) {
                Ok(Event::SkillVerified { skill_id })
            } else {
                Err(Error::SkillNotFound)
            },
        }
    }

    /// The registry after `call`: changed as the call says if it is admitted, unchanged if not.
    pub open spec fn step(self, call: Call) -> RegistryState {
        if !self.admits(call) {
            self
        } else {
            match call {
                Call::Mint { who, metadata_cid, soulbound, now } => self.mint(
                    who,
                    metadata_cid,
                    soulbound,
                    now,
                ),
                Call::Verify { skill_id, .. } => self.verify(skill_id),
            }
        }
    }

    /// The registry after `calls`, applied in order.
    pub open spec fn run(self, calls: Seq<Call>) -> RegistryState
        decreases calls.len(),
    {
        if calls.len() == 0 {
            self
        } else {
            self.run(calls.drop_last()).step(calls.last())
        }
    }

    /// How many of `calls` are mints of a reference that the registry accepts.
    pub open spec fn minted(self, calls: Seq<Call>) -> nat
        decreases calls.len(),
    {
        if calls.len() == 0 {
            0
        } else {
            let earlier = self.minted(calls.drop_last());
            match calls.last() {
                Call::Mint { metadata_cid, .. } => if self.accepts(metadata_cid) {
                    earlier + 1
                } else {
                    earlier
                },
                Call::Verify { .. } => earlier,
            }
        }
    }

    /// The counter counts the successful mints: along any sequence of calls it
    /// grows by one with each mint that is admitted and by nothing else, so in a
    /// registry that started empty it is the number of successful mints. The
    /// configured limit never changes.
    pub proof fn lemma_counter_counts_mints(self, calls: Seq<Call>)
        ensures
            self.run(calls).max_metadata_length == self.max_metadata_length,
            self.run(calls).next_skill_id == self.next_skill_id + self.minted(calls),
            self.next_skill_id == 0 ==> self.run(calls).next_skill_id == self.minted(calls),
        decreases calls.len(),
    {
        if calls.len() > 0 {
            self.lemma_counter_counts_mints(calls.drop_last());
        }
    }

    /// Every sequence of calls leads from a reachable registry to a reachable
    /// one, as long as the counter does not run out of identifiers.
    pub proof fn lemma_run_preserves_inv(self, calls: Seq<Call>)
        requires
            self.inv(),
            self.next_skill_id + self.minted(calls) <= u32::MAX,
        ensures
            self.run(calls).inv(),
        decreases calls.len(),
    {
        if calls.len() > 0 {
            let earlier = calls.drop_last();
            self.lemma_run_preserves_inv(earlier);
            self.lemma_counter_counts_mints(earlier);
            self.lemma_counter_counts_mints(calls);
            let middle = self.run(earlier);
            if middle.admits(calls.last()) {
                match calls.last() {
                    Call::Mint { who, metadata_cid, soulbound, now } => {
                        middle.lemma_mint_preserves_inv(who, metadata_cid, soulbound, now);
                    },
                    Call::Verify { skill_id, .. } => {
                        middle.lemma_verify_preserves_inv(skill_id);
                    },
                }
            }
        }
    }

    /// A credential, once stored, stays stored and keeps every field but
    /// `verified`, which no call turns from true to false.
    pub proof fn lemma_verified_is_permanent(self, calls: Seq<Call>, skill_id: SkillId)
        requires
            self.inv(),
            self.next_skill_id + self.minted(calls) <= u32::MAX,
            self.skills.contains_key(skill_id),
        ensures
            self.run(calls).skills.contains_key(skill_id),
            self.run(calls).skills[skill_id] == (SkillRecord {
                verified: self.run(calls).skills[skill_id].verified,
                ..self.skills[skill_id]
            }),
            self.skills[skill_id].verified ==> self.run(calls).skills[skill_id].verified,
        decreases calls.len(),
    {
        if calls.len() > 0 {
            let earlier = calls.drop_last();
            self.lemma_verified_is_permanent(earlier, skill_id);
            self.lemma_run_preserves_inv(earlier);
        }
    }

    /// An account's list only grows: what it held before a sequence of calls is
    /// the beginning of what it holds after.
    pub proof fn lemma_account_skills_only_grow(self, calls: Seq<Call>, who: AccountId)
        ensures
            self.skills_of(who).is_prefix_of(self.run(calls).skills_of(who)),
        decreases calls.len(),
    {
        if calls.len() > 0 {
            let earlier = calls.drop_last();
            self.lemma_account_skills_only_grow(earlier, who);
            let middle = self.run(earlier);
            let after = middle.step(calls.last());
            assert(middle.skills_of(who).is_prefix_of(after.skills_of(who)));
        }
    }
}

} // verus!
