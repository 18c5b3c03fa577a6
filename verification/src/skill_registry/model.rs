//! The registry as a mathematical state machine.

use crate::primitives::{AccountId, BlockNumber, SkillId};
use crate::skill_registry::types::SkillRecord;
use vstd::prelude::*;

verus! {

/// The mathematical value of a registry.
pub ghost struct RegistryState {
    /// Largest accepted length of a metadata reference.
    pub max_metadata_length: nat,
    /// The identifier that the next mint will hand out.
    pub next_skill_id: nat,
    /// Every credential ever minted, by identifier.
    pub skills: Map<SkillId, SkillRecord>,
    /// For each account that minted, the identifiers it minted, oldest first.
    pub account_skills: Map<AccountId, Seq<SkillId>>,
}

impl RegistryState {
    /// The registry before any call.
    pub open spec fn init(max_metadata_length: nat) -> RegistryState {
        RegistryState {
            max_metadata_length,
            next_skill_id: 0,
            skills: Map::empty(),
            account_skills: Map::empty(),
        }
    }

    /// The identifiers minted by `who`, oldest first; empty for an account that never minted.
    pub open spec fn skills_of(self, who: AccountId) -> Seq<SkillId> {
        if self.account_skills.contains_key(who) {
            self.account_skills[who]
        } else {
            Seq::empty()
        }
    }

    /// Whether a metadata reference is short enough to be minted.
    pub open spec fn accepts(self, metadata_cid: Seq<u8>) -> bool {
        metadata_cid.len() <= self.max_metadata_length
    }

    /// The record that a mint by `who` stores.
    pub open spec fn minted_record(
        who: AccountId,
        metadata_cid: Seq<u8>,
        soulbound: bool,
        now: BlockNumber,
    ) -> SkillRecord {
        SkillRecord {
            owner: who,
            metadata_cid,
            issued_by: who,
            issued_at: now,
            soulbound,
            verified: false,
        }
    }

    /// The registry after `who` mints a credential in block `now`.
    pub open spec fn mint(
        self,
        who: AccountId,
        metadata_cid: Seq<u8>,
        soulbound: bool,
        now: BlockNumber,
    ) -> RegistryState {
        let id = self.next_skill_id as SkillId;
        RegistryState {
            max_metadata_length: self.max_metadata_length,
            next_skill_id: self.next_skill_id + 1,
            skills: self.skills.insert(
                id,
                Self::minted_record(who, metadata_cid, soulbound, now),
            ),
            account_skills: self.account_skills.insert(who, self.skills_of(who).push(id)),
        }
    }

    /// The registry after the credential `skill_id`, which it holds, is marked verified.
    pub open spec fn verify(self, skill_id: SkillId) -> RegistryState {
        RegistryState {
            skills: self.skills.insert(
                skill_id,
                SkillRecord { verified: true, ..self.skills[skill_id] },
            ),
            ..self
        }
    }

    /// What holds of every registry that calls can reach.
    ///
    /// Identifiers are handed out densely from zero, every stored reference
    /// respects the configured maximum, a credential's issuer is its owner, and
    /// each account's list holds exactly the identifiers it owns, in the order
    /// in which they were minted.
    pub open spec fn inv(self) -> bool {
        &&& self.next_skill_id <= u32::MAX
        &&& forall|id: SkillId| #[trigger] self.skills.contains_key(id) <==> id < self.next_skill_id
        &&& forall|id: SkillId| #[trigger]
            self.skills.contains_key(id) ==> {
                &&& self.skills[id].metadata_cid.len() <= self.max_metadata_length
                &&& self.skills[id].issued_by == self.skills[id].owner
                &&& self.skills_of(self.skills[id].owner).contains(id)
            }
        &&& forall|who: AccountId, i: int|
            0 <= i < self.skills_of(who).len() ==> {
                &&& self.skills.contains_key(#[trigger] self.skills_of(who)[i])
                &&& self.skills[self.skills_of(who)[i]].owner == who
            }
        &&& forall|who: AccountId, i: int, j: int|
            0 <= i < j < self.skills_of(who).len() ==> #[trigger] self.skills_of(who)[i]
                < #[trigger] self.skills_of(who)[j]
        &&& forall|who: AccountId| #[trigger]
            self.account_skills.contains_key(who) ==> self.account_skills[who].len() > 0
    }

    /// Minting an accepted reference leads from a reachable registry to a reachable one.
    pub proof fn lemma_mint_preserves_inv(
        self,
        who: AccountId,
        metadata_cid: Seq<u8>,
        soulbound: bool,
        now: BlockNumber,
    )
        requires
            self.inv(),
            self.accepts(metadata_cid),
            self.next_skill_id < u32::MAX,
        ensures
            self.mint(who, metadata_cid, soulbound, now).inv(),
    {
        let after = self.mint(who, metadata_cid, soulbound, now);
        let id = self.next_skill_id as SkillId;
        assert(after.skills_of(who) == self.skills_of(who).push(id));
        assert forall|other: AccountId| other != who implies #[trigger] after.skills_of(other)
            == self.skills_of(other) by {}
        assert forall|k: SkillId| #[trigger] after.skills.contains_key(k) implies after.skills_of(
            after.skills[k].owner,
        ).contains(k) by {
            let owner = after.skills[k].owner;
            if k == id {
                assert(after.skills_of(who)[self.skills_of(who).len() as int] == id);
            } else {
                assert(self.skills.contains_key(k));
                let i = choose|i: int|
                    0 <= i < self.skills_of(owner).len() && self.skills_of(owner)[i] == k;
                assert(after.skills_of(owner)[i] == k);
            }
        }
        assert forall|a: AccountId, i: int| 0 <= i < after.skills_of(a).len() implies {
            &&& after.skills.contains_key(#[trigger] after.skills_of(a)[i])
            &&& after.skills[after.skills_of(a)[i]].owner == a
        } by {
            if a == who && i == self.skills_of(who).len() {
            } else {
                assert(after.skills_of(a)[i] == self.skills_of(a)[i]);
            }
        }
        assert forall|a: AccountId, i: int, j: int|
            0 <= i < j < after.skills_of(a).len() implies #[trigger] after.skills_of(a)[i]
            < #[trigger] after.skills_of(a)[j] by {
            assert(after.skills_of(a)[i] == self.skills_of(a)[i]);
            if a == who && j == self.skills_of(who).len() {
                assert(self.skills.contains_key(self.skills_of(a)[i]));
            } else {
                assert(after.skills_of(a)[j] == self.skills_of(a)[j]);
            }
        }
    }

    /// Verifying a stored credential leads from a reachable registry to a reachable one.
    pub proof fn lemma_verify_preserves_inv(self, skill_id: SkillId)
        requires
            self.inv(),
            self.skills.contains_key(skill_id),
        ensures
            self.verify(skill_id).inv(),
    {
        let after = self.verify(skill_id);
        assert forall|who: AccountId| #[trigger] after.skills_of(who) == self.skills_of(who) by {}
        assert forall|k: SkillId| #[trigger] after.skills.contains_key(k) implies {
            &&& after.skills[k].metadata_cid.len() <= after.max_metadata_length
            &&& after.skills[k].issued_by == after.skills[k].owner
            &&& after.skills_of(after.skills[k].owner).contains(k)
        } by {
            assert(self.skills.contains_key(k));
            assert(after.skills[k].owner == self.skills[k].owner);
        }
        assert forall|who: AccountId, i: int| 0 <= i < after.skills_of(who).len() implies {
            &&& after.skills.contains_key(#[trigger] after.skills_of(who)[i])
            &&& after.skills[after.skills_of(who)[i]].owner == who
        } by {
            assert(self.skills.contains_key(self.skills_of(who)[i]));
        }
    }

    /// A mint changes the counter, the slot of the identifier it hands out and
    /// the minter's list, and nothing else: the identifier was free, every
    /// other credential and every other account's list is as before.
    pub proof fn lemma_mint_changes_only_its_own(
        self,
        who: AccountId,
        metadata_cid: Seq<u8>,
        soulbound: bool,
        now: BlockNumber,
    )
        requires
            self.inv(),
            self.next_skill_id < u32::MAX,
        ensures
            ({
                let id = self.next_skill_id as SkillId;
                let after = self.mint(who, metadata_cid, soulbound, now);
                &&& !self.skills.contains_key(id)
                &&& after.max_metadata_length == self.max_metadata_length
                &&& after.next_skill_id == self.next_skill_id + 1
                &&& after.skills[id] == Self::minted_record(who, metadata_cid, soulbound, now)
                &&& after.skills.remove(id) == self.skills
                &&& after.skills_of(who) == self.skills_of(who).push(id)
                &&& after.account_skills.remove(who) == self.account_skills.remove(who)
            }),
    {
        let id = self.next_skill_id as SkillId;
        let after = self.mint(who, metadata_cid, soulbound, now);
        assert(after.skills.remove(id) =~= self.skills);
        assert(after.account_skills.remove(who) =~= self.account_skills.remove(who));
    }

    /// Verifying a credential changes its `verified` flag and nothing else, and
    /// verifying it again changes nothing at all.
    pub proof fn lemma_verify_is_idempotent(self, skill_id: SkillId)
        requires
            self.skills.contains_key(skill_id),
        ensures
            self.verify(skill_id).skills[skill_id].verified,
            self.verify(skill_id).skills.remove(skill_id) == self.skills.remove(skill_id),
            self.verify(skill_id).verify(skill_id) == self.verify(skill_id),
            self.skills[skill_id].verified ==> self.verify(skill_id) == self,
    {
        let once = self.verify(skill_id);
        assert(once.skills.remove(skill_id) =~= self.skills.remove(skill_id));
        assert(once.verify(skill_id).skills =~= once.skills);
        if self.skills[skill_id].verified {
            assert(once.skills =~= self.skills);
        }
    }
}

} // verus!
