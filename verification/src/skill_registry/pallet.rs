//! The registry's state container and its operations.

use crate::primitives::{AccountId, BlockNumber, SkillId};
use crate::skill_registry::history::Call;
use crate::skill_registry::model::RegistryState;
use crate::skill_registry::types::{Config, Error, Event, SkillInfo};
use std::collections::HashMap;
use vstd::prelude::*;

verus! {

broadcast use vstd::std_specs::hash::group_hash_axioms;

/// The credential registry: the counter, the credentials and the per-account index.
pub struct Pallet {
    config: Config,
    next_skill_id: SkillId,
    /// The credentials, each at the index that is its identifier.
    skills: Vec<SkillInfo>,
    account_skills: HashMap<AccountId, Vec<SkillId>>,
}

impl View for Pallet {
    type V = RegistryState;

    closed spec fn view(&self) -> RegistryState {
        RegistryState {
            max_metadata_length: self.config.max_metadata_length as nat,
            next_skill_id: self.next_skill_id as nat,
            skills: Map::new(
                |id: SkillId| (id as int) < self.skills@.len(),
                |id: SkillId| self.skills@[id as int]@,
            ),
            account_skills: self.account_skills@.map_values(|list: Vec<SkillId>| list@),
        }
    }
}

impl Pallet {
    /// How the fields stand for the view: the counter is the number of stored credentials.
    pub closed spec fn consistent(&self) -> bool {
        self.next_skill_id as int == self.skills@.len()
    }

    /// The registry is well formed: its fields are consistent and its view is a reachable state.
    pub open spec fn inv(&self) -> bool {
        self.consistent() && self@.inv()
    }

    /// An empty registry that accepts metadata references of up to
    /// `config.max_metadata_length` bytes.
    pub fn new(config: Config) -> (pallet: Pallet)
        ensures
            pallet.inv(),
            pallet@ == RegistryState::init(config.max_metadata_length as nat),
    {
        let pallet = Pallet {
            config,
            next_skill_id: 0,
            skills: Vec::new(),
            account_skills: HashMap::new(),
        };
        proof {
            assert(pallet@.skills =~= Map::empty());
            assert(pallet@.account_skills =~= Map::empty());
        }
        pallet
    }

    /// Mints a credential owned and issued by `who` in block `now`.
    ///
    /// A metadata reference longer than the configured maximum is rejected and
    /// nothing changes. Otherwise the credential is stored unverified under the
    /// next identifier, that identifier is appended to the list of `who`, the
    /// counter advances by one, and the fact reported carries the identifier.
    pub fn mint_skill(
        &mut self,
        who: AccountId,
        metadata_cid: Vec<u8>,
        soulbound: bool,
        now: BlockNumber,
    ) -> (result: Result<Event, Error>)
        requires
            old(self).inv(),
            old(self)@.accepts(metadata_cid@) ==> old(self)@.next_skill_id < u32::MAX,
        ensures
            final(self).inv(),
            !old(self)@.accepts(metadata_cid@) ==> {
                &&& result == Err::<Event, Error>(Error::MetadataTooLong)
                &&& final(self)@ == old(self)@
            },
            old(self)@.accepts(metadata_cid@) ==> {
                &&& result == Ok::<Event, Error>(
                    Event::SkillMinted { skill_id: old(self)@.next_skill_id as SkillId, owner: who },
                )
                &&& final(self)@ == old(self)@.mint(who, metadata_cid@, soulbound, now)
            },
            result == old(self)@.reply(
                (Call::Mint { who, metadata_cid: metadata_cid@, soulbound, now }),
            ),
            final(self)@ == old(self)@.step(
                (Call::Mint { who, metadata_cid: metadata_cid@, soulbound, now }),
            ),
    {
        if metadata_cid.len() > self.config.max_metadata_length as usize {
            return Err(Error::MetadataTooLong);
        }
        let skill_id: SkillId = self.next_skill_id;
        let ghost cid = metadata_cid@;
        let info = SkillInfo {
            owner: who,
            metadata_cid,
            issued_by: who,
            issued_at: now,
            soulbound,
            verified: false,
        };
        self.skills.push(info);
        let mut list = match self.account_skills.remove(&who) {
            Some(list) => list,
            None => Vec::new(),
        };
        list.push(skill_id);
        self.account_skills.insert(who, list);
        self.next_skill_id = skill_id + 1;
        proof {
            let before = old(self)@;
            let after = before.mint(who, cid, soulbound, now);
            assert(list@ == before.skills_of(who).push(skill_id));
            assert(self@.skills =~= after.skills);
            assert(self@.account_skills =~= after.account_skills);
            before.lemma_mint_preserves_inv(who, cid, soulbound, now);
        }
        Ok(Event::SkillMinted { skill_id, owner: who })
    }

    /// Marks the credential `skill_id` verified, on behalf of any caller.
    ///
    /// An unknown identifier is rejected and nothing changes. A credential that
    /// is verified already stays so, and the call succeeds again.
    #[allow(unused_variables)]
    pub fn verify_skill(&mut self, who: AccountId, skill_id: SkillId) -> (result: Result<
        Event,
        Error,
    >)
        requires
            old(self).inv(),
        ensures
            final(self).inv(),
            !old(self)@.skills.contains_key(skill_id) ==> {
                &&& result == Err::<Event, Error>(Error::SkillNotFound)
                &&& final(self)@ == old(self)@
            },
            old(self)@.skills.contains_key(skill_id) ==> {
                &&& result == Ok::<Event, Error>(Event::SkillVerified { skill_id })
                &&& final(self)@ == old(self)@.verify(skill_id)
            },
            result == old(self)@.reply((Call::Verify { who, skill_id })),
            final(self)@ == old(self)@.step((Call::Verify { who, skill_id })),
    {
        if skill_id >= self.next_skill_id {
            return Err(Error::SkillNotFound);
        }
        self.skills[skill_id as usize].verified = true;
        proof {
            let before = old(self)@;
            assert(self@.skills =~= before.verify(skill_id).skills);
            before.lemma_verify_preserves_inv(skill_id);
        }
        Ok(Event::SkillVerified { skill_id })
    }

    /// The identifier that the next mint will hand out.
    pub fn next_skill_id(&self) -> (id: SkillId)
        ensures
            id == self@.next_skill_id,
    {
        self.next_skill_id
    }

    /// The largest number of bytes that a metadata reference may hold.
    pub fn max_metadata_length(&self) -> (max: u32)
        ensures
            max == self@.max_metadata_length,
    {
        self.config.max_metadata_length
    }

    /// The credential stored under `skill_id`, if one was minted.
    pub fn skill(&self, skill_id: SkillId) -> (found: Option<&SkillInfo>)
        ensures
            match found {
                Some(info) => self@.skills.contains_key(skill_id) && info@ == self@.skills[skill_id],
                None => !self@.skills.contains_key(skill_id),
            },
    {
        if (skill_id as usize) < self.skills.len() {
            Some(&self.skills[skill_id as usize])
        } else {
            None
        }
    }

    /// The identifiers minted by `who`, oldest first.
    pub fn account_skills(&self, who: AccountId) -> (list: Vec<SkillId>)
        ensures
            list@ == self@.skills_of(who),
    {
        match self.account_skills.get(&who) {
            Some(list) => list.clone(),
            None => Vec::new(),
        }
    }
}

} // verus!
