//! Records, facts and errors of the credential registry.

use crate::primitives::{AccountId, BlockNumber, SkillId};
use vstd::prelude::*;

verus! {

/// Deployment parameters of the registry.
#[derive(Clone, Copy, Debug, PartialEq, Eq, Structural)]
pub struct Config {
    /// Largest number of bytes that a metadata reference may hold.
    pub max_metadata_length: u32,
}

/// A skill credential as it is stored.
#[derive(Debug, PartialEq, Eq)]
pub struct SkillInfo {
    /// The account that the credential belongs to.
    pub owner: AccountId,
    /// Opaque reference to the credential's metadata, such as a content address.
    pub metadata_cid: Vec<u8>,
    /// The account that minted the credential.
    pub issued_by: AccountId,
    /// Height of the block in which the credential was minted.
    pub issued_at: BlockNumber,
    /// Advisory flag: the credential is meant never to change hands.
    pub soulbound: bool,
    /// Whether the credential has been verified.
    pub verified: bool,
}

/// The mathematical value of a [`SkillInfo`].
pub ghost struct SkillRecord {
    pub owner: AccountId,
    pub metadata_cid: Seq<u8>,
    pub issued_by: AccountId,
    pub issued_at: BlockNumber,
    pub soulbound: bool,
    pub verified: bool,
}

impl View for SkillInfo {
    type V = SkillRecord;

    open spec fn view(&self) -> SkillRecord {
        SkillRecord {
            owner: self.owner,
            metadata_cid: self.metadata_cid@,
            issued_by: self.issued_by,
            issued_at: self.issued_at,
            soulbound: self.soulbound,
            verified: self.verified,
        }
    }
}

impl Clone for SkillInfo {
    fn clone(&self) -> (copy: SkillInfo)
        ensures
            copy@ == self@,
    {
        SkillInfo {
            owner: self.owner,
            metadata_cid: self.metadata_cid.clone(),
            issued_by: self.issued_by,
            issued_at: self.issued_at,
            soulbound: self.soulbound,
            verified: self.verified,
        }
    }
}

/// A fact that the registry reports after a successful call.
#[derive(Clone, Copy, Debug, PartialEq, Eq, Structural)]
pub enum Event {
    /// A credential was minted for `owner` under `skill_id`.
    SkillMinted { skill_id: SkillId, owner: AccountId },
    /// The credential `skill_id` was marked verified.
    SkillVerified { skill_id: SkillId },
}

/// Why the registry rejected a call.
#[derive(Clone, Copy, Debug, PartialEq, Eq, Structural)]
pub enum Error {
    /// No credential is stored under the given identifier.
    SkillNotFound,
    /// The metadata reference is longer than the configured maximum.
    MetadataTooLong,
}

} // verus!
