//! Records, facts and errors of the endorsement ledger.

use crate::primitives::{AccountId, Balance, SkillId};
use vstd::prelude::*;

verus! {

/// One account's stake behind a credential.
#[derive(Clone, Copy, Debug, PartialEq, Eq, Structural)]
pub struct Endorsement {
    /// The account whose funds were reserved.
    pub endorser: AccountId,
    /// The amount that was reserved.
    pub stake: Balance,
}

/// A fact that the ledger reports after a successful call.
#[derive(Clone, Copy, Debug, PartialEq, Eq, Structural)]
pub enum Event {
    /// `endorser` staked `stake` behind the credential `skill_id`.
    SkillEndorsed { skill_id: SkillId, endorser: AccountId, stake: Balance },
}

/// Why the ledger rejected a call.
#[derive(Clone, Copy, Debug, PartialEq, Eq, Structural)]
pub enum Error {
    /// The stake could not be reserved on the caller's account.
    InsufficientBalance,
}

} // verus!
