//! Plain value types shared by the registry and the endorsement ledger.

use vstd::prelude::*;

verus! {

/// Identifier of an account.
pub type AccountId = u64;

/// Identifier of a skill credential, allocated from a counter that starts at zero.
pub type SkillId = u32;

/// Height of the block in which a call is applied.
pub type BlockNumber = u64;

/// An amount of funds.
pub type Balance = u128;

} // verus!
