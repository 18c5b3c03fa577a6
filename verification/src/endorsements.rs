//! The endorsement ledger: records the stakes that back a credential and their score.

pub mod history;
pub mod model;
pub mod pallet;
pub mod types;

pub use history::Call;
pub use model::{saturated, total_stake, LedgerState};
pub use pallet::Pallet;
pub use types::{Endorsement, Error, Event};
