//! The credential registry: issues skill credentials and marks them verified.

pub mod history;
pub mod model;
pub mod pallet;
pub mod types;

pub use history::Call;
pub use model::RegistryState;
pub use pallet::Pallet;
pub use types::{Config, Error, Event, SkillInfo, SkillRecord};
