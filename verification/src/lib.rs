//! A ledger of skill credentials and of the stakes that endorse them.
//!
//! State is held in explicitly owned containers. Every operation is a total,
//! all-or-nothing transition whose effect is stated over the container's
//! mathematical view.

pub mod endorsements;
pub mod primitives;
pub mod skill_registry;
