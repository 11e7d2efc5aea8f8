//! A registry of intents and of the matches between them.
//!
//! Agents publish intents, one per agent, each at an address derived from the
//! agent's identity. Matches pair two intents and carry a status that only
//! the designated owner of the match may change.

pub mod address;
pub mod clock;
pub mod instructions;
pub mod layout;
pub mod records;
