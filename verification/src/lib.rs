//! Administrator-guarded lifecycle contracts over a Soroban ledger: achievement badges
//! and tournaments.
//!
//! Every operation checks existence, authorization and duplication before its
//! first write, so a call either commits completely or leaves the ledger as it
//! found it. The contracts of the operations are stated over a mathematical
//! model of the ledger, see [`host::World`].

pub mod achievement_badge;
pub mod badge_laws;
pub mod host;
pub mod tournament_laws;
pub mod tournament_system;
