//! A pooled-custody vault: depositors contribute a fungible asset to a shared
//! pot and receive proportional ownership shares; an admin curates a bounded
//! allow-list of traders, exactly one of whom may hold a capped, revocable
//! spending delegation over the pooled funds at any time.
//!
//! This crate holds the accounting and authorization core: share mint/burn
//! conversion, the trader registry, and the single-delegate state machine.
//! The host environment that stores the records and executes the actual token
//! transfers and approvals is an external collaborator; it calls these
//! operations with the state it loaded and performs the transfer or approval
//! an accepted operation asks for.

pub mod errors;
pub mod identity;
pub mod instructions;
pub mod laws;
pub mod registry;
pub mod shares;
pub mod states;

