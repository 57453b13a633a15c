//! A ledger-resident daily trivia game.
//!
//! An operator publishes a puzzle (a board position and the SHA-256 hash of
//! its solution) for a given date; users submit candidate solutions; a correct
//! submission earns a non-transferable certificate record, which an
//! administrator may later annotate with an externally-minted token reference.
//!
//! The host ledger runtime (persistent storage at derived addresses, signer
//! authentication, the wall clock and atomic per-transaction commits) is an
//! external collaborator; this crate verifies the state machine itself and
//! models the store as a key-value map with all-or-nothing transactions.

pub mod errors;
pub mod instructions;
pub mod hashing;
pub mod keys;
pub mod ledger;
pub mod seeds;
pub mod states;
pub mod store;
