//! The mathematical layer: the ledger state, its invariants and its operations.

pub mod laws;
pub mod operations;
pub mod state;

pub use state::{Account, CoreState};
