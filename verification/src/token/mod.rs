//! The economic layer: shares minted against the pressure of the ledger's field.

pub mod laws;
pub mod rift_token;

pub use rift_token::RiftTokenState;
