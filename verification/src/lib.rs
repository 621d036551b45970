//! Rift L1 core: the mathematical state of a distributed ledger whose
//! rewards reach every participant through one scalar field, the share
//! token that is minted against that field, and a seeded stress harness
//! that drives both with random operations.
//!
//! Every operation of the ledger checks the SIRM invariants on the state it
//! would leave and adopts that state only when they hold; a refused
//! operation returns an error and leaves everything as it was.

pub mod decimal;
pub mod error;
pub mod harness;
pub mod ledger;
pub mod token;

pub use error::{InvariantError, Result};
pub use ledger::{Account, CoreState};
pub use token::RiftTokenState;

use vstd::prelude::*;

verus! {

/// The version of this library.
pub const VERSION: &'static str = "0.1.0";

} // verus!
