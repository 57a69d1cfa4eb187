//! An on-ledger limit-order exchange with a multi-hop atomic swap router.
//!
//! Orders lock a fixed input amount and promise a target output amount; a
//! privileged filler settles them fully or in parts, releasing input in
//! proportion to the output delivered. A separate route saga chains several
//! swaps or fills into one all-or-nothing borrowed-funds transaction.

pub mod admin;
pub mod errors;
pub mod exchange;
pub mod fees;
pub mod laws;
pub mod math;
pub mod orders;
pub mod padding;
pub mod queries;
pub mod route;
pub mod settlement;
pub mod state;
pub mod validations;

pub use errors::Error;
pub use fees::calculate_fee;
