//! Accounting and risk engine of a pool-based collateralized lending market.
//!
//! - `fraction`: 60-bit fixed-point numbers with exact, overflow-checked arithmetic.
//! - `wide`: 256-bit products and the 256-bit fraction that holds the cumulative borrow
//!   index.
//! - `curve`, `caps`, `oracle`: borrow-rate curves, withdrawal caps, price validation.
//! - `reserve`, `obligation`, `market`: the records and their own operations.
//! - `operations`, `refresh`, `liquidation`: the lending operations on those records.
//! - `transaction`, `checks`, `process`: the checks an instruction makes on its
//!   transaction and accounts, and whole instructions short of their token transfers.
//! - `config`, `bytes`: configuration updates from their serialized payloads.
//! - `laws`: properties that relate several operations.
pub mod bytes;
pub mod caps;
pub mod checks;
pub mod config;
pub mod constants;
pub mod curve;
pub mod errors;
pub mod fraction;
pub mod laws;
pub mod liquidation;
pub mod market;
pub mod obligation;
pub mod operations;
pub mod oracle;
pub mod process;
pub mod refresh;
pub mod reserve;
pub mod transaction;
pub mod types;
pub mod wide;
