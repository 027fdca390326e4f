//! A minimal custodial ledger module for a deterministic host runtime.
//!
//! The module keeps three durable records in a byte-keyed store supplied by
//! the host: a singleton configuration, a running total of locked funds, and
//! a per-account map of locked balances.  The handlers validate incoming
//! messages, update the records, and report log attributes back to the host.

pub mod api;
pub mod codec;
pub mod contract;
pub mod error;
pub mod msg;
pub mod state;
pub mod store;
