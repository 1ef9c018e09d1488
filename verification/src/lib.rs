//! A content-licensing marketplace ledger: a content-addressed token
//! registry with per-account holding balances, a pending/approved/
//! disapproved workflow by which producers grant publishers commission
//! rights, and an oracle-verified settlement engine that converts
//! fiat-denominated prices into native-asset transfers split among
//! platform, producer and publisher.
//!
//! Every operation is specified by its contract and verified; the host
//! around it supplies caller identity, attached payment, the clock,
//! persistence and the transfer primitive, and dispatches the transfers
//! an operation returns.

pub mod errors;
pub mod events;
pub mod hashing;
pub mod laws;
pub mod numerals;
pub mod oracle;
pub mod registry;
pub mod requests;
pub mod settlement;
pub mod state;
pub mod sums;
