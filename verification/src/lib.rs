//! Resource lifecycle guards for a cloud control tool.
//!
//! The library holds the decision logic that sits between user commands and a
//! cloud provider: existence and emptiness checks around container (bucket)
//! and item (object) operations, key derivation for uploads, endpoint
//! resolution for compute instances, and the state machine that orchestrates
//! a remote shell session. All provider and process I/O stays outside; the
//! functions here work on plain snapshots (name lists, key lists, describe
//! results) that the surrounding program fetches and hands in.

pub mod errors;
pub mod guard;
pub mod instance;
pub mod laws;
pub mod session;
pub mod store;
