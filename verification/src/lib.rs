//! Core of a fleet dashboard backend: it inventories docker-compose stacks laid
//! out as `scan root / host / stack` and reports a gated run as a stream of
//! progress events, one JSON object per line.
//!
//! Everything here works on plain values. Reading directories, the process
//! environment and the network is left to the caller, who hands in what was
//! read and sends out what comes back.

pub mod clock;
pub mod config;
pub mod entitlements;
pub mod json;
pub mod order;
pub mod text;

pub mod tree;
pub mod api;
