//! Core of a Willow-style synchronization session: Meadowcap capabilities,
//! entries and their canonical encoding, areas and three-dimensional ranges,
//! handle-bound resources, bounded message channels, per-session state and
//! the cooperative drivers of the range-fingerprint reconciliation protocol.

pub mod util;
pub mod keys;
pub mod grouping;
pub mod willow;
pub mod meadowcap;
pub mod resource;
pub mod wgps;
pub mod channels;
pub mod static_tokens;
pub mod session;
pub mod store;
pub mod coroutine;
pub mod request;
pub mod gateway;
