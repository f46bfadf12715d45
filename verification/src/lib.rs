//! Shard-routing and backend-connection layer for a single-key GET/SET
//! service backed by independent key-value store instances.
//!
//! The crate covers the deterministic key-to-instance routing, the parsing
//! of the configured backend list, the startup health-probe policy that
//! decides which instances join the routing table, the bounded connection
//! pool, and the classification of store replies into request outcomes.
//! Network transport itself (HTTP front end, store client) lives outside
//! the library and hands plain values in and out.

pub mod health;
pub mod outcome;
pub mod pool;
pub mod registry;
pub mod router;
pub mod store;
