//! A replication library for real-time simulations: one authoritative server
//! mirrors its object state to any number of clients over a message channel.
//!
//! The crate covers the wire message format and its binary codec, the
//! server-side diff/broadcast manager, the client-side buffering and apply
//! manager, the type-tag-keyed factories that build local objects from wire
//! payloads, and the spawn-id registry that correlates server objects with
//! their client mirrors.

pub mod codec;
pub mod id_map;
pub mod physics;
pub mod render;
pub mod replication;
pub mod store;
pub mod transport;
