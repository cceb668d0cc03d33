//! A verified core for a roster-mirroring fleet of synthetic game-protocol
//! clients: roster diffing with exclusion filtering, a rotating egress-proxy
//! pool with failure eviction, a deduplicated session registry, offline-mode
//! identity derivation, the wire codec for the packets the fleet sends, and
//! the per-connection protocol state machine.
pub mod codec;
pub mod identity;
pub mod names;
pub mod pool;
pub mod packets;
pub mod persist;
pub mod roster;
pub mod session;
pub mod status;
pub mod supervisor;
