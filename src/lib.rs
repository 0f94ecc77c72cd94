//! Session layer of a multiplayer game host: the wire message codec, the
//! player liveness registry, the pending-player queue, the reconciliation of
//! presented identities against the player store, and the trigger catalog.
pub mod identity;
pub mod pending;
pub mod ids;
pub mod registry;
pub mod text;
pub mod search;
pub mod reconcile;
pub mod trigger;
pub mod codec;
pub mod envelope;
pub mod session;
pub mod map_sets;
