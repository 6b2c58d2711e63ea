//! Keeps a host's resolver configuration in step with the network services
//! that a connection manager reports over the message bus.
//!
//! The crate holds the verified core: decoding property-change notifications,
//! converting raw directory entries, the reconciliation state machine that
//! decides every resolver mutation, the exact text of the generated
//! configuration, and the safety policy for the external helper binary.
//! Transport (the bus), process spawning and logging live outside, and hand
//! this library plain values.

pub mod directory;
pub mod laws;
pub mod reconcile;
pub mod service;
pub mod strings;
pub mod writer;
