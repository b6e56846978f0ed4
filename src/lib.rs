//! Framing and forwarding logic that relays typed messages between an
//! in-process queue and a byte-stream peer.
//!
//! The socket work itself stays with the caller: the functions here decide,
//! from what a read, a write or the codec reported, what happens next.

pub mod endpoint;
pub mod error;
pub mod forwarder;
pub mod relay;
