//! A protocol-consistency instrument: a tick-synchronized harness that drives
//! a client and a server over a transport with a reliable-ordered and an
//! unreliable channel, and measures how faithfully a stream of
//! sequence-numbered messages survives the round trip.
//!
//! The transport itself is an external collaborator: each role's loop lives
//! outside this library and hands the per-tick decisions to the state
//! machines here (connection events in, messages in, messages to send out).
//! The statistics derivation at the end of a run is a pure function over the
//! finalized record buffers.

pub mod client;
pub mod entities;
pub mod lifecycle;
pub mod messages;
pub mod schedule;
pub mod server;
pub mod stats;
