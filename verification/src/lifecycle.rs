//! Connection lifecycle: each role tracks at most one logical peer link.
//!
//! A Connect event makes the tracked reference present, overwriting any
//! prior link (the old one is treated as gone — no multi-connection support
//! by design); a Disconnect event clears it. While no link is tracked, the
//! exchange and the statistics collector do no work for that role.

use vstd::prelude::*;

verus! {

/// A connection event drained from the transport. The client identifier is
/// the peer's opaque handle; a disconnect also carries a reason for the log.
#[derive(Clone, Debug)]
pub enum ConnectionEvent {
    Connect { client_id: u64 },
    Disconnect { client_id: u64, reason: String },
}

/// The tracked connection after a tick's events are applied in order: the
/// last event alone decides, since a Connect overwrites whatever was tracked
/// and a Disconnect clears it.
pub open spec fn connection_after(current: Option<u64>, events: Seq<ConnectionEvent>) -> Option<
    u64,
> {
    if events.len() == 0 {
        current
    } else {
        match events.last() {
            ConnectionEvent::Connect { client_id } => Some(client_id),
            ConnectionEvent::Disconnect { .. } => None,
        }
    }
}

/// How many Connect events `events` holds: the server acknowledges each one.
pub open spec fn connect_count(events: Seq<ConnectionEvent>) -> int
    decreases events.len(),
{
    if events.len() == 0 {
        0
    } else {
        connect_count(events.drop_last()) + if events.last() is Connect {
            1int
        } else {
            0int
        }
    }
}

} // verus!
