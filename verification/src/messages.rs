//! The message shapes of the sequenced exchange.
//!
//! The client emits position updates whose first numeric component carries a
//! monotonically increasing sequence number; the server echoes each one back
//! with the elapsed time since its tick began. Only what the harness logic
//! reads is modelled: the sequence number, the echo timestamp, and the
//! identifying payload of the handshake. Delivery itself belongs to the
//! transport outside the library.

use vstd::prelude::*;

verus! {

/// The delivery guarantee a message is sent with.
#[derive(Clone, Copy, Debug, PartialEq, Eq, Structural)]
pub enum DeliveryClass {
    /// In-order, exactly-once arrival.
    ReliableOrdered,
    /// No guarantee of arrival, ordering, or single delivery.
    Unreliable,
}

/// A message from the client to the server.
#[derive(Clone, Debug)]
pub enum ClientMessage {
    /// The sequenced position update, sent at the configured cadence over
    /// the unreliable channel. The sequence number is the payload the
    /// instrument measures.
    PlayerMove { sequence: u64 },
    /// The one-time handshake describing the client, sent reliably once the
    /// server has allowed the connection.
    ConnectionInfo { login: String, version: String, architecture: String, rendering_device: String },
    /// Any other message variant: logged or ignored by the exchange.
    Unhandled,
}

/// A message from the server to the client.
#[derive(Clone, Debug)]
pub enum ServerMessage {
    /// The connection-acceptance acknowledgment, sent reliably on connect.
    AllowConnection,
    /// The echo of one received position update, carrying the same sequence
    /// number and the elapsed time since the echoing tick began.
    EntityMove { world_slug: String, id: u32, sequence: u64, timestamp_micros: u64 },
    /// Any other message variant: ignored by the exchange.
    Unhandled,
}

/// A message the client asks the transport to send, with its delivery class.
#[derive(Clone, Debug)]
pub struct ClientOutbound {
    pub class: DeliveryClass,
    pub message: ClientMessage,
}

/// A message the server asks the transport to send, with its delivery class.
#[derive(Clone, Debug)]
pub struct ServerOutbound {
    pub class: DeliveryClass,
    pub message: ServerMessage,
}

/// The sequence numbers of the position updates in `msgs`, in receipt order.
pub open spec fn player_move_sequences(msgs: Seq<ClientMessage>) -> Seq<u64>
    decreases msgs.len(),
{
    if msgs.len() == 0 {
        Seq::empty()
    } else {
        let rest = player_move_sequences(msgs.drop_last());
        match msgs.last() {
            ClientMessage::PlayerMove { sequence } => rest.push(sequence),
            _ => rest,
        }
    }
}

/// How many echo updates `msgs` holds.
pub open spec fn echo_count(msgs: Seq<ServerMessage>) -> int
    decreases msgs.len(),
{
    if msgs.len() == 0 {
        0
    } else {
        echo_count(msgs.drop_last()) + if msgs.last() is EntityMove {
            1int
        } else {
            0int
        }
    }
}

/// How many connection-acceptance acknowledgments `msgs` holds.
pub open spec fn allow_count(msgs: Seq<ServerMessage>) -> int
    decreases msgs.len(),
{
    if msgs.len() == 0 {
        0
    } else {
        allow_count(msgs.drop_last()) + if msgs.last() is AllowConnection {
            1int
        } else {
            0int
        }
    }
}

} // verus!
