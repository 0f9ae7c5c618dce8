//! The server role: per-tick consumption of connection events and sequenced
//! updates, echoing each update back and recording the raw observations the
//! statistics are later derived from.
//!
//! The transport loop lives outside the library: each iteration it steps the
//! transport, drains the connection events and the inbound messages, and
//! hands them to [`ServerState::tick`], which returns the messages to send.
//! Transport errors are non-fatal for the server; the loop only logs them.

use vstd::prelude::*;

use crate::lifecycle::{connect_count, connection_after, ConnectionEvent};
use crate::messages::{
    player_move_sequences, ClientMessage, DeliveryClass, ServerMessage, ServerOutbound,
};
use crate::stats::{lemma_sum_counts_push, sum_counts};

verus! {

/// The server's accumulated run state: the tracked connection and the raw
/// observation buffers, appended strictly in receipt order.
pub struct ServerState {
    /// The single tracked peer link: the connected client's identifier.
    pub connection: Option<u64>,
    /// One entry per tick with an active connection: how many sequenced
    /// updates arrived in that tick, in tick order, zeros included.
    pub recv_counts: Vec<u64>,
    /// The receipt timestamp of each update, in receipt order.
    pub recv_timestamps: Vec<u64>,
    /// The decoded sequence number of each update, in receipt order.
    pub recv_sequences: Vec<u64>,
    /// How many ticks passed while a connection was active.
    pub total_ticks: u64,
    /// How many echo updates were sent back; one per received update.
    pub echoes_sent: u64,
}

impl ServerState {
    /// The buffers agree: one count per connected tick, one timestamp and
    /// one echo per recorded sequence number, and the per-tick counts sum to
    /// the number of recorded observations.
    pub open spec fn wf(&self) -> bool {
        &&& self.recv_counts@.len() == self.total_ticks
        &&& self.recv_timestamps@.len() == self.recv_sequences@.len()
        &&& self.echoes_sent == self.recv_sequences@.len()
        &&& sum_counts(self.recv_counts@) == self.recv_sequences@.len()
    }

    /// A fresh server with no connection and empty observation buffers.
    pub fn new() -> (s: Self)
        ensures
            s.wf(),
            s.connection is None,
            s.recv_counts@ == Seq::<u64>::empty(),
            s.recv_timestamps@ == Seq::<u64>::empty(),
            s.recv_sequences@ == Seq::<u64>::empty(),
            s.total_ticks == 0,
            s.echoes_sent == 0,
    {
        ServerState {
            connection: None,
            recv_counts: Vec::new(),
            recv_timestamps: Vec::new(),
            recv_sequences: Vec::new(),
            total_ticks: 0,
            echoes_sent: 0,
        }
    }

    /// One scheduler iteration, after the transport has been stepped and
    /// drained. Applies the connection events in order (acknowledging each
    /// Connect over the reliable channel), then, while a connection is
    /// active, records every sequenced update and echoes it back over the
    /// unreliable channel with the elapsed time since the tick began;
    /// finally the tick's count is recorded, zero included. Without an
    /// active connection nothing is recorded.
    #[verifier::loop_isolation(false)]
    pub fn tick(
        &mut self,
        now_micros: u64,
        tick_elapsed_micros: u64,
        events: &Vec<ConnectionEvent>,
        inbound: &Vec<ClientMessage>,
    ) -> (out: Vec<ServerOutbound>)
        requires
            old(self).wf(),
            old(self).total_ticks < u64::MAX,
            old(self).echoes_sent + inbound@.len() <= u64::MAX,
        ensures
            final(self).wf(),
            final(self).connection == connection_after(old(self).connection, events@),
            ({
                let seqs = player_move_sequences(inbound@);
                let active = connection_after(old(self).connection, events@) is Some;
                let acks = connect_count(events@);
                &&& active ==> {
                    &&& final(self).recv_sequences@ == old(self).recv_sequences@ + seqs
                    &&& final(self).recv_counts@ == old(self).recv_counts@.push(seqs.len() as u64)
                    &&& final(self).total_ticks == old(self).total_ticks + 1
                    &&& final(self).echoes_sent == old(self).echoes_sent + seqs.len()
                    &&& final(self).recv_timestamps@.len() == old(self).recv_timestamps@.len()
                        + seqs.len()
                    &&& forall|k: int|
                        0 <= k < old(self).recv_timestamps@.len()
                            ==> final(self).recv_timestamps@[k] == old(self).recv_timestamps@[k]
                    &&& forall|k: int|
                        old(self).recv_timestamps@.len() <= k < final(self).recv_timestamps@.len()
                            ==> final(self).recv_timestamps@[k] == now_micros
                }
                &&& !active ==> {
                    &&& final(self).recv_sequences@ == old(self).recv_sequences@
                    &&& final(self).recv_counts@ == old(self).recv_counts@
                    &&& final(self).recv_timestamps@ == old(self).recv_timestamps@
                    &&& final(self).total_ticks == old(self).total_ticks
                    &&& final(self).echoes_sent == old(self).echoes_sent
                }
                &&& out@.len() == acks + if active {
                    seqs.len() as int
                } else {
                    0int
                }
                &&& forall|k: int|
                    0 <= k < acks ==> (#[trigger] out@[k]).class is ReliableOrdered
                        && out@[k].message is AllowConnection
                &&& forall|k: int|
                    acks <= k < out@.len() ==> (#[trigger] out@[k]).class is Unreliable && (
                    out@[k].message matches ServerMessage::EntityMove {
                        world_slug,
                        id,
                        sequence,
                        timestamp_micros,
                    } && world_slug@ == Seq::<char>::empty() && id == 1 && sequence == seqs[k
                        - acks] && timestamp_micros == tick_elapsed_micros)
            }),
    {
        let mut out: Vec<ServerOutbound> = Vec::new();
        let mut i: usize = 0;
        while i < events.len()
            invariant
                i <= events@.len(),
                self.connection == connection_after(old(self).connection, events@.take(i as int)),
                out@.len() == connect_count(events@.take(i as int)),
                forall|k: int|
                    0 <= k < out@.len() ==> (#[trigger] out@[k]).class is ReliableOrdered
                        && out@[k].message is AllowConnection,
                self.recv_counts@ == old(self).recv_counts@,
                self.recv_timestamps@ == old(self).recv_timestamps@,
                self.recv_sequences@ == old(self).recv_sequences@,
                self.total_ticks == old(self).total_ticks,
                self.echoes_sent == old(self).echoes_sent,
            decreases events@.len() - i,
        {
            proof {
                assert(events@.take(i + 1).drop_last() =~= events@.take(i as int));
                assert(events@.take(i + 1).last() == events@[i as int]);
            }
            match &events[i] {
                ConnectionEvent::Connect { client_id } => {
                    out.push(
                        ServerOutbound {
                            class: DeliveryClass::ReliableOrdered,
                            message: ServerMessage::AllowConnection,
                        },
                    );
                    self.connection = Some(*client_id);
                },
                ConnectionEvent::Disconnect { .. } => {
                    self.connection = None;
                },
            }
            i = i + 1;
        }
        proof {
            assert(events@.take(events@.len() as int) =~= events@);
        }
        let ghost acks = connect_count(events@);
        if self.connection.is_some() {
            let ghost pre_seqs = self.recv_sequences@;
            let ghost pre_ts = self.recv_timestamps@;
            let mut count_this_tick: u64 = 0;
            let mut k: usize = 0;
            while k < inbound.len()
                invariant
                    k <= inbound@.len(),
                    count_this_tick == player_move_sequences(inbound@.take(k as int)).len(),
                    count_this_tick <= k,
                    self.recv_sequences@ == pre_seqs + player_move_sequences(
                        inbound@.take(k as int),
                    ),
                    self.recv_timestamps@.len() == pre_ts.len() + count_this_tick,
                    forall|t: int| 0 <= t < pre_ts.len() ==> self.recv_timestamps@[t] == pre_ts[t],
                    forall|t: int|
                        pre_ts.len() <= t < self.recv_timestamps@.len()
                            ==> self.recv_timestamps@[t] == now_micros,
                    self.echoes_sent == old(self).echoes_sent + count_this_tick,
                    self.connection == connection_after(old(self).connection, events@),
                    self.recv_counts@ == old(self).recv_counts@,
                    self.total_ticks == old(self).total_ticks,
                    out@.len() == acks + count_this_tick,
                    forall|t: int|
                        0 <= t < acks ==> (#[trigger] out@[t]).class is ReliableOrdered
                            && out@[t].message is AllowConnection,
                    forall|t: int|
                        acks <= t < out@.len() ==> (#[trigger] out@[t]).class is Unreliable && (
                        out@[t].message matches ServerMessage::EntityMove {
                            world_slug,
                            id,
                            sequence,
                            timestamp_micros,
                        } && world_slug@ == Seq::<char>::empty() && id == 1 && sequence
                            == player_move_sequences(inbound@.take(k as int))[t - acks]
                            && timestamp_micros == tick_elapsed_micros),
                decreases inbound@.len() - k,
            {
                proof {
                    assert(inbound@.take(k + 1).drop_last() =~= inbound@.take(k as int));
                    assert(inbound@.take(k + 1).last() == inbound@[k as int]);
                }
                match &inbound[k] {
                    ClientMessage::PlayerMove { sequence } => {
                        count_this_tick = count_this_tick + 1;
                        self.recv_timestamps.push(now_micros);
                        self.recv_sequences.push(*sequence);
                        out.push(
                            ServerOutbound {
                                class: DeliveryClass::Unreliable,
                                message: ServerMessage::EntityMove {
                                    world_slug: String::new(),
                                    id: 1,
                                    sequence: *sequence,
                                    timestamp_micros: tick_elapsed_micros,
                                },
                            },
                        );
                        self.echoes_sent = self.echoes_sent + 1;
                        proof {
                            assert(self.recv_sequences@ =~= pre_seqs + player_move_sequences(
                                inbound@.take(k + 1),
                            ));
                        }
                    },
                    ClientMessage::ConnectionInfo { .. } => {
                        // The handshake is logged by the loop outside; the
                        // exchange itself does not use it.
                    },
                    ClientMessage::Unhandled => {},
                }
                k = k + 1;
            }
            proof {
                assert(inbound@.take(inbound@.len() as int) =~= inbound@);
                lemma_sum_counts_push(old(self).recv_counts@, count_this_tick);
            }
            self.recv_counts.push(count_this_tick);
            self.total_ticks = self.total_ticks + 1;
        }
        out
    }
}

/// Law: the per-tick counts record every connected scheduler iteration
/// exactly once — their number equals the connected-tick total, and their sum
/// equals the number of recorded observations, so no iteration is skipped or
/// double-counted. [`ServerState::tick`] guarantees in turn that exactly one
/// count is appended per iteration with an active connection and none
/// otherwise.
pub proof fn lemma_counts_track_connected_ticks(s: &ServerState)
    requires
        s.wf(),
    ensures
        s.recv_counts@.len() == s.total_ticks,
        sum_counts(s.recv_counts@) == s.recv_sequences@.len(),
{
}

} // verus!
