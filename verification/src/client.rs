//! The client role: per-tick consumption of echoes and of the acceptance
//! acknowledgment, and emission of sequenced updates at a fixed cadence.
//!
//! The transport loop lives outside the library: each iteration it steps the
//! transport, drains the inbound messages and errors, and hands them to
//! [`ClientState::tick`], which returns the messages to send. A transport
//! error is fatal for the client: the tick reports it and changes nothing.
//!
//! An update is sent only when the time since the last send has reached the
//! target interval, not strictly once per tick: cumulative rounding may make
//! a tick send nothing or the cadence drift, and that gating is itself part
//! of the measured behaviour.

use vstd::prelude::*;
use vstd::string::StringExecFns;

use crate::messages::{allow_count, echo_count, ClientMessage, ClientOutbound, DeliveryClass, ServerMessage};

verus! {

/// What one client tick decided: whether a transport error ended the run,
/// and the messages to hand to the transport.
pub struct ClientTickOutcome {
    /// A transport error was observed; the run ends and nothing was done.
    pub fatal: bool,
    /// The messages to send, in order: one handshake per acceptance
    /// acknowledgment received, then the tick's sequenced update if one was
    /// due.
    pub outbound: Vec<ClientOutbound>,
}

/// The client's accumulated run state.
pub struct ClientState {
    /// Whether the server has allowed the connection; this flag, not the raw
    /// transport connect event, gates sending.
    pub connected: bool,
    /// The last sequence number emitted; numbering starts at one.
    pub sequence: u64,
    /// How many sequenced updates were sent.
    pub total_sent: u64,
    /// One entry per tick spent connected: how many echoes arrived in that
    /// tick, in tick order, zeros included.
    pub recv_counts: Vec<u64>,
    /// How many echoes arrived over the whole run.
    pub recv_total: u64,
    /// How many ticks passed while connected.
    pub total_ticks: u64,
    /// When the last update was sent (or the connection was allowed).
    pub last_send_micros: u64,
    /// The sequence numbers emitted so far, in emission order.
    pub sent_history: Ghost<Seq<u64>>,
}

impl ClientState {
    /// The counters agree: one recorded count per connected tick, and the
    /// emission history is exactly 1, 2, ..., total_sent, so the sequence
    /// counter always equals the number of updates sent.
    pub open spec fn wf(&self) -> bool {
        &&& self.sequence == self.total_sent
        &&& self.recv_counts@.len() == self.total_ticks
        &&& self.sent_history@.len() == self.total_sent
        &&& forall|i: int| 0 <= i < self.sent_history@.len() ==> self.sent_history@[i] == i + 1
    }

    /// A fresh, unconnected client. `now_micros` is the instant the run
    /// starts; the send gate measures from it until the connection is
    /// allowed.
    pub fn new(now_micros: u64) -> (c: Self)
        ensures
            c.wf(),
            !c.connected,
            c.sequence == 0,
            c.total_sent == 0,
            c.recv_counts@ == Seq::<u64>::empty(),
            c.recv_total == 0,
            c.total_ticks == 0,
            c.last_send_micros == now_micros,
            c.sent_history@ == Seq::<u64>::empty(),
    {
        ClientState {
            connected: false,
            sequence: 0,
            total_sent: 0,
            recv_counts: Vec::new(),
            recv_total: 0,
            total_ticks: 0,
            last_send_micros: now_micros,
            sent_history: Ghost(Seq::empty()),
        }
    }

    /// One scheduler iteration, after the transport has been stepped and
    /// drained. A transport error is fatal: the run ends with the state
    /// untouched. Otherwise the inbound messages are consumed in order (an
    /// acceptance acknowledgment flips the connected flag, emits the
    /// one-time handshake and resets the send gate; each echo is counted),
    /// and then, while connected, the tick's echo count is recorded and a
    /// sequenced update is emitted if the time since the last send has
    /// reached the target interval.
    #[verifier::loop_isolation(false)]
    pub fn tick(
        &mut self,
        tick_start_micros: u64,
        send_interval_micros: u64,
        inbound: &Vec<ServerMessage>,
        transport_error_count: u64,
    ) -> (r: ClientTickOutcome)
        requires
            old(self).wf(),
            old(self).total_ticks < u64::MAX,
            old(self).total_sent < u64::MAX,
            old(self).recv_total + inbound@.len() <= u64::MAX,
        ensures
            final(self).wf(),
            r.fatal == (transport_error_count > 0),
            r.fatal ==> *final(self) == *old(self) && r.outbound@.len() == 0,
            !r.fatal ==> ({
                let allows = allow_count(inbound@);
                let echoes = echo_count(inbound@);
                let now_connected = old(self).connected || allows > 0;
                let gate_start = if allows > 0 {
                    tick_start_micros
                } else {
                    old(self).last_send_micros
                };
                let elapsed = if tick_start_micros >= gate_start {
                    tick_start_micros - gate_start
                } else {
                    0int
                };
                let sends = now_connected && elapsed >= send_interval_micros;
                &&& final(self).connected == now_connected
                &&& final(self).recv_total == old(self).recv_total + echoes
                &&& now_connected ==> final(self).recv_counts@ == old(self).recv_counts@.push(
                    echoes as u64,
                ) && final(self).total_ticks == old(self).total_ticks + 1
                &&& !now_connected ==> final(self).recv_counts@ == old(self).recv_counts@
                    && final(self).total_ticks == old(self).total_ticks
                &&& sends ==> {
                    &&& final(self).sequence == old(self).sequence + 1
                    &&& final(self).total_sent == old(self).total_sent + 1
                    &&& final(self).last_send_micros == tick_start_micros
                    &&& final(self).sent_history@ == old(self).sent_history@.push(
                        final(self).sequence,
                    )
                }
                &&& !sends ==> {
                    &&& final(self).sequence == old(self).sequence
                    &&& final(self).total_sent == old(self).total_sent
                    &&& final(self).last_send_micros == gate_start
                    &&& final(self).sent_history@ == old(self).sent_history@
                }
                &&& r.outbound@.len() == allows + if sends {
                    1int
                } else {
                    0int
                }
                &&& forall|k: int|
                    0 <= k < allows ==> (#[trigger] r.outbound@[k]).class is ReliableOrdered && (
                    r.outbound@[k].message matches ClientMessage::ConnectionInfo {
                        login,
                        version,
                        architecture,
                        rendering_device,
                    } && login@ == "consistency-test"@ && version@ == "test"@ && architecture@
                        == "test"@ && rendering_device@ == "test"@)
                &&& sends ==> (r.outbound@.last().class is Unreliable && (
                r.outbound@.last().message matches ClientMessage::PlayerMove { sequence }
                    && sequence == final(self).sequence))
            }),
    {
        if transport_error_count > 0 {
            return ClientTickOutcome { fatal: true, outbound: Vec::new() };
        }
        let mut outbound: Vec<ClientOutbound> = Vec::new();
        let mut recv_this_tick: u64 = 0;
        let mut i: usize = 0;
        while i < inbound.len()
            invariant
                i <= inbound@.len(),
                recv_this_tick == echo_count(inbound@.take(i as int)),
                recv_this_tick <= i,
                self.connected == (old(self).connected || allow_count(inbound@.take(i as int))
                    > 0),
                self.last_send_micros == if allow_count(inbound@.take(i as int)) > 0 {
                    tick_start_micros
                } else {
                    old(self).last_send_micros
                },
                self.recv_total == old(self).recv_total + echo_count(inbound@.take(i as int)),
                outbound@.len() == allow_count(inbound@.take(i as int)),
                forall|k: int|
                    0 <= k < outbound@.len() ==> (#[trigger] outbound@[k]).class
                        is ReliableOrdered && (
                    outbound@[k].message matches ClientMessage::ConnectionInfo {
                        login,
                        version,
                        architecture,
                        rendering_device,
                    } && login@ == "consistency-test"@ && version@ == "test"@ && architecture@
                        == "test"@ && rendering_device@ == "test"@),
                self.sequence == old(self).sequence,
                self.total_sent == old(self).total_sent,
                self.recv_counts@ == old(self).recv_counts@,
                self.total_ticks == old(self).total_ticks,
                self.sent_history@ == old(self).sent_history@,
            decreases inbound@.len() - i,
        {
            proof {
                assert(inbound@.take(i + 1).drop_last() =~= inbound@.take(i as int));
                assert(inbound@.take(i + 1).last() == inbound@[i as int]);
            }
            match &inbound[i] {
                ServerMessage::AllowConnection => {
                    outbound.push(
                        ClientOutbound {
                            class: DeliveryClass::ReliableOrdered,
                            message: ClientMessage::ConnectionInfo {
                                login: String::from_str("consistency-test"),
                                version: String::from_str("test"),
                                architecture: String::from_str("test"),
                                rendering_device: String::from_str("test"),
                            },
                        },
                    );
                    self.connected = true;
                    self.last_send_micros = tick_start_micros;
                },
                ServerMessage::EntityMove { .. } => {
                    recv_this_tick = recv_this_tick + 1;
                    self.recv_total = self.recv_total + 1;
                },
                ServerMessage::Unhandled => {},
            }
            i = i + 1;
        }
        proof {
            assert(inbound@.take(inbound@.len() as int) =~= inbound@);
        }
        if self.connected {
            self.recv_counts.push(recv_this_tick);
            self.total_ticks = self.total_ticks + 1;
            let elapsed = if tick_start_micros >= self.last_send_micros {
                tick_start_micros - self.last_send_micros
            } else {
                0
            };
            if elapsed >= send_interval_micros {
                self.sequence = self.sequence + 1;
                outbound.push(
                    ClientOutbound {
                        class: DeliveryClass::Unreliable,
                        message: ClientMessage::PlayerMove { sequence: self.sequence },
                    },
                );
                self.total_sent = self.total_sent + 1;
                self.last_send_micros = tick_start_micros;
                self.sent_history = Ghost(self.sent_history@.push(self.sequence));
            }
        }
        ClientTickOutcome { fatal: false, outbound }
    }
}

/// Law: sending is idempotent under replay prevention. Over any well-formed
/// client run the emitted sequence numbers are exactly 1, 2, ..., total_sent:
/// in order, with no repeats, and a number was emitted precisely when it lies
/// between one and the send count.
/// Law: the per-tick echo counts record every connected scheduler iteration
/// exactly once — their number equals the connected-tick total.
/// [`ClientState::tick`] guarantees in turn that exactly one count is
/// appended per iteration spent connected and none otherwise.
pub proof fn lemma_counts_track_connected_ticks(c: &ClientState)
    requires
        c.wf(),
    ensures
        c.recv_counts@.len() == c.total_ticks,
{
}

pub proof fn lemma_sent_sequences_exact(c: &ClientState)
    requires
        c.wf(),
    ensures
        c.sent_history@.len() == c.total_sent,
        forall|i: int| 0 <= i < c.sent_history@.len() ==> c.sent_history@[i] == i + 1,
        forall|i: int, j: int|
            0 <= i < j < c.sent_history@.len() ==> c.sent_history@[i] != c.sent_history@[j],
        forall|v: u64| c.sent_history@.contains(v) <==> 1 <= v <= c.total_sent,
{
    assert forall|v: u64| c.sent_history@.contains(v) <==> 1 <= v <= c.total_sent by {
        if 1 <= v <= c.total_sent {
            assert(c.sent_history@[v - 1] == v);
        }
    }
}

} // verus!
