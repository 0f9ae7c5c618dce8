//! End-to-end scenarios: a client and a server coupled by a simulated
//! in-process transport, driven at the default cadence.

use consistency::client::{ClientState, ClientTickOutcome};
use consistency::lifecycle::ConnectionEvent;
use consistency::messages::{ClientMessage, ClientOutbound, ServerMessage};
use consistency::schedule::{run_complete, DEFAULT_TICK_MICROS};
use consistency::server::ServerState;
use consistency::stats::{derive_client_report, derive_server_report};

/// Runs both roles for `duration_micros` of simulated time. Within each
/// iteration the server is ticked first, with the client messages the
/// transport picked up in the previous iteration; the server's replies reach
/// the client in the same iteration. `duplicate_every_third` makes the
/// transport deliver every third unreliable client message twice, in order.
fn run_coupled(
    duration_micros: u64,
    duplicate_every_third: bool,
) -> (ServerState, ClientState, u64) {
    let period = DEFAULT_TICK_MICROS;
    let mut server = ServerState::new();
    let mut client = ClientState::new(0);
    let mut in_flight: Vec<ClientMessage> = Vec::new();
    let mut unreliable_seen: u64 = 0;
    let mut duplicates_injected: u64 = 0;
    let mut tick: u64 = 0;
    loop {
        let now = tick * period;
        let events = if tick == 0 {
            vec![ConnectionEvent::Connect { client_id: 1 }]
        } else {
            Vec::new()
        };
        let server_out = server.tick(now, 0, &events, &in_flight);
        let to_client: Vec<ServerMessage> = server_out.into_iter().map(|o| o.message).collect();
        let ClientTickOutcome { fatal, outbound } = client.tick(now, period, &to_client, 0);
        assert!(!fatal);
        in_flight = Vec::new();
        for ClientOutbound { message, .. } in outbound {
            let is_update = matches!(message, ClientMessage::PlayerMove { .. });
            if is_update {
                unreliable_seen += 1;
            }
            in_flight.push(message.clone());
            if is_update && duplicate_every_third && unreliable_seen % 3 == 0 {
                duplicates_injected += 1;
                in_flight.push(message);
            }
        }
        let end_of_tick = (tick + 1) * period;
        if run_complete(end_of_tick, duration_micros, client.connected) {
            break;
        }
        tick += 1;
    }
    (server, client, duplicates_injected)
}

#[test]
fn ten_seconds_against_a_lossless_in_order_transport() {
    let (server, client, _) = run_coupled(10_000_000, false);

    // 640 ticks at 1/64 s: the handshake tick does not send, so one short of
    // the tick count, within the one-update boundary allowance.
    let client_report = derive_client_report(&client);
    assert_eq!(client_report.total_ticks, 640);
    assert_eq!(client_report.total_sent, 639);

    let server_report = derive_server_report(&server);
    let metrics = server_report.metrics.unwrap();
    assert_eq!(metrics.out_of_order, 0);
    assert!(client_report.total_received <= client_report.total_sent);
    assert!(client_report.lost == client_report.total_sent - client_report.total_received);

    // In-flight messages aside, everything that arrived is contiguous.
    let range = metrics.range.unwrap();
    assert_eq!(range.first, 1);
    assert_eq!(range.lost, 0);
    assert_eq!(server_report.total_received, range.expected);

    // The lossless in-order transport delivered the emitted numbers as they
    // were sent: exactly 1, 2, ..., with no repeats, one still in flight.
    let expected: Vec<u64> = (1..=638).collect();
    assert_eq!(server.recv_sequences, expected);
}

#[test]
fn duplicating_every_third_update_shows_up_as_out_of_order() {
    let (server, _, duplicates_injected) = run_coupled(2_000_000, true);
    assert!(duplicates_injected > 0);

    // Each injected duplicate follows its original directly, so it is exactly
    // one non-increasing adjacent pair.
    let metrics = derive_server_report(&server).metrics.unwrap();
    assert!(metrics.out_of_order > 0);
    assert_eq!(metrics.out_of_order, duplicates_injected);
}

#[test]
fn a_run_with_no_connection_reports_no_data() {
    let mut server = ServerState::new();
    for tick in 0..256u64 {
        let out = server.tick(tick * DEFAULT_TICK_MICROS, 0, &Vec::new(), &Vec::new());
        assert!(out.is_empty());
    }
    let report = derive_server_report(&server);
    assert_eq!(report.total_ticks, 0);
    assert_eq!(report.total_received, 0);
    // No metrics are derived: the printed report says "No data received."
    // instead of computing any percentage.
    assert!(report.metrics.is_none());
}
