use component_iroh::addr::{doc_prefix_addr, SocketAddr};
use component_iroh::endpoint::conn::{
    handle_timeouts, ConnectionState, Deadline, Dir, ENDPOINT_CLOSED, ENDPOINT_DROPPED,
};
use component_iroh::endpoint::entry::{on_event, ConnEntry, ConnEvent, LossReason, Reaction};
use component_iroh::endpoint::error::Error;
use component_iroh::endpoint::path::{PathKind, Upgrades};
use component_iroh::endpoint::state::{AcceptOutcome, DatagramAction, DatagramOutcome, State};
use std::collections::VecDeque;

fn spki(id: [u8; 32]) -> Vec<u8> {
    let mut der = hex::decode("302a300506032b6570032100").unwrap();
    der.extend_from_slice(&id);
    der
}

fn connected(id: [u8; 32]) -> ConnEvent {
    ConnEvent::Connected {
        handshake: Some(Some(b"demo/0".to_vec())),
        certificate: Some(spki(id)),
    }
}

fn udp(port: u16) -> SocketAddr {
    SocketAddr::V4 {
        ip: 0x7f00_0001,
        port,
    }
}

const ALICE: [u8; 32] = [1; 32];
const BOB: [u8; 32] = [2; 32];

#[test]
fn peers_keep_their_standins() {
    let mut state = State::new(false);
    let alice = state.addr_for_peer(ALICE);
    let bob = state.addr_for_peer(BOB);
    assert_eq!(alice, doc_prefix_addr(0x77, 1));
    assert_eq!(bob, doc_prefix_addr(0x77, 2));
    assert_eq!(state.addr_for_peer(ALICE), alice);
    assert_eq!(state.peer_at(alice), Some(ALICE));
    assert_eq!(state.peer_at(bob), Some(BOB));
    assert_eq!(state.peer_at(doc_prefix_addr(0x77, 3)), None);
    assert_eq!(state.peer_at(doc_prefix_addr(0x78, 1)), None);
}

#[test]
fn transmits_take_the_wire_of_their_destination() {
    let mut state = State::new(true);
    let standin = state.addr_for_peer(ALICE);
    let channel = state.register_channel(BOB).unwrap();
    assert_eq!(channel, doc_prefix_addr(0x78, 1));
    state.route(standin, vec![1]);
    state.route(channel, vec![2]);
    state.route(udp(9), vec![3]);
    assert_eq!(state.pop_relay(), Some((ALICE, vec![1])));
    assert_eq!(state.pop_channel(), Some((channel, vec![2])));
    assert_eq!(state.pop_udp(), Some((udp(9), vec![3])));
    assert_eq!(state.pop_relay(), None);
    assert_eq!(state.pop_channel(), None);
    assert_eq!(state.pop_udp(), None);

    state.remove_channel(channel);
    assert!(!state.has_channel(channel));
    state.route(channel, vec![4]);
    assert_eq!(state.pop_udp(), Some((channel, vec![4])));
}

#[test]
fn channels_are_registered_once() {
    let mut state = State::new(true);
    let first = state.register_channel(ALICE).unwrap();
    let second = state.register_channel(ALICE).unwrap();
    assert_ne!(first, second);
    assert_eq!(state.pop_new_channel(), Some(first));
    assert_eq!(state.pop_new_channel(), Some(second));
    assert_eq!(state.pop_new_channel(), None);
    let inbound = state.handle_channel_datagram(first, vec![7]).unwrap();
    assert_eq!(inbound.addr, first);
    assert_eq!(inbound.source, Some(ALICE));
    assert_eq!(inbound.payload, vec![7]);
    state.remove_channel(first);
    assert!(state.handle_channel_datagram(first, vec![7]).is_none());
    state.close(5);
    assert!(matches!(state.register_channel(BOB), Err(Error::Closed)));
}

#[test]
fn one_signaling_session_per_peer() {
    let mut state = State::new(true);
    assert!(state.begin_signaling(ALICE).is_ok());
    match state.begin_signaling(ALICE) {
        Err(Error::ConnectFailed(detail)) => {
            assert_eq!(
                detail,
                "a webrtc signaling session with this peer is already active"
            )
        }
        _ => panic!("a second session was claimed"),
    }
    assert!(state.begin_signaling(BOB).is_ok());
    state.end_signaling(ALICE);
    assert!(state.begin_signaling(ALICE).is_ok());
}

#[test]
fn signals_are_filed_and_capped() {
    let mut state = State::new(true);
    assert!(state.handle_signal(ALICE, &[0]));
    for i in 1..70u8 {
        assert!(!state.handle_signal(ALICE, &[i]));
    }
    for i in 0..64u8 {
        assert_eq!(state.pop_signal_inbox(ALICE), Some(vec![i]));
    }
    assert_eq!(state.pop_signal_inbox(ALICE), None);
    assert!(!state.handle_signal(ALICE, &[9]));
    state.end_signaling(ALICE);
    assert_eq!(state.pop_signal_inbox(ALICE), None);

    let mut disabled = State::new(false);
    assert!(!disabled.handle_signal(ALICE, &[1]));
    assert_eq!(disabled.pop_signal_inbox(ALICE), None);

    state.push_signal_outbound(BOB, vec![0, 5]);
    assert_eq!(state.pop_relay(), Some((BOB, vec![0, 5])));
}

#[test]
fn datagrams_are_dispatched() {
    let mut state = State::new(false);
    let inbound = state.handle_relay_datagram(ALICE, vec![1, 2]);
    assert_eq!(inbound.addr, doc_prefix_addr(0x77, 1));
    assert_eq!(inbound.source, Some(ALICE));
    let direct = state.handle_udp_datagram(udp(1), vec![3]);
    assert_eq!(direct.source, None);
    assert_eq!(direct.addr, udp(1));

    state.insert_conn(4, Some(ALICE), false);
    assert!(
        state.handle_datagram(udp(1), None, DatagramOutcome::ConnectionEvent(4))
            == DatagramAction::Deliver(4)
    );
    assert!(
        state.handle_datagram(udp(1), None, DatagramOutcome::ConnectionEvent(5))
            == DatagramAction::Nothing
    );
    assert!(
        state.handle_datagram(udp(1), None, DatagramOutcome::NewConnection)
            == DatagramAction::Accept
    );
    assert!(
        state.handle_datagram(udp(1), None, DatagramOutcome::Ignored) == DatagramAction::Nothing
    );
    state.handle_datagram(udp(1), None, DatagramOutcome::Response(vec![8]));
    assert_eq!(state.pop_udp(), Some((udp(1), vec![8])));
    state.handle_datagram(inbound.addr, Some(ALICE), DatagramOutcome::Response(vec![9]));
    assert_eq!(state.pop_relay(), Some((ALICE, vec![9])));

    state.handle_accept(udp(2), Some(BOB), AcceptOutcome::Accepted(6));
    assert!(state.conns[state.find_conn(6).unwrap()].accepted_side);
    state.handle_accept(udp(2), None, AcceptOutcome::Refused(Some(vec![1])));
    assert_eq!(state.pop_udp(), Some((udp(2), vec![1])));
    state.handle_accept(udp(2), None, AcceptOutcome::Refused(None));
    assert_eq!(state.pop_udp(), None);

    state.close(1);
    assert!(
        state.handle_datagram(udp(1), None, DatagramOutcome::NewConnection)
            == DatagramAction::Nothing
    );
}

#[test]
fn handshakes_authenticate_the_addressed_peer() {
    let mut queue: VecDeque<usize> = VecDeque::new();
    let mut entry = ConnEntry::new(3, Some(ALICE), true);
    assert!(matches!(
        on_event(&mut entry, connected(ALICE), &mut queue),
        Reaction::Nothing
    ));
    assert!(entry.connected);
    assert_eq!(entry.peer, Some(ALICE));
    assert_eq!(entry.alpn, b"demo/0");
    assert_eq!(queue, VecDeque::from([3]));

    let mut dialed = ConnEntry::new(4, None, false);
    on_event(&mut dialed, connected(BOB), &mut queue);
    assert_eq!(dialed.peer, Some(BOB));
    assert_eq!(queue.len(), 1);
}

#[test]
fn mismatched_identities_never_surface() {
    let events = [
        connected(BOB),
        ConnEvent::Connected {
            handshake: Some(None),
            certificate: None,
        },
        ConnEvent::Connected {
            handshake: None,
            certificate: Some(vec![1, 2, 3]),
        },
    ];
    for event in events {
        let mut queue: VecDeque<usize> = VecDeque::new();
        let mut entry = ConnEntry::new(3, Some(ALICE), true);
        match on_event(&mut entry, event, &mut queue) {
            Reaction::Close { code, reason } => {
                assert_eq!(code, 1);
                assert_eq!(reason, "identity mismatch");
            }
            Reaction::Nothing => panic!("a mismatch went through"),
        }
        assert!(!entry.connected);
        assert_eq!(entry.peer, None);
        assert!(queue.is_empty());
        match entry.error {
            Some(Error::ConnectFailed(detail)) => {
                assert_eq!(detail, "authenticated key differs from the addressed peer")
            }
            _ => panic!("no error was recorded"),
        }
    }
}

#[test]
fn lost_connections_leave_their_error() {
    let mut queue: VecDeque<usize> = VecDeque::new();
    let mut entry = ConnEntry::new(0, None, false);
    on_event(
        &mut entry,
        ConnEvent::ConnectionLost {
            reason: LossReason::Failed("timed out".to_string()),
        },
        &mut queue,
    );
    match &entry.error {
        Some(Error::Other(detail)) => assert_eq!(detail, "connection lost: timed out"),
        _ => panic!("no error was recorded"),
    }
    for reason in [LossReason::ApplicationClosed, LossReason::LocallyClosed] {
        let mut entry = ConnEntry::new(0, None, false);
        on_event(&mut entry, ConnEvent::ConnectionLost { reason }, &mut queue);
        assert!(matches!(entry.error, Some(Error::Closed)));
    }
}

#[test]
fn streams_are_accepted_in_order() {
    let mut state = State::new(false);
    state.insert_conn(2, None, true);
    let mut queue: VecDeque<usize> = VecDeque::new();
    on_event(
        &mut state.conns[0],
        ConnEvent::StreamsOpened {
            bidirectional: vec![0, 4],
            unidirectional: vec![2],
        },
        &mut queue,
    );
    assert!(matches!(state.accept_stream(2, Dir::Bi), Some(Ok(0))));
    assert!(matches!(state.accept_stream(2, Dir::Uni), Some(Ok(2))));
    assert!(state.accept_stream(2, Dir::Uni).is_none());
    state.mark_dead("relay closed");
    assert!(matches!(
        state.accept_stream(2, Dir::Bi),
        Some(Err(Error::Closed))
    ));
}

#[test]
fn streams_outlive_their_connection_but_not_the_endpoint() {
    let opened = || ConnEvent::StreamsOpened {
        bidirectional: vec![0, 4],
        unidirectional: vec![],
    };
    let mut state = State::new(false);
    state.insert_conn(2, None, true);
    let mut queue: VecDeque<usize> = VecDeque::new();
    on_event(&mut state.conns[0], opened(), &mut queue);
    on_event(
        &mut state.conns[0],
        ConnEvent::ConnectionLost {
            reason: LossReason::Failed("timed out".to_string()),
        },
        &mut queue,
    );
    assert!(matches!(state.accept_stream(2, Dir::Bi), Some(Ok(0))));
    state.close(7);
    match state.accept_stream(2, Dir::Bi) {
        Some(Err(Error::Other(detail))) => assert_eq!(detail, "connection lost: timed out"),
        _ => panic!("a closed endpoint handed out a stream"),
    }
}

#[test]
fn nothing_succeeds_on_an_endpoint_that_is_over() {
    let ends: [fn(&mut State); 2] = [
        |state| state.mark_dead("relay closed"),
        |state| {
            state.close(7);
        },
    ];
    for end in ends {
        let mut state = State::new(false);
        state.insert_conn(2, Some(ALICE), true);
        let mut queue: VecDeque<usize> = VecDeque::new();
        on_event(&mut state.conns[0], connected(ALICE), &mut queue);
        state.accept_queue = queue;
        assert!(state.poll_error(2).is_none());
        assert!(state.poll_read(2).is_none());
        end(&mut state);
        assert!(matches!(state.poll_accept(), Some(Err(Error::Closed))));
        assert_eq!(state.accept_queue.len(), 1);
        assert!(matches!(state.poll_connected(2), Some(Err(Error::Closed))));
        assert!(matches!(state.poll_error(2), Some(Error::Closed)));
        assert!(matches!(
            state.begin_dial(ALICE, None),
            Err(Error::Closed)
        ));
    }
}

#[test]
fn reads_end_on_a_closed_endpoint_and_fail_on_a_dead_one() {
    let mut state = State::new(false);
    state.insert_conn(2, None, false);
    state.close(7);
    assert!(matches!(state.poll_read(2), Some(Ok(None))));
    state.mark_dead("relay closed");
    assert!(matches!(state.poll_read(2), Some(Err(Error::Closed))));
}

#[test]
fn relay_traffic_flips_to_a_channel_and_back() {
    let mut state = State::new(true);
    let mut upgrades = Upgrades::new();
    let home = state.addr_for_peer(ALICE);
    assert_eq!(state.path_of(home), PathKind::Relay);
    assert_eq!(state.path_of(udp(9)), PathKind::Ip);
    assert_eq!(upgrades.outbound(&state, home), home);

    let channel = state.register_channel(ALICE).unwrap();
    assert_eq!(state.channel_peer(channel), Some(ALICE));
    assert_eq!(upgrades.outbound(&state, home), home);
    assert_eq!(upgrades.inbound(&state, ALICE, channel), channel);
    upgrades.flip(ALICE, channel);
    assert_eq!(upgrades.outbound(&state, home), channel);
    assert_eq!(upgrades.outbound(&state, udp(9)), udp(9));
    assert_eq!(state.path_of(channel), PathKind::Webrtc);
    assert_eq!(upgrades.inbound(&state, ALICE, channel), home);
    assert_eq!(upgrades.inbound(&state, ALICE, home), home);

    // A later channel takes over.
    let second = state.register_channel(ALICE).unwrap();
    upgrades.flip(ALICE, second);
    assert_eq!(upgrades.outbound(&state, home), second);
    assert_eq!(upgrades.inbound(&state, ALICE, channel), channel);

    // Its death sends the traffic back through the relay.
    state.remove_channel(second);
    assert_eq!(upgrades.outbound(&state, home), home);
    assert_eq!(state.channel_peer(second), None);
    assert_eq!(state.path_of(upgrades.outbound(&state, home)), PathKind::Relay);
}

#[test]
fn channels_carry_only_their_own_peer() {
    let mut state = State::new(true);
    let mut upgrades = Upgrades::new();
    let home = state.addr_for_peer(ALICE);
    let channel = state.register_channel([2; 32]).unwrap();
    upgrades.flip(ALICE, channel);
    assert_eq!(upgrades.outbound(&state, home), home);
}

#[test]
fn holders_see_a_connection_open_and_close() {
    let mut state = State::new(false);
    state.insert_conn(2, Some(ALICE), true);
    assert_eq!(state.state(2), ConnectionState::Connecting);
    assert!(state.poll_connected(2).is_none());
    assert!(state.peer(2).is_empty());
    assert!(state.alpn(2).is_empty());
    let mut queue: VecDeque<usize> = VecDeque::new();
    on_event(&mut state.conns[0], connected(ALICE), &mut queue);
    state.accept_queue = queue;
    assert_eq!(state.state(2), ConnectionState::Open);
    assert!(matches!(state.poll_connected(2), Some(Ok(()))));
    assert_eq!(state.peer(2), ALICE.to_vec());
    assert_eq!(state.alpn(2), b"demo/0".to_vec());
    assert!(matches!(state.poll_accept(), Some(Ok(2))));
    assert!(state.poll_accept().is_none());
    state.mark_drained(2);
    assert_eq!(state.state(2), ConnectionState::Closed);
    state.mark_dead("relay closed");
    assert!(matches!(state.poll_accept(), Some(Err(Error::Closed))));
    assert!(matches!(state.poll_error(2), Some(Error::Closed)));
}

#[test]
fn closing_names_the_open_connections_once() {
    let mut state = State::new(false);
    state.insert_conn(1, None, true);
    state.insert_conn(2, None, true);
    state.insert_conn(3, None, true);
    state.mark_drained(2);
    assert_eq!(state.close_all(), vec![1, 3]);
    assert_eq!(state.close(77), vec![1, 3]);
    assert_eq!(state.closed_at, Some(77));
    assert!(state.is_closed_or_dead());
    assert_eq!(state.close(99), Vec::<usize>::new());
    assert_eq!(state.closed_at, Some(77));
    assert!(matches!(
        state.begin_dial(ALICE, Some(udp(1))),
        Err(Error::Closed)
    ));
    assert_eq!(ENDPOINT_CLOSED, "endpoint closed");
    assert_eq!(ENDPOINT_DROPPED, "endpoint dropped");
}

#[test]
fn dials_take_the_chosen_address_or_the_standin() {
    let mut state = State::new(false);
    assert_eq!(state.begin_dial(ALICE, Some(udp(1))).unwrap(), udp(1));
    assert!(state.peers.is_empty());
    assert_eq!(
        state.begin_dial(ALICE, None).unwrap(),
        doc_prefix_addr(0x77, 1)
    );
    assert_eq!(state.peers, vec![ALICE]);
}

#[test]
fn due_timers_are_run() {
    let deadlines = vec![
        Deadline {
            handle: 1,
            at: Some(10),
        },
        Deadline {
            handle: 2,
            at: None,
        },
        Deadline {
            handle: 3,
            at: Some(11),
        },
        Deadline {
            handle: 4,
            at: Some(9),
        },
    ];
    assert_eq!(handle_timeouts(&deadlines, 10), vec![1, 4]);
    assert_eq!(handle_timeouts(&deadlines, 8), Vec::<usize>::new());
}

#[test]
fn dials_are_recorded_with_the_dialed_identity() {
    let mut state = State::new(false);
    state.record_dial(3, ALICE);
    assert_eq!(state.conns[0].expected_peer, Some(ALICE));
    assert!(!state.conns[0].accepted_side);
    let mut queue: VecDeque<usize> = VecDeque::new();
    on_event(&mut state.conns[0], connected(ALICE), &mut queue);
    assert!(queue.is_empty());
    assert!(matches!(state.poll_connected(3), Some(Ok(()))));
    assert_eq!(state.peer(3), ALICE.to_vec());

    state.record_dial(4, ALICE);
    on_event(&mut state.conns[1], connected([2; 32]), &mut queue);
    assert!(matches!(
        state.poll_connected(4),
        Some(Err(Error::ConnectFailed(_)))
    ));
    assert!(state.peer(4).is_empty());
}
