use component_iroh::addr::{doc_prefix_addr, SocketAddr};
use component_iroh::endpoint::dial::{
    check_bind, plan_dial, transport_profile, DialPath, TransportAddr,
};
use component_iroh::endpoint::drain::{Drain, DrainReply, DrainRequest};
use component_iroh::endpoint::entry::{ConnEvent, Reaction};
use component_iroh::endpoint::error::{other, Error};
use component_iroh::endpoint::pump::{
    Pump, PumpAction, PumpEvent, PumpPhase, Task, LINGER_NS, POLL_NS, TICK_NS,
};
use component_iroh::endpoint::state::State;
use component_iroh::endpoint::stream::{
    finish, read_after_error, read_gate, read_some, source_turn, start_streaming, FinishResult,
    ReadGate, ReadResult, WriteAll, WritePoll, WriteResult,
};

const ALICE: [u8; 32] = [1; 32];

fn udp(port: u16) -> SocketAddr {
    SocketAddr::V4 {
        ip: 0x7f00_0001,
        port,
    }
}

/// Step until the pump waits for an event, and count the datagrams sent.
fn turn(pump: &mut Pump, state: &mut State, now: u64) -> usize {
    let mut sent = 0;
    loop {
        match pump.step(state, now) {
            PumpAction::Select | PumpAction::Stop => return sent,
            PumpAction::SendRelay { .. } => {
                sent += 1;
                pump.on_event(state, PumpEvent::RelaySent(true));
            }
            PumpAction::SendUdp { .. } | PumpAction::SendChannel { .. } => sent += 1,
            _ => {}
        }
    }
}

// Draining.

#[test]
fn draining_asks_each_source_until_it_is_quiet() {
    let mut state = State::new(false);
    state.insert_conn(7, Some(ALICE), false);
    let mut drain = Drain::new();
    let mut reply = |state: &mut State, want: DrainRequest, reply: DrainReply| {
        assert!(state.drain_request(&drain) == want);
        state.drain_reply(&mut drain, reply)
    };
    reply(
        &mut state,
        DrainRequest::EndpointEvent(7),
        DrainReply::EndpointEvent(true),
    );
    reply(
        &mut state,
        DrainRequest::EndpointEvent(7),
        DrainReply::EndpointEvent(false),
    );
    reply(&mut state, DrainRequest::Event(7), DrainReply::Event(None));
    reply(
        &mut state,
        DrainRequest::Transmit(7),
        DrainReply::Transmit(Some((udp(5), vec![1]))),
    );
    reply(
        &mut state,
        DrainRequest::Transmit(7),
        DrainReply::Transmit(None),
    );
    // Something came up, so there is another pass.
    reply(
        &mut state,
        DrainRequest::EndpointEvent(7),
        DrainReply::EndpointEvent(false),
    );
    let reaction = reply(
        &mut state,
        DrainRequest::Event(7),
        DrainReply::Event(Some(ConnEvent::Connected {
            handshake: None,
            certificate: None,
        })),
    );
    assert!(matches!(reaction, Reaction::Close { code: 1, .. }));
    reply(&mut state, DrainRequest::Event(7), DrainReply::Event(None));
    reply(
        &mut state,
        DrainRequest::Transmit(7),
        DrainReply::Transmit(None),
    );
    reply(
        &mut state,
        DrainRequest::EndpointEvent(7),
        DrainReply::EndpointEvent(false),
    );
    reply(&mut state, DrainRequest::Event(7), DrainReply::Event(None));
    reply(
        &mut state,
        DrainRequest::Transmit(7),
        DrainReply::Transmit(None),
    );
    reply(
        &mut state,
        DrainRequest::IsDrained(7),
        DrainReply::IsDrained(true),
    );
    assert!(state.drain_request(&drain) == DrainRequest::Finished);
    assert!(state.conns[0].drained);
    assert_eq!(state.pop_udp(), Some((udp(5), vec![1])));
}

// The pump.

#[test]
fn a_turn_flushes_every_wire() {
    let mut state = State::new(true);
    let standin = state.addr_for_peer(ALICE);
    let channel = state.register_channel(ALICE).unwrap();
    state.route(standin, vec![1]);
    state.route(udp(3), vec![2]);
    state.route(channel, vec![3]);
    let mut pump = Pump::new(true);
    assert!(matches!(pump.step(&mut state, 0), PumpAction::Drain));
    assert_eq!(turn(&mut pump, &mut state, 0), 3);
    assert_eq!(pump.phase, PumpPhase::Select);
    assert_eq!(pump.channel_pending, vec![channel]);

    // Without a socket, what would go out on it is dropped.
    let mut bare = Pump::new(false);
    state.route(udp(3), vec![2]);
    assert_eq!(turn(&mut bare, &mut state, 0), 0);
    assert_eq!(state.pop_udp(), None);
    assert_eq!((TICK_NS, POLL_NS), (10_000_000, 5_000_000));
}

#[test]
fn relayed_datagrams_and_signals_part_ways() {
    let mut state = State::new(true);
    let mut pump = Pump::new(false);
    turn(&mut pump, &mut state, 0);
    let effect = pump.on_event(
        &mut state,
        PumpEvent::RelayReceived(Ok((ALICE, vec![0x40, 1]))),
    );
    assert!(effect.rearm);
    match effect.task {
        Task::Deliver(inbound) => {
            assert_eq!(inbound.addr, doc_prefix_addr(0x77, 1));
            assert_eq!(inbound.payload, vec![0x40, 1]);
        }
        _ => panic!("the datagram was not delivered"),
    }
    turn(&mut pump, &mut state, 0);
    let effect = pump.on_event(
        &mut state,
        PumpEvent::RelayReceived(Ok((ALICE, vec![0x00, 9]))),
    );
    assert!(matches!(effect.task, Task::SpawnAnswerer(peer) if peer == ALICE));
    assert_eq!(state.pop_signal_inbox(ALICE), Some(vec![9]));
    turn(&mut pump, &mut state, 0);
    let effect = pump.on_event(
        &mut state,
        PumpEvent::RelayReceived(Ok((ALICE, vec![0x00, 8]))),
    );
    assert!(matches!(effect.task, Task::Nothing));
}

#[test]
fn ticks_and_sockets_are_armed_again() {
    let mut state = State::new(false);
    let mut pump = Pump::new(true);
    turn(&mut pump, &mut state, 0);
    let effect = pump.on_event(&mut state, PumpEvent::Tick);
    assert!(effect.rearm && matches!(effect.task, Task::HandleTimeouts));
    turn(&mut pump, &mut state, 0);
    let effect = pump.on_event(
        &mut state,
        PumpEvent::UdpReceived(Some((vec![5], udp(4)))),
    );
    assert!(effect.rearm && matches!(effect.task, Task::Deliver(inbound) if inbound.addr == udp(4)));
    turn(&mut pump, &mut state, 0);
    let effect = pump.on_event(&mut state, PumpEvent::UdpReceived(None));
    assert!(!effect.rearm && matches!(effect.task, Task::Nothing));
    assert!(!pump.udp_pending);
}

#[test]
fn dead_channels_are_retired() {
    let mut state = State::new(true);
    let channel = state.register_channel(ALICE).unwrap();
    let mut pump = Pump::new(false);
    turn(&mut pump, &mut state, 0);
    let effect = pump.on_event(
        &mut state,
        PumpEvent::ChannelReceived {
            addr: channel,
            received: Ok(Some(vec![6])),
        },
    );
    assert!(effect.rearm && matches!(effect.task, Task::Deliver(inbound) if inbound.source == Some(ALICE)));
    turn(&mut pump, &mut state, 0);
    let effect = pump.on_event(
        &mut state,
        PumpEvent::ChannelReceived {
            addr: channel,
            received: Ok(None),
        },
    );
    assert!(effect.rearm && matches!(effect.task, Task::Nothing));
    turn(&mut pump, &mut state, 0);
    let effect = pump.on_event(
        &mut state,
        PumpEvent::ChannelReceived {
            addr: channel,
            received: Err("closed".to_string()),
        },
    );
    assert!(!effect.rearm);
    assert!(!state.has_channel(channel));
    assert!(pump.channel_pending.is_empty());
}

#[test]
fn only_the_relay_kills_the_endpoint() {
    let mut state = State::new(true);
    let channel = state.register_channel(ALICE).unwrap();
    let mut pump = Pump::new(true);
    turn(&mut pump, &mut state, 0);
    pump.on_event(&mut state, PumpEvent::UdpReceived(None));
    turn(&mut pump, &mut state, 0);
    pump.on_event(
        &mut state,
        PumpEvent::ChannelReceived {
            addr: channel,
            received: Err("channel closed".to_string()),
        },
    );
    turn(&mut pump, &mut state, 0);
    assert_eq!(state.dead, None);

    state.push_signal_outbound(ALICE, vec![0]);
    pump.on_event(&mut state, PumpEvent::Tick);
    while !matches!(pump.step(&mut state, 0), PumpAction::SendRelay { .. }) {}
    pump.on_event(&mut state, PumpEvent::RelaySent(false));
    assert_eq!(state.dead.as_deref(), Some("relay send failed"));
    turn(&mut pump, &mut state, 0);
    // A receive that fails during the teardown changes nothing.
    pump.on_event(
        &mut state,
        PumpEvent::RelayReceived(Err("relay closed".to_string())),
    );
    assert_eq!(state.dead.as_deref(), Some("relay send failed"));
}

#[test]
fn a_stopped_pump_has_resolved_everything() {
    let mut state = State::new(true);
    let channel = state.register_channel(ALICE).unwrap();
    state.insert_conn(1, None, false);
    let mut pump = Pump::new(true);
    turn(&mut pump, &mut state, 0);
    pump.on_event(
        &mut state,
        PumpEvent::RelayReceived(Err("relay closed".to_string())),
    );
    assert_eq!(state.dead.as_deref(), Some("relay closed"));
    assert!(matches!(state.poll_error(1), Some(Error::Closed)));
    assert!(matches!(pump.step(&mut state, 0), PumpAction::CloseRelay));
    assert!(matches!(pump.step(&mut state, 0), PumpAction::WakeUdp));
    assert!(matches!(pump.step(&mut state, 0), PumpAction::CloseChannels));
    turn(&mut pump, &mut state, 0);
    assert_eq!(pump.phase, PumpPhase::AwaitUdp);
    pump.on_event(&mut state, PumpEvent::UdpReceived(None));
    turn(&mut pump, &mut state, 0);
    pump.on_event(
        &mut state,
        PumpEvent::ChannelReceived {
            addr: channel,
            received: Err("closed".to_string()),
        },
    );
    turn(&mut pump, &mut state, 0);
    assert_eq!(pump.phase, PumpPhase::AwaitTick);
    pump.on_event(&mut state, PumpEvent::Tick);
    assert!(matches!(pump.step(&mut state, 0), PumpAction::Stop));
    assert!(!pump.relay_pending && !pump.udp_pending && !pump.tick_pending);
    assert!(pump.channel_pending.is_empty());
}

#[test]
fn a_failed_send_kills_the_endpoint() {
    let mut state = State::new(false);
    state.push_signal_outbound(ALICE, vec![0]);
    let mut pump = Pump::new(false);
    pump.step(&mut state, 0);
    assert!(matches!(
        pump.step(&mut state, 0),
        PumpAction::SendRelay { .. }
    ));
    pump.on_event(&mut state, PumpEvent::RelaySent(false));
    assert_eq!(state.dead.as_deref(), Some("relay send failed"));
    assert_eq!(pump.phase, PumpPhase::CloseRelay);
    assert!(pump.relay_pending);
    // During the teardown the relay receive is kept up until it fails.
    turn(&mut pump, &mut state, 0);
    let effect = pump.on_event(&mut state, PumpEvent::RelayReceived(Ok((ALICE, vec![1]))));
    assert!(effect.rearm && matches!(effect.task, Task::Nothing));
    pump.on_event(
        &mut state,
        PumpEvent::RelayReceived(Err("gone".to_string())),
    );
    assert_eq!(state.dead.as_deref(), Some("relay send failed"));
    turn(&mut pump, &mut state, 0);
    assert_eq!(pump.phase, PumpPhase::AwaitTick);
}

#[test]
fn a_closed_endpoint_lingers() {
    let mut state = State::new(false);
    state.insert_conn(1, None, false);
    state.close(1000);
    let mut pump = Pump::new(false);
    turn(&mut pump, &mut state, 1000 + LINGER_NS - 1);
    assert_eq!(pump.phase, PumpPhase::Select);
    pump.on_event(&mut state, PumpEvent::Tick);
    turn(&mut pump, &mut state, 1000 + LINGER_NS);
    assert_eq!(pump.phase, PumpPhase::AwaitRelay);

    let mut state = State::new(false);
    state.insert_conn(1, None, false);
    state.mark_drained(1);
    state.close(1000);
    let mut pump = Pump::new(false);
    turn(&mut pump, &mut state, 1000);
    assert_eq!(pump.phase, PumpPhase::AwaitRelay);
}

// Dialing.

const RELAY: &str = "https://relay.example/";

fn plan(addrs: Vec<TransportAddr>, has_udp: bool, webrtc: bool) -> Result<DialPath, Error> {
    plan_dial(&ALICE, &addrs, RELAY, has_udp, webrtc).map(|plan| {
        assert_eq!(plan.peer, ALICE);
        plan.path
    })
}

fn offers() -> Vec<TransportAddr> {
    vec![
        TransportAddr::Relay("https://relay.example".to_string()),
        TransportAddr::Webrtc("https://relay.example//".to_string()),
        TransportAddr::Ip(None),
        TransportAddr::Ip(Some(udp(1))),
        TransportAddr::Ip(Some(udp(2))),
        TransportAddr::Custom,
    ]
}

#[test]
fn dials_follow_the_fixed_precedence() {
    assert_eq!(
        plan(offers(), true, true).unwrap(),
        DialPath::Direct(udp(1))
    );
    assert_eq!(plan(offers(), false, true).unwrap(), DialPath::Relay);
    assert_eq!(plan(offers(), false, false).unwrap(), DialPath::Relay);
    assert_eq!(plan(vec![], true, true).unwrap(), DialPath::Relay);
}

#[test]
fn channels_only_upgrade_relay_dials() {
    let upgrade = |addrs: Vec<TransportAddr>, has_udp: bool, webrtc: bool| {
        plan_dial(&ALICE, &addrs, RELAY, has_udp, webrtc)
            .unwrap()
            .upgrade
    };
    assert!(upgrade(offers(), false, true));
    assert!(!upgrade(offers(), true, true));
    assert!(!upgrade(offers(), false, false));
    assert!(!upgrade(vec![], false, true));
}

#[test]
fn every_wire_shares_one_transport_profile() {
    let profile = transport_profile();
    assert_eq!(profile.initial_mtu, 1200);
    assert!(!profile.mtu_discovery);
    assert_eq!(profile.max_datagrams, 1);
}

#[test]
fn unreachable_addresses_are_refused() {
    let foreign = || "https://other.example".to_string();
    match plan(vec![TransportAddr::Relay(foreign())], true, true) {
        Err(Error::ConnectFailed(detail)) => {
            assert_eq!(detail, "cross-relay dialing is not implemented yet")
        }
        _ => panic!("a foreign relay was dialed"),
    }
    match plan(vec![TransportAddr::Webrtc(foreign())], true, true) {
        Err(Error::ConnectFailed(detail)) => assert_eq!(
            detail,
            "webrtc signaling through a foreign relay is not implemented yet"
        ),
        _ => panic!("a foreign relay was signaled through"),
    }
    assert_eq!(
        plan(vec![TransportAddr::Webrtc(foreign())], true, false).unwrap(),
        DialPath::Relay
    );
    match plan_dial(&[0; 31], &vec![], RELAY, false, false) {
        Err(Error::InvalidArgument(detail)) => assert_eq!(detail, "endpoint id is not 32 bytes"),
        _ => panic!("a short id was dialed"),
    }
}

#[test]
fn binding_needs_a_relay_and_a_protocol() {
    let alpns = vec![b"demo/0".to_vec()];
    assert_eq!(check_bind(Some(RELAY.to_string()), &alpns).unwrap(), RELAY);
    match check_bind(None, &alpns) {
        Err(Error::InvalidArgument(detail)) => assert_eq!(
            detail,
            "bind requires a relay-url (the relay wire is the only path yet)"
        ),
        _ => panic!("bound without a relay"),
    }
    match check_bind(Some(RELAY.to_string()), &vec![]) {
        Err(Error::InvalidArgument(detail)) => {
            assert_eq!(detail, "bind requires at least one alpn")
        }
        _ => panic!("bound without a protocol"),
    }
}

// Streams.

#[test]
fn writes_continue_where_they_stopped() {
    let mut write = WriteAll::new(vec![1, 2, 3]);
    assert!(matches!(
        write.on_write(WriteResult::Written(2)),
        WritePoll::Again
    ));
    assert_eq!(write.offset, 2);
    assert!(matches!(
        write.on_write(WriteResult::Blocked),
        WritePoll::Wait
    ));
    assert!(matches!(
        write.on_write(WriteResult::Written(0)),
        WritePoll::Wait
    ));
    assert!(matches!(
        write.on_write(WriteResult::Written(1)),
        WritePoll::Done
    ));
    let mut write = WriteAll::new(vec![1]);
    assert!(matches!(
        write.on_write(WriteResult::Stopped(42)),
        WritePoll::Failed(Error::Reset(code)) if code == "42"
    ));
    assert!(matches!(
        write.on_write(WriteResult::ClosedStream),
        WritePoll::Failed(Error::Closed)
    ));
}

#[test]
fn reads_tell_bytes_from_the_end() {
    assert!(matches!(
        read_some(ReadResult::Chunk(vec![4])),
        Some(Ok(Some(bytes))) if bytes == vec![4]
    ));
    assert!(matches!(read_some(ReadResult::Finished), Some(Ok(None))));
    assert!(matches!(read_some(ReadResult::ClosedStream), Some(Ok(None))));
    assert!(read_some(ReadResult::Blocked).is_none());
    assert!(matches!(
        read_some(ReadResult::Reset(7)),
        Some(Err(Error::Reset(code))) if code == "7"
    ));
    assert!(matches!(
        read_some(ReadResult::IllegalOrderedRead),
        Some(Err(Error::Other(detail))) if detail == "illegal ordered read"
    ));
    assert!(matches!(read_after_error(Error::Closed), Ok(None)));
    assert!(matches!(
        read_after_error(other("broken")),
        Err(Error::Other(detail)) if detail == "broken"
    ));
}

#[test]
fn forwarded_streams_refuse_reads() {
    let mut streaming = false;
    assert!(matches!(read_gate(streaming, 5), ReadGate::Read));
    assert!(matches!(read_gate(streaming, 0), ReadGate::Empty));
    assert!(start_streaming(&mut streaming).is_ok());
    assert!(matches!(
        read_gate(streaming, 0),
        ReadGate::Refused(Error::Other(detail))
            if detail == "the stream's bytes were taken by read-via-stream"
    ));
    assert!(matches!(
        start_streaming(&mut streaming),
        Err(Error::Other(detail)) if detail == "read-via-stream may be called once"
    ));
    assert!(streaming);
}

#[test]
fn finishing_reports_the_connection_first() {
    assert!(finish(None, FinishResult::Finished).is_ok());
    assert!(matches!(
        finish(Some(other("lost")), FinishResult::Finished),
        Err(Error::Other(detail)) if detail == "lost"
    ));
    assert!(matches!(
        finish(None, FinishResult::Stopped(3)),
        Err(Error::Reset(code)) if code == "3"
    ));
    assert!(matches!(
        finish(None, FinishResult::ClosedStream),
        Err(Error::Closed)
    ));
    let turn = source_turn(3, false);
    assert!(turn.write && !turn.finish);
    let turn = source_turn(0, true);
    assert!(!turn.write && turn.finish);
}
