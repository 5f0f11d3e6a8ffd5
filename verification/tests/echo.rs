use component_iroh::addr::SocketAddr;
use component_iroh::echo::{
    client_addr, peer_endpoint_id, server_addr, App, AppAction, AppEvent, LINGER_NS, PeerIdentity, RUN_DEADLINE_NS, ReadEnd, ReadTurn, Role, SendKind, SendOutcome, SendRequest, SendStage, Sending, Wire, WireMessage,
};
use component_iroh::echo_run::{
    datagram_remote, handle_datagram, setup, setup_fault_message, ConnRef, DatagramTask, Handled,
    Quiesce, QuiescePhase, QuiesceReply, QuiesceRequest, Run, RunAction, RunEvent, Setup,
    SetupFault,
};

const MS: u64 = 1_000_000;

fn spki(id: [u8; 32]) -> Vec<u8> {
    let mut der = hex::decode("302a300506032b6570032100").unwrap();
    der.extend_from_slice(&id);
    der
}

fn connected(id: [u8; 32]) -> AppEvent {
    AppEvent::Connected {
        identity: PeerIdentity::Certificates(vec![spki(id)]),
    }
}

fn client() -> App {
    App::new(Role::Client {
        message: "h\u{e9}llo".to_string(),
    })
}

fn finished(chunks: Vec<Vec<u8>>) -> Option<ReadTurn> {
    Some(ReadTurn {
        chunks,
        end: ReadEnd::Finished,
    })
}

/// A client that has its echo.
fn done_client() -> App {
    let mut app = client();
    app.handle_event(connected([1; 32]), 0, 5 * MS).ok().unwrap();
    app.stream = Some(0);
    app.sent_at = Some(10 * MS);
    app.read_stream(0, finished(vec![b"HI".to_vec()]), 13 * MS)
        .unwrap();
    app
}

// The wire.

#[test]
fn channels_carry_binary_messages() {
    let mut wire = Wire::Channel;
    assert_eq!(wire.receive(WireMessage::Binary(vec![1])), Some(vec![1]));
    assert_eq!(wire.receive(WireMessage::Text), None);
    assert_eq!(wire.send(), Ok(None));
    assert_eq!(wire.peer(), None);
}

#[test]
fn relay_wires_bind_to_their_first_peer() {
    let mut wire = Wire::Relay { peer: None };
    assert_eq!(wire.send(), Err("relay wire has no peer yet".to_string()));
    let from = |source: u8| WireMessage::Relayed {
        source: [source; 32],
        payload: vec![source],
    };
    assert_eq!(wire.receive(from(1)), Some(vec![1]));
    assert_eq!(wire.receive(from(2)), None);
    assert_eq!(wire.receive(from(1)), Some(vec![1]));
    assert_eq!(wire.peer(), Some([1; 32]));
    assert_eq!(wire.send(), Ok(Some([1; 32])));
}

#[test]
fn sides_have_distinct_addresses() {
    assert_eq!(
        client_addr(),
        SocketAddr::V4 {
            ip: 0x0a00_0001,
            port: 1111
        }
    );
    assert_eq!(
        server_addr(),
        SocketAddr::V4 {
            ip: 0x0a00_0002,
            port: 4433
        }
    );
}

// The exchange.

#[test]
fn peer_identities_come_from_the_first_certificate() {
    assert_eq!(
        peer_endpoint_id(&PeerIdentity::Certificates(vec![spki([3; 32]), vec![]])),
        Ok([3; 32])
    );
    for (identity, reason) in [
        (PeerIdentity::Missing, "peer presented no identity"),
        (PeerIdentity::UnexpectedType, "unexpected peer identity type"),
        (
            PeerIdentity::Certificates(vec![]),
            "empty peer certificate list",
        ),
        (
            PeerIdentity::Certificates(vec![vec![0; 44]]),
            "peer key is not Ed25519",
        ),
    ] {
        assert_eq!(peer_endpoint_id(&identity), Err(reason.to_string()));
    }
}

#[test]
fn clients_send_their_message_and_time_the_echo() {
    let mut app = client();
    let mut sending = match app.handle_event(connected([1; 32]), 2 * MS, 9 * MS) {
        Ok(AppAction::Send(sending)) => sending,
        _ => panic!("nothing was sent"),
    };
    assert_eq!(app.handshake_ms, Some(7));
    assert_eq!(app.peer_id, Some([1; 32]));
    // The stream is opened, written and finished, in this order.
    assert_eq!(sending.bytes, "h\u{e9}llo".as_bytes());
    assert_eq!(sending.kind, SendKind::Message);
    assert_eq!(sending.request(), SendRequest::Open);
    let outcome = SendOutcome::Opened(Some(4));
    assert_eq!(app.send_step(&mut sending, outcome, 10 * MS), Ok(()));
    assert_eq!(app.stream, Some(4));
    assert_eq!(sending.request(), SendRequest::Write(4));
    let outcome = SendOutcome::Wrote(Ok(6));
    assert_eq!(app.send_step(&mut sending, outcome, 10 * MS), Ok(()));
    assert_eq!(app.sent_at, None);
    assert_eq!(sending.request(), SendRequest::Finish(4));
    let outcome = SendOutcome::Finished(Ok(()));
    assert_eq!(app.send_step(&mut sending, outcome, 10 * MS), Ok(()));
    assert_eq!(app.sent_at, Some(10 * MS));
    assert_eq!(sending.stage, SendStage::Sent);
    assert_eq!(sending.request(), SendRequest::Nothing);
    assert!(matches!(
        app.handle_event(AppEvent::Readable { id: 8 }, 0, 0),
        Ok(AppAction::Nothing)
    ));
    assert!(matches!(
        app.handle_event(AppEvent::Readable { id: 4 }, 0, 0),
        Ok(AppAction::Read(4))
    ));
    let blocked = Some(ReadTurn {
        chunks: vec![b"H".to_vec()],
        end: ReadEnd::Blocked,
    });
    assert!(matches!(app.read_stream(4, blocked, 11 * MS), Ok(None)));
    assert!(matches!(app.read_stream(4, None, 11 * MS), Ok(None)));
    assert!(matches!(
        app.read_stream(4, finished(vec![vec![0xff], b"!".to_vec()]), 15 * MS),
        Ok(None)
    ));
    assert_eq!(app.received.as_deref(), Some("H\u{fffd}!"));
    assert_eq!(app.roundtrip_ms, 5);
    assert!(app.drive(16 * MS));
    assert!(!app.drive(17 * MS));
    assert_eq!(app.done_at, Some(16 * MS));
    let outcome = app.finish().ok().unwrap();
    assert_eq!(outcome.peer_id, [1; 32]);
    assert_eq!((outcome.handshake_ms, outcome.roundtrip_ms), (7, 5));
    assert_eq!(outcome.received, "H\u{fffd}!");
}

#[test]
fn servers_echo_in_upper_case() {
    let mut app = App::new(Role::Server);
    assert!(matches!(
        app.handle_event(connected([2; 32]), 0, 0),
        Ok(AppAction::Nothing)
    ));
    assert!(matches!(
        app.handle_event(AppEvent::BidirectionalOpened, 0, 0),
        Ok(AppAction::AcceptStream)
    ));
    assert!(matches!(app.stream_accepted(Some(0)), AppAction::Read(0)));
    assert!(matches!(
        app.handle_event(AppEvent::BidirectionalOpened, 0, 0),
        Ok(AppAction::Nothing)
    ));
    let mut echo = app
        .read_stream(0, finished(vec!["stra\u{df}e".as_bytes().to_vec()]), 0)
        .unwrap()
        .unwrap();
    assert_eq!(echo.bytes, b"STRASSE");
    assert_eq!(echo.kind, SendKind::Echo);
    assert_eq!(echo.request(), SendRequest::Write(0));
    let outcome = SendOutcome::Wrote(Ok(7));
    assert_eq!(app.send_step(&mut echo, outcome, 5), Ok(()));
    assert_eq!(echo.request(), SendRequest::Finish(0));
    let outcome = SendOutcome::Finished(Ok(()));
    assert_eq!(app.send_step(&mut echo, outcome, 5), Ok(()));
    assert_eq!(echo.stage, SendStage::Sent);
    assert_eq!(app.sent_at, None);
    assert_eq!(app.received.as_deref(), Some("stra\u{df}e"));
    assert!(!app.drive(1));
    assert!(matches!(
        app.handle_event(
            AppEvent::ConnectionLost {
                application_closed: true,
                detail: "done".to_string()
            },
            0,
            77
        ),
        Ok(AppAction::Nothing)
    ));
    assert_eq!(app.done_at, Some(77));
    assert!(app.finish().is_ok());
    assert!(matches!(app.stream_accepted(None), AppAction::Nothing));
}

#[test]
fn failures_of_the_exchange_are_described() {
    let text = || "reset".to_string();
    let mut app = client();
    assert_eq!(
        app.handle_event(
            AppEvent::Connected {
                identity: PeerIdentity::Missing
            },
            0,
            0
        )
        .err(),
        Some("peer presented no identity".to_string())
    );
    assert_eq!(app.peer_id, None);
    assert_eq!(
        app.handle_event(
            AppEvent::ConnectionLost {
                application_closed: true,
                detail: text()
            },
            0,
            0
        )
        .err(),
        Some("connection lost: reset".to_string())
    );
    assert_eq!(
        app.read_stream(
            0,
            Some(ReadTurn {
                chunks: vec![],
                end: ReadEnd::Failed(text())
            }),
            0
        )
        .err(),
        Some("stream read: reset".to_string())
    );
}

#[test]
fn failed_sendings_are_described_and_over() {
    let text = || "reset".to_string();
    let cases = [
        (
            SendKind::Message,
            SendStage::Opening,
            SendOutcome::Opened(None),
            "no bidirectional stream credit",
        ),
        (
            SendKind::Message,
            SendStage::Writing(0),
            SendOutcome::Wrote(Ok(4)),
            "demo message did not fit the stream window",
        ),
        (
            SendKind::Message,
            SendStage::Writing(0),
            SendOutcome::Wrote(Err(text())),
            "stream write: reset",
        ),
        (
            SendKind::Message,
            SendStage::Finishing(0),
            SendOutcome::Finished(Err(text())),
            "stream finish: reset",
        ),
        (
            SendKind::Echo,
            SendStage::Writing(0),
            SendOutcome::Wrote(Ok(4)),
            "echo did not fit the stream window",
        ),
        (
            SendKind::Echo,
            SendStage::Writing(0),
            SendOutcome::Wrote(Err(text())),
            "echo write: reset",
        ),
        (
            SendKind::Echo,
            SendStage::Finishing(0),
            SendOutcome::Finished(Err(text())),
            "echo finish: reset",
        ),
    ];
    for (kind, stage, outcome, reason) in cases {
        let mut app = client();
        let mut sending = Sending {
            kind,
            bytes: vec![0; 5],
            stage,
        };
        assert_eq!(
            app.send_step(&mut sending, outcome, 1),
            Err(reason.to_string())
        );
        assert_eq!(sending.stage, SendStage::Failed);
        assert_eq!(sending.request(), SendRequest::Nothing);
        assert_eq!(app.sent_at, None);
        assert_eq!(app.stream, None);
    }
}

#[test]
fn unfinished_exchanges_have_no_outcome() {
    let mut app = client();
    assert_eq!(
        app.finish().err(),
        Some("finished without a peer identity".to_string())
    );
    app.peer_id = Some([1; 32]);
    assert_eq!(
        app.finish().err(),
        Some("finished without a handshake".to_string())
    );
    app.handshake_ms = Some(1);
    assert_eq!(
        app.finish().err(),
        Some("finished without a payload".to_string())
    );
}

// The run.

#[test]
fn clients_dial_and_servers_listen() {
    let role = Role::Client {
        message: String::new(),
    };
    assert!(matches!(setup(&role, Some([7; 32])), Ok(Setup::Dial(id)) if id == [7; 32]));
    assert_eq!(
        setup(&role, None).err(),
        Some("client role requires the peer's endpoint id".to_string())
    );
    assert!(matches!(setup(&Role::Server, None), Ok(Setup::Listen)));
    let text = || "no".to_string();
    for (fault, message) in [
        (SetupFault::ClientTls(text()), "client tls config: no"),
        (SetupFault::ServerTls(text()), "server tls config: no"),
        (SetupFault::Random(text()), "getrandom: no"),
        (SetupFault::Connect(text()), "connect: no"),
        (SetupFault::Accept(text()), "accept: no"),
    ] {
        assert_eq!(setup_fault_message(fault), message);
    }
}

#[test]
fn runs_have_one_connection() {
    let conn = Some(ConnRef {
        handle: 3,
        remote: server_addr(),
    });
    assert_eq!(datagram_remote(conn), server_addr());
    assert_eq!(datagram_remote(None), client_addr());
    assert!(handle_datagram(conn, Handled::ConnectionEvent(3)) == DatagramTask::Deliver);
    assert!(handle_datagram(conn, Handled::ConnectionEvent(4)) == DatagramTask::Nothing);
    assert!(handle_datagram(None, Handled::ConnectionEvent(3)) == DatagramTask::Nothing);
    assert!(handle_datagram(None, Handled::NewConnection) == DatagramTask::Accept);
    assert!(handle_datagram(conn, Handled::NewConnection) == DatagramTask::Nothing);
    assert!(handle_datagram(conn, Handled::Response) == DatagramTask::Respond);
    assert!(handle_datagram(conn, Handled::Ignored) == DatagramTask::Nothing);
}

#[test]
fn finished_runs_resolve_and_keep_their_outcome() {
    let mut app = done_client();
    let mut run = Run::new(0);
    assert!(run.step(&mut app, true, false, MS) == RunAction::Continue);
    assert!(run.step(&mut app, true, false, MS) == RunAction::Drain);
    run.on_event(&app, true, RunEvent::Drained(Ok(())));
    assert!(run.step(&mut app, true, false, 20 * MS) == RunAction::CloseConnection);
    assert!(run.step(&mut app, true, false, 20 * MS) == RunAction::Continue);
    assert!(run.step(&mut app, true, false, 20 * MS) == RunAction::Select);
    assert!(run.outcome.is_none());
    assert!(run.on_event(&app, true, RunEvent::Tick));
    run.step(&mut app, true, false, 21 * MS);
    run.on_event(&app, true, RunEvent::Drained(Ok(())));
    run.step(&mut app, true, false, 21 * MS);
    // The linger is over.
    run.step(&mut app, true, false, 20 * MS + LINGER_NS);
    assert!(matches!(&run.outcome, Some(Ok(outcome)) if outcome.received == "HI"));
    assert!(run.step(&mut app, true, false, 0) == RunAction::CloseWire);
    assert!(run.step(&mut app, true, false, 0) == RunAction::Select);
    assert!(run.on_event(&app, true, RunEvent::Received(Ok(Ok(())))));
    assert!(run.on_event(&app, true, RunEvent::Tick));
    assert!(!run.on_event(&app, true, RunEvent::Received(Err("closed".to_string()))));
    assert!(run.step(&mut app, true, false, 0) == RunAction::Continue);
    assert!(run.step(&mut app, true, false, 0) == RunAction::Select);
    assert!(!run.on_event(&app, true, RunEvent::Tick));
    assert!(run.step(&mut app, true, false, 0) == RunAction::Return);
    assert!(!run.receive_pending && !run.tick_pending);
    assert!(matches!(&run.outcome, Some(Ok(outcome)) if outcome.received == "HI"));
}

#[test]
fn drained_connections_end_the_run_at_once() {
    let mut app = done_client();
    app.drive(20 * MS);
    let mut run = Run::new(0);
    run.step(&mut app, true, true, 21 * MS);
    run.on_event(&app, true, RunEvent::Drained(Ok(())));
    run.step(&mut app, true, true, 21 * MS);
    run.step(&mut app, true, true, 21 * MS);
    assert!(matches!(run.outcome, Some(Ok(_))));
}

#[test]
fn runs_fail_by_deadline_wire_and_exchange() {
    let mut app = client();
    let mut run = Run::new(5);
    run.step(&mut app, false, false, 5 + RUN_DEADLINE_NS);
    assert!(run.outcome.is_none());
    run.on_event(&app, false, RunEvent::Tick);
    run.step(&mut app, false, false, 6 + RUN_DEADLINE_NS);
    assert!(matches!(&run.outcome, Some(Err(text)) if text == "run deadline exceeded"));

    let mut run = Run::new(0);
    run.step(&mut app, false, false, 0);
    assert!(!run.on_event(&app, false, RunEvent::Received(Err("wire gone".to_string()))));
    assert!(matches!(&run.outcome, Some(Err(text)) if text == "wire gone"));

    let mut run = Run::new(0);
    run.step(&mut app, false, false, 0);
    assert!(run.on_event(
        &app,
        false,
        RunEvent::Received(Ok(Err("bad datagram".to_string())))
    ));
    assert!(matches!(&run.outcome, Some(Err(text)) if text == "bad datagram"));

    let mut run = Run::new(0);
    run.step(&mut app, true, false, 0);
    run.on_event(
        &app,
        true,
        RunEvent::Drained(Err("connection lost: x".to_string())),
    );
    assert!(matches!(&run.outcome, Some(Err(text)) if text == "connection lost: x"));

    // A wire that ends after the exchange is no failure.
    let mut app = done_client();
    app.drive(20 * MS);
    let mut run = Run::new(0);
    run.phase = component_iroh::echo_run::RunPhase::Select;
    run.on_event(&app, true, RunEvent::Received(Err("closed".to_string())));
    assert!(matches!(run.outcome, Some(Ok(_))));
}

#[test]
fn draining_ends_in_quiescence() {
    let mut quiesce = Quiesce::new(true);
    // A pass that brings something is followed by another.
    assert_eq!(quiesce.request(), QuiesceRequest::EndpointEvent);
    quiesce.reply(QuiesceReply::Nothing);
    assert_eq!(quiesce.request(), QuiesceRequest::Event);
    quiesce.reply(QuiesceReply::Something);
    assert_eq!(quiesce.request(), QuiesceRequest::Event);
    quiesce.reply(QuiesceReply::Nothing);
    assert_eq!(quiesce.request(), QuiesceRequest::Transmit);
    quiesce.reply(QuiesceReply::Nothing);
    // A quiet one is the last.
    for request in [
        QuiesceRequest::EndpointEvent,
        QuiesceRequest::Event,
        QuiesceRequest::Transmit,
    ] {
        assert_eq!(quiesce.request(), request);
        quiesce.reply(QuiesceReply::Nothing);
    }
    assert_eq!(quiesce.request(), QuiesceRequest::Finished);
    assert_eq!(quiesce.phase, QuiescePhase::Quiet);
}

#[test]
fn draining_stops_at_a_failure_and_without_a_connection() {
    let mut quiesce = Quiesce::new(true);
    quiesce.reply(QuiesceReply::Nothing);
    quiesce.reply(QuiesceReply::Failed);
    assert_eq!(quiesce.phase, QuiescePhase::Failed);
    assert_eq!(quiesce.request(), QuiesceRequest::Finished);
    assert_eq!(Quiesce::new(false).request(), QuiesceRequest::Finished);
}
