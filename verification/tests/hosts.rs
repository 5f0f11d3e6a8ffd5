use component_iroh::addr::SocketAddr;
use component_iroh::demo::{DemoRole, RunReport};
use component_iroh::endpoint::dial::TransportAddr;
use component_iroh::endpoint_demo;
use component_iroh::endpoint::path::PathKind;
use component_iroh::endpoint_demo::UpgradeWait;
use component_iroh::peer_tool;
use component_iroh::rendezvous;
use component_iroh::rendezvous::{
    on_done, on_publish, rendezvous_error, Fetched, HostError, RendezvousRole, RendezvousSession,
};

fn args(list: &[&str]) -> Vec<String> {
    list.iter().map(|s| s.to_string()).collect()
}

fn detail(error: HostError) -> String {
    match error {
        HostError::Other(text) => text,
    }
}

// Rendezvous.

#[test]
fn each_end_reads_what_the_other_writes() {
    let offerer = RendezvousSession::open("http://s//", "demo", RendezvousRole::Offerer);
    let answerer = RendezvousSession::open("http://s", "demo", RendezvousRole::Answerer);
    assert_eq!(offerer.own_role(), "offerer");
    assert_eq!(offerer.peer_role(), "answerer");
    assert_eq!(answerer.own_role(), "answerer");
    assert_eq!(answerer.peer_role(), "offerer");
    assert_eq!(offerer.publish_url(), "http://s/rooms/demo/offerer");
    assert_eq!(
        answerer.fetch_url(),
        "http://s/rooms/demo/offerer?seq=0&wait=10000"
    );
    assert_eq!(answerer.done_url(), "http://s/rooms/demo/answerer/done");
}

#[test]
fn fetches_advance_on_blobs_only() {
    assert!(matches!(RendezvousSession::on_fetch(200), Fetched::Blob));
    assert!(matches!(RendezvousSession::on_fetch(204), Fetched::Done));
    assert!(matches!(RendezvousSession::on_fetch(304), Fetched::Retry));
    match RendezvousSession::on_fetch(500) {
        Fetched::Failed(error) => assert_eq!(detail(error), "rendezvous: fetch status 500"),
        _ => panic!("a failure passed"),
    }
    let mut session = RendezvousSession::open("http://s", "r", RendezvousRole::Offerer);
    assert_eq!(session.on_blob(Ok(vec![1])).ok(), Some(vec![1]));
    assert_eq!(session.recv_seq, 1);
    assert_eq!(
        detail(session.on_blob(Err("cut off".to_string())).err().unwrap()),
        "rendezvous: cut off"
    );
    assert_eq!(session.recv_seq, 1);
    assert_eq!(
        session.fetch_url(),
        "http://s/rooms/r/answerer?seq=1&wait=10000"
    );
}

#[test]
fn posts_succeed_in_the_two_hundreds() {
    assert!(on_publish(200, "200 OK").is_ok());
    assert!(on_publish(299, "299").is_ok());
    assert_eq!(
        detail(on_publish(300, "300 Multiple Choices").err().unwrap()),
        "rendezvous: publish status 300 Multiple Choices"
    );
    assert!(on_done(204, "204 No Content").is_ok());
    assert_eq!(
        detail(on_done(199, "199").err().unwrap()),
        "rendezvous: done status 199"
    );
    assert_eq!(detail(rendezvous_error("refused")), "rendezvous: refused");
}

#[test]
fn host_arguments_are_read() {
    let cli = rendezvous::parse_args(&args(&[
        "demo.wasm", "--role", "server", "--server", "http://s", "--room", "r", "--role", "client",
    ]))
    .ok()
    .unwrap();
    assert_eq!(cli.component, "demo.wasm");
    assert_eq!(cli.role, DemoRole::Client);
    assert_eq!(cli.server, "http://s");
    assert_eq!(cli.room, "r");
    assert_eq!(cli.message, "hello over QUIC over a data channel");
    for bad in [
        &[][..],
        &["demo.wasm"],
        &["demo.wasm", "--role"],
        &["demo.wasm", "--role", "peer", "--server", "s", "--room", "r"],
        &["demo.wasm", "--role", "client", "--server", "s"],
        &["demo.wasm", "--role", "client", "--server", "s", "--room", "r", "--x", "y"],
    ] {
        assert_eq!(
            rendezvous::parse_args(&args(bad)).err(),
            Some(rendezvous::usage())
        );
    }
}

#[test]
fn finished_runs_are_reported() {
    let report = RunReport {
        endpoint_id: "aa".to_string(),
        peer_id: "bb".to_string(),
        handshake_ms: 0,
        roundtrip_ms: 120,
        received: "a \"b\"".to_string(),
    };
    assert_eq!(
        rendezvous::report_line(DemoRole::Client, &report),
        "iroh-spike (client): endpoint=aa peer=bb handshake_ms=0 roundtrip_ms=120 received=\"a \\\"b\\\"\""
    );
    assert_eq!(
        rendezvous::finished_line(DemoRole::Server),
        "OK: server finished."
    );
}

// The peer tool.

#[test]
fn peer_arguments_are_read() {
    let cli = peer_tool::parse_args(&args(&["--role", "client", "--direct", "1.2.3.4:5"]))
        .ok()
        .unwrap();
    assert_eq!(cli.role, DemoRole::Client);
    assert_eq!(cli.direct.as_deref(), Some("1.2.3.4:5"));
    assert_eq!(cli.peer, None);
    assert_eq!(cli.message, "hello from upstream iroh");
    assert_eq!(peer_tool::client_peer(&cli), Err(peer_tool::usage()));
    for bad in [&[][..], &["--role"], &["--role", "x"], &["--peer", "ab"]] {
        assert_eq!(
            peer_tool::parse_args(&args(bad)).err(),
            Some(peer_tool::usage())
        );
    }
}

#[test]
fn peer_ids_are_checked() {
    let with = |peer: &str| peer_tool::Cli {
        role: DemoRole::Client,
        peer: Some(peer.to_string()),
        direct: None,
        message: String::new(),
    };
    assert_eq!(
        peer_tool::client_peer(&with(&"7f".repeat(32))),
        Ok([0x7f; 32])
    );
    assert_eq!(
        peer_tool::client_peer(&with("0")),
        Err("Odd number of digits".to_string())
    );
    assert_eq!(
        peer_tool::client_peer(&with("0-")),
        Err("Invalid character '-' at position 1".to_string())
    );
    assert_eq!(
        peer_tool::client_peer(&with("00")),
        Err("endpoint id is not 32 bytes".to_string())
    );
}

#[test]
fn echoes_come_back_in_upper_case() {
    assert_eq!(
        peer_tool::check_echo("h\u{e9}", "H\u{c9}".as_bytes()),
        Ok("H\u{c9}".to_string())
    );
    assert_eq!(
        peer_tool::check_echo("hi", b"hi\n"),
        Err("echo mismatch: sent \"hi\", got \"hi\\n\"".to_string())
    );
}

// The endpoint demo.

fn config() -> endpoint_demo::RunConfig {
    endpoint_demo::RunConfig {
        relay_url: "http://relay".to_string(),
        peer: None,
        alpn: None,
        peer_relay: None,
        direct: None,
        webrtc: false,
        payload_bytes: None,
        message: "hi".to_string(),
    }
}

#[test]
fn demo_clients_need_a_peer() {
    let mut config = config();
    assert_eq!(
        endpoint_demo::client_peer(&config),
        Err("the client role requires the server's endpoint id (peer)".to_string())
    );
    config.peer = Some("0aFF".to_string());
    assert_eq!(endpoint_demo::client_peer(&config), Ok(vec![0x0a, 0xff]));
    config.peer = Some("0".to_string());
    assert_eq!(
        endpoint_demo::client_peer(&config),
        Err("bad endpoint id: Odd number of digits".to_string())
    );
    config.peer = Some("0x".to_string());
    assert_eq!(
        endpoint_demo::client_peer(&config),
        Err("bad endpoint id: Invalid character 'x' at position 1".to_string())
    );
    assert_eq!(endpoint_demo::client_alpn(&config), b"iroh-demo/0".to_vec());
    config.alpn = Some("other/1".to_string());
    assert_eq!(endpoint_demo::client_alpn(&config), b"other/1".to_vec());
}

#[test]
fn demo_clients_offer_their_ways_in_order() {
    let mut config = config();
    let addrs = endpoint_demo::client_addrs(&config);
    assert_eq!(addrs.len(), 1);
    assert!(matches!(&addrs[0], TransportAddr::Relay(url) if url == "http://relay"));
    let direct = SocketAddr::V4 { ip: 1, port: 2 };
    config.direct = Some(Some(direct));
    config.webrtc = true;
    config.peer_relay = Some("http://peer".to_string());
    let addrs = endpoint_demo::client_addrs(&config);
    assert_eq!(addrs.len(), 3);
    assert!(matches!(&addrs[0], TransportAddr::Ip(Some(addr)) if *addr == direct));
    assert!(matches!(&addrs[1], TransportAddr::Webrtc(url) if url == "http://peer"));
    assert!(matches!(&addrs[2], TransportAddr::Relay(url) if url == "http://peer"));
}

#[test]
fn upgrades_are_awaited_for_thirty_seconds() {
    let mut polls = 0;
    for _ in 0..6000 {
        assert!(matches!(
            endpoint_demo::poll_upgrade(PathKind::Relay, &mut polls),
            UpgradeWait::Again
        ));
    }
    assert!(matches!(
        endpoint_demo::poll_upgrade(PathKind::Webrtc, &mut polls),
        UpgradeWait::Upgraded
    ));
    assert!(matches!(
        endpoint_demo::poll_upgrade(PathKind::Ip, &mut polls),
        UpgradeWait::Failed(text) if text == "webrtc upgrade did not complete"
    ));
    assert_eq!(polls, 6001);
}

#[test]
fn demo_reports_say_what_came_back() {
    let mut config = config();
    assert_eq!(endpoint_demo::client_payload(&config), b"hi".to_vec());
    let report = endpoint_demo::run_client(
        &config,
        &vec![b"H".to_vec(), b"\xff".to_vec()],
        &[1, 2],
        PathKind::Webrtc,
        7,
        8,
    )
    .ok()
    .unwrap();
    assert_eq!(report.received, "H\u{fffd}");
    assert_eq!(report.peer_id, "0102");
    assert_eq!(report.path, "webrtc");
    assert_eq!((report.handshake_ms, report.roundtrip_ms), (7, 8));
    let report = endpoint_demo::run(&[0xaa], report);
    assert_eq!(report.endpoint_id, "aa");
    assert_eq!(report.peer_id, "0102");
    assert_eq!(
        endpoint_demo::run_client(&config, &vec![vec![1]], &[], PathKind::Ip, 0, 0).err(),
        Some("echo length mismatch: sent 2, got 1".to_string())
    );
    config.payload_bytes = Some(3);
    assert_eq!(endpoint_demo::client_payload(&config), vec![0, 0, 0]);
    let report = endpoint_demo::run_client(&config, &vec![vec![0; 3]], &[], PathKind::Ip, 0, 0)
        .ok()
        .unwrap();
    assert_eq!(report.received, "3 bytes");
    assert_eq!(report.path, "ip");
    assert_eq!(
        endpoint_demo::fail("bind", "Closed"),
        "bind: Closed"
    );
    assert_eq!(endpoint_demo::elapsed_ms(1_000_000, 4_999_999), 3);
    assert_eq!(endpoint_demo::elapsed_ms(2, 1), 0);
}

#[test]
fn echoes_are_compared_with_what_was_sent() {
    let chunks = vec![vec![1, 2], vec![3]];
    assert_eq!(
        endpoint_demo::collect_echo(&[9, 9, 9], &chunks),
        Ok(vec![1, 2, 3])
    );
    assert_eq!(
        endpoint_demo::collect_echo(&[9], &chunks),
        Err("echo length mismatch: sent 1, got 3".to_string())
    );
    assert_eq!(endpoint_demo::collect_echo(&[], &vec![]), Ok(vec![]));
}

#[test]
fn demo_servers_answer_small_messages_in_upper_case() {
    let answer = endpoint_demo::answer(&vec![b"hi".to_vec(), vec![], b" \xff".to_vec()]);
    assert_eq!(answer.received, "hi \u{fffd}");
    assert_eq!(answer.echo, "HI \u{fffd}".as_bytes());
    let answer = endpoint_demo::answer(&vec![vec![b'a'; 4095], vec![b'a']]);
    assert_eq!(answer.echo, vec![b'A'; 4096]);
    let answer = endpoint_demo::answer(&vec![vec![b'a'; 4096], vec![b'a']]);
    assert_eq!(answer.echo, vec![b'a'; 4097]);
    assert_eq!(answer.received, "4097 bytes");
    let report = endpoint_demo::run_server(answer.received, &[3], PathKind::Relay);
    assert_eq!(report.received, "4097 bytes");
    assert_eq!(report.path, "relay");
    assert_eq!((report.handshake_ms, report.roundtrip_ms), (0, 0));
}
