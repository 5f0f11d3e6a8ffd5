use component_iroh::demo::{
    consume_signal, expect_offer, parse_endpoint_id, publish_candidates, quic_channel_options,
    rtc, take_channel, wait_open, Candidate, ChannelState, ChannelWait, Component, Consumed,
    DemoRole, RunConfig, Signal, Signaling, Transport,
};
use component_iroh::echo::{Outcome, Role, Wire};

fn candidate(text: &str) -> Candidate {
    Candidate {
        candidate: text.to_string(),
        sdp_mid: Some("0".to_string()),
        sdp_mline_index: None,
    }
}

fn config(role: DemoRole, transport: Transport, peer: Option<&str>) -> RunConfig {
    RunConfig {
        role,
        transport,
        server: "http://localhost".to_string(),
        peer: peer.map(|text| text.to_string()),
        message: "ping".to_string(),
    }
}

fn outcome(peer_id: [u8; 32]) -> Outcome {
    Outcome {
        received: "ping".to_string(),
        peer_id,
        handshake_ms: 12,
        roundtrip_ms: 3,
    }
}

#[test]
fn endpoint_ids_are_read_from_hexadecimal() {
    let id: Vec<u8> = (0u8..32).collect();
    assert_eq!(parse_endpoint_id(&hex::encode(&id)).unwrap().to_vec(), id);
    assert_eq!(
        parse_endpoint_id(&"Ab".repeat(32)).unwrap(),
        [0xab; 32]
    );
    assert_eq!(
        parse_endpoint_id("abc").unwrap_err(),
        "bad endpoint id: Odd number of digits"
    );
    assert_eq!(
        parse_endpoint_id("ab'c").unwrap_err(),
        "bad endpoint id: Invalid character '\\'' at position 2"
    );
    assert_eq!(
        parse_endpoint_id("abcd").unwrap_err(),
        "endpoint id is not 32 bytes"
    );
    assert_eq!(
        parse_endpoint_id("").unwrap_err(),
        "endpoint id is not 32 bytes"
    );
}

#[test]
fn signals_reach_only_their_peer() {
    let client = Signaling {
        peer: Some([2; 32]),
    };
    let (to, datagram) = client.publish(b"{}").unwrap();
    assert_eq!(to, [2; 32]);
    assert_eq!(datagram, vec![0, b'{', b'}']);

    let mut server = Signaling { peer: None };
    assert_eq!(server.publish(b"{}").unwrap_err(), "no signaling peer yet");
    assert_eq!(server.recv([1; 32], &datagram), Some(b"{}".to_vec()));
    assert_eq!(server.peer, Some([1; 32]));
    assert_eq!(server.recv([3; 32], &datagram), None);
    assert_eq!(server.peer, Some([1; 32]));
    assert_eq!(server.recv([1; 32], &[0x40, b'{']), None);
    assert_eq!(server.recv([1; 32], &[]), None);
}

#[test]
fn signals_ask_for_their_step() {
    assert!(matches!(
        consume_signal(Signal::Answer { sdp: "v=0".to_string() }),
        Consumed::SetAnswer(sdp) if sdp == "v=0"
    ));
    assert!(matches!(
        consume_signal(Signal::Offer { sdp: "v=0".to_string() }),
        Consumed::Failed(text) if text == "unexpected second offer"
    ));
    assert!(matches!(
        consume_signal(Signal::Candidate(candidate("c"))),
        Consumed::AddCandidate(c) if c.candidate == "c"
    ));
    assert!(matches!(
        consume_signal(Signal::EndOfCandidates),
        Consumed::Nothing
    ));
    assert!(matches!(consume_signal(Signal::Done), Consumed::End));
}

#[test]
fn answerers_wait_for_an_offer() {
    let offer = Signal::Offer {
        sdp: "v=0".to_string(),
    };
    assert_eq!(expect_offer(Some(offer), "").unwrap(), "v=0");
    assert_eq!(
        expect_offer(Some(Signal::Done), "Some(Done)").unwrap_err(),
        "expected offer, got Some(Done)"
    );
    assert_eq!(
        expect_offer(None, "None").unwrap_err(),
        "expected offer, got None"
    );
}

#[test]
fn candidates_are_published_in_order() {
    let signals = publish_candidates(vec![candidate("a"), candidate("b")]);
    assert_eq!(signals.len(), 3);
    assert!(matches!(&signals[0], Signal::Candidate(c) if c.candidate == "a"));
    assert!(matches!(&signals[1], Signal::Candidate(c) if c.candidate == "b"));
    assert!(matches!(&signals[2], Signal::EndOfCandidates));
    assert_eq!(publish_candidates(vec![]).len(), 1);
}

#[test]
fn offerers_wait_for_the_channel() {
    assert!(matches!(
        wait_open(&vec![ChannelState::Connecting, ChannelState::Open], false),
        ChannelWait::Open
    ));
    assert!(matches!(
        wait_open(&vec![ChannelState::Closed], false),
        ChannelWait::Failed(text) if text == "data channel closed before opening"
    ));
    assert!(matches!(
        wait_open(&vec![ChannelState::Closing], true),
        ChannelWait::Failed(_)
    ));
    assert!(matches!(
        wait_open(&vec![ChannelState::Closed, ChannelState::Open], true),
        ChannelWait::Open
    ));
    assert!(matches!(wait_open(&vec![], false), ChannelWait::Again));
    assert_eq!(take_channel(2), Ok(0));
    assert_eq!(take_channel(0), Err("no incoming data channel".to_string()));
    let options = quic_channel_options();
    assert_eq!(options.label, "quic");
    assert!(!options.ordered);
    assert_eq!(options.max_retransmits, Some(0));
    assert_eq!(rtc("gone"), "webrtc: gone");
}

#[test]
fn runs_are_configured() {
    let id = "01".repeat(32);
    let client = config(DemoRole::Client, Transport::Relay, Some(&id));
    assert_eq!(Component::check_config(&client), Ok(Some([1; 32])));
    assert!(matches!(
        Component::wire(&client, Some([1; 32])),
        Wire::Relay { peer: Some(peer) } if peer == [1; 32]
    ));
    assert!(matches!(
        Component::endpoint_role(&client),
        Role::Client { message } if message == "ping"
    ));
    let server = config(DemoRole::Server, Transport::Webrtc, None);
    assert_eq!(Component::check_config(&server), Ok(None));
    assert!(matches!(Component::wire(&server, None), Wire::Channel));
    assert!(matches!(Component::endpoint_role(&server), Role::Server));
    assert_eq!(
        Component::check_config(&config(DemoRole::Client, Transport::Webrtc, None)),
        Err("the client role requires the server's endpoint id (peer)".to_string())
    );
    assert_eq!(
        Component::check_config(&config(DemoRole::Server, Transport::Webrtc, Some("xy"))),
        Err("bad endpoint id: Invalid character 'x' at position 0".to_string())
    );
    assert_eq!(
        Component::signaled_peer(&Signaling { peer: None }),
        Err("signaling completed without a peer".to_string())
    );
    assert_eq!(
        Component::signaled_peer(&Signaling {
            peer: Some([4; 32])
        }),
        Ok([4; 32])
    );
}

#[test]
fn runs_hold_the_peer_against_the_addressed_one() {
    let own = [0xee; 32];
    let report = Component::run(&own, Some([1; 32]), Some([2; 32]), None, outcome([1; 32]))
        .ok()
        .unwrap();
    assert_eq!(report.endpoint_id, "ee".repeat(32));
    assert_eq!(report.peer_id, "01".repeat(32));
    assert_eq!((report.handshake_ms, report.roundtrip_ms), (12, 3));
    assert_eq!(report.received, "ping");
    assert!(Component::run(&own, None, Some([2; 32]), Some([1; 32]), outcome([2; 32])).is_ok());
    assert!(Component::run(&own, None, None, Some([1; 32]), outcome([1; 32])).is_ok());
    assert_eq!(
        Component::run(&own, Some([2; 32]), None, None, outcome([1; 32])).err(),
        Some("authenticated peer key differs from the relay-authenticated one".to_string())
    );
    assert_eq!(
        Component::run(&own, None, None, None, outcome([1; 32])).err(),
        Some("finished without an expected peer identity".to_string())
    );
}
