use component_iroh::relay::{
    answer_challenge, fault_message, handshake_step, relay_url, HandshakeStep, RelayConn,
    RelayFault,
};
use component_iroh::relay_frames::{
    decode_denial_reason, decode_relay_datagrams, encode_client_auth, encode_client_datagram,
    encode_pong, split_tag, subprotocols,
};

fn failure(message: Option<Vec<u8>>) -> String {
    match handshake_step(&message) {
        HandshakeStep::Failed(text) => text,
        _ => panic!("the handshake went on"),
    }
}

#[test]
fn relay_urls_are_mapped_to_websockets() {
    assert_eq!(
        relay_url("https://relay.example/path/x").unwrap(),
        "wss://relay.example/relay"
    );
    assert_eq!(
        relay_url("http://127.0.0.1:3340").unwrap(),
        "ws://127.0.0.1:3340/relay"
    );
    assert_eq!(relay_url("ws://h").unwrap(), "ws://h/relay");
    assert_eq!(relay_url("wss://h/").unwrap(), "wss://h/relay");
    assert_eq!(relay_url("gopher://h").unwrap(), "wss://h/relay");
    assert_eq!(
        relay_url("no\nscheme").unwrap_err(),
        "relay url \"no\\nscheme\" has no scheme"
    );
    assert_eq!(
        relay_url("http:///x").unwrap_err(),
        "relay url \"http:///x\" has no host"
    );
}

#[test]
fn challenges_are_hashed_under_their_domain() {
    let mut frame = vec![0u8];
    frame.extend_from_slice(&[7; 16]);
    match handshake_step(&Some(frame)) {
        HandshakeStep::Sign(message) => assert_eq!(
            message,
            blake3::derive_key("iroh-relay handshake v1 challenge signature", &[7; 16])
        ),
        _ => panic!("the challenge was not taken"),
    }
    assert!(matches!(handshake_step(&None), HandshakeStep::Wait));
    assert!(matches!(
        handshake_step(&Some(vec![2])),
        HandshakeStep::Authenticated
    ));
}

#[test]
fn handshake_failures_are_described() {
    assert_eq!(failure(Some(vec![])), "relay handshake: empty frame");
    assert_eq!(
        failure(Some(vec![0, 1, 2])),
        "relay handshake: malformed challenge"
    );
    assert_eq!(
        failure(Some(vec![3, 2, b'n', b'o'])),
        "relay denied auth: no"
    );
    assert_eq!(
        failure(Some(vec![9])),
        "relay handshake: unexpected frame type 9"
    );
}

#[test]
fn challenges_are_answered_with_key_and_signature() {
    let frame = answer_challenge(&[5; 32], &[6; 64]).unwrap();
    assert_eq!(frame.len(), 98);
    assert_eq!(frame[0], 1);
    assert_eq!(frame[1..33], [5; 32]);
    assert_eq!(frame[33], 64);
    assert_eq!(frame[34..], [6; 64]);
    assert_eq!(frame, encode_client_auth(&[5; 32], &[6; 64]));
    assert_eq!(
        answer_challenge(&[5; 32], &[6; 63]).unwrap_err(),
        "identity produced a non-64-byte signature"
    );
}

#[test]
fn datagram_frames_name_their_destination() {
    let frame = encode_client_datagram(&[9; 32], b"hi");
    assert_eq!(frame[0], 4);
    assert_eq!(frame[1..33], [9; 32]);
    assert_eq!(frame[33..], [0, b'h', b'i']);
    assert_eq!(RelayConn::send_datagram(&[9; 32], b"hi"), frame);
    assert_ne!(encode_client_datagram(&[8; 32], b"hi"), frame);
    assert_ne!(encode_client_datagram(&[9; 32], b"ho"), frame);
    assert_eq!(encode_pong(&[1; 8]), vec![10, 1, 1, 1, 1, 1, 1, 1, 1]);
    assert_eq!(split_tag(&frame), Some(4));
    assert_eq!(split_tag(&[]), None);
    assert_eq!(subprotocols(), vec!["iroh-relay-v2", "iroh-relay-v1"]);
}

#[test]
fn batches_are_cut_into_segments() {
    let mut payload = vec![3u8; 32];
    payload.push(0);
    payload.extend_from_slice(&[0, 2]);
    payload.extend_from_slice(b"abcde");
    let list = decode_relay_datagrams(&payload, true).unwrap();
    let payloads: Vec<Vec<u8>> = list.iter().map(|d| d.payload.clone()).collect();
    assert_eq!(
        payloads,
        vec![b"ab".to_vec(), b"cd".to_vec(), b"e".to_vec()]
    );
    assert!(list.iter().all(|d| d.source == [3; 32]));
    assert_eq!(payloads.concat(), b"abcde");

    let single = decode_relay_datagrams(&payload, false).unwrap();
    assert_eq!(single.len(), 1);
    assert_eq!(single[0].payload, payload[33..].to_vec());
    payload[34] = 0;
    let whole = decode_relay_datagrams(&payload, true).unwrap();
    assert_eq!(whole.len(), 1);
    assert_eq!(whole[0].payload, b"abcde");
    assert!(decode_relay_datagrams(&payload[..34], true).is_none());
    assert!(decode_relay_datagrams(&payload[..32], false).is_none());
    assert_eq!(
        decode_relay_datagrams(&payload[..35], true).unwrap()[0].payload,
        Vec::<u8>::new()
    );
}

#[test]
fn received_messages_queue_datagrams_and_answer_pings() {
    let mut conn = RelayConn::new();
    assert!(conn.next_datagram().is_none());
    let mut frame = vec![7u8];
    frame.extend_from_slice(&[4; 32]);
    frame.extend_from_slice(&[0, 0, 1, b'x', b'y']);
    assert!(conn.recv_datagram(&Some(frame)).is_none());
    let mut frame = vec![6u8];
    frame.extend_from_slice(&[5; 32]);
    frame.extend_from_slice(&[0, b'z']);
    assert!(conn.recv_datagram(&Some(frame)).is_none());
    assert_eq!(
        conn.recv_datagram(&Some(vec![9, 1, 2, 3, 4, 5, 6, 7, 8])),
        Some(vec![10, 1, 2, 3, 4, 5, 6, 7, 8])
    );
    for skipped in [None, Some(vec![]), Some(vec![9, 1]), Some(vec![6, 1]), Some(vec![11])] {
        assert!(conn.recv_datagram(&skipped).is_none());
    }
    for (source, payload) in [(4u8, b'x'), (4, b'y'), (5, b'z')] {
        let datagram = conn.next_datagram().unwrap();
        assert_eq!(datagram.source, [source; 32]);
        assert_eq!(datagram.payload, vec![payload]);
    }
    assert!(conn.next_datagram().is_none());
}

#[test]
fn denial_reasons_are_decoded() {
    assert_eq!(decode_denial_reason(&[2, b'n', b'o', b'!']), "no");
    assert_eq!(decode_denial_reason(&[]), "");
    // A length that is longer than what follows is text itself.
    assert_eq!(decode_denial_reason(b"nope"), "nope");
    // Bytes that are no text are replaced.
    assert_eq!(decode_denial_reason(&[1, 0xff]), "\u{fffd}");
    let mut long = vec![0x80, 0x01];
    long.extend_from_slice(&[b'a'; 128]);
    assert_eq!(decode_denial_reason(&long), "a".repeat(128));
}

#[test]
fn relay_faults_say_where_they_happened() {
    let text = || "reset".to_string();
    assert_eq!(
        fault_message(RelayFault::Connect(text())),
        "relay connect: reset"
    );
    assert_eq!(
        fault_message(RelayFault::Handshake(text())),
        "relay handshake: reset"
    );
    assert_eq!(fault_message(RelayFault::Receive(text())), "relay: reset");
    assert_eq!(fault_message(RelayFault::Send(text())), "relay send: reset");
    assert_eq!(fault_message(RelayFault::Pong(text())), "relay pong: reset");
}
