use component_iroh::addr::SocketAddr;
use component_iroh::exec_model::{
    blockon_in_spawn, sink_stream, sync_webcrypto_probe, Parked, ProbeFailure, StreamJob,
    StreamStep,
};
use component_iroh::ping_demo;
use component_iroh::ping_demo::{PathInfo, PathName, PathWatch, Route};
use component_iroh::relay_echo::{payload, sorted, summarize, summary_line};
use component_iroh::udp_wake::{bind_addr, is_quit, sleep_line, Counters};
use component_iroh::webrtc_transport::{
    bridge_addr, is_valid_send_addr, poll_recv, poll_send, to_custom_addr, CustomAddr,
    WebrtcTransport, WEBRTC_TRANSPORT_ID,
};

// The webrtc transport.

#[test]
fn bridge_frames_carry_datagrams_by_identity() {
    assert_eq!(
        bridge_addr(),
        SocketAddr::V4 {
            ip: 0x7f00_0001,
            port: 2
        }
    );
    let frame = poll_send(&to_custom_addr(&[7; 32]), b"quic");
    assert_eq!(frame[0], 1);
    assert_eq!(frame.len(), 37);
    let received = poll_recv(&frame, 4).unwrap();
    assert_eq!(received.source.transport, WEBRTC_TRANSPORT_ID);
    assert_eq!(received.source.data, vec![7; 32]);
    assert_eq!(received.payload, b"quic");
    // No room, no payload, another tag.
    assert!(poll_recv(&frame, 3).is_none());
    assert!(poll_recv(&frame[..33], 4).is_none());
    let mut other = frame.clone();
    other[0] = 0;
    assert!(poll_recv(&other, 4).is_none());
    assert!(poll_recv(&[], 4).is_none());
}

#[test]
fn transports_register_and_know_their_addresses() {
    let transport = WebrtcTransport::new([9; 32]);
    let mut expected = vec![0u8];
    expected.extend_from_slice(&[9; 32]);
    assert_eq!(transport.bind(), expected);
    let addrs = transport.local_addrs();
    assert_eq!(addrs.len(), 1);
    assert_eq!(addrs[0].data, vec![9; 32]);
    assert!(is_valid_send_addr(&addrs[0]));
    assert!(!is_valid_send_addr(&CustomAddr {
        transport: 1,
        data: vec![9; 32]
    }));
    assert!(!is_valid_send_addr(&CustomAddr {
        transport: WEBRTC_TRANSPORT_ID,
        data: vec![9; 31]
    }));
}

// The ping demo.

#[test]
fn status_events_are_json() {
    assert_eq!(ping_demo::closed_event(), "{\"t\":\"closed\"}");
    assert_eq!(
        ping_demo::ready_event("ab", "https://r/"),
        "{\"t\":\"ready\",\"id\":\"ab\",\"relay\":\"https://r/\"}"
    );
    assert_eq!(
        ping_demo::connected_event("cd"),
        "{\"t\":\"connected\",\"peer\":\"cd\"}"
    );
    assert_eq!(
        ping_demo::overlay_event(),
        "{\"t\":\"overlay\",\"state\":\"added\"}"
    );
    assert_eq!(
        ping_demo::path_event("relay", 1200),
        "{\"t\":\"path\",\"path\":\"relay\",\"rtt_us\":1200}"
    );
    assert_eq!(
        ping_demo::event("x", &vec!["\"a\":1".to_string()]),
        "{\"t\":\"x\",\"a\":1}"
    );
}

#[test]
fn the_overlay_assigns_an_address() {
    let frame = ping_demo::register(&[3; 32], 0x1234);
    assert_eq!(frame.len(), 35);
    assert_eq!(frame[0], 0);
    assert_eq!(frame[1..33], [3; 32]);
    assert_eq!(frame[33..], [0x12, 0x34]);
    assert_eq!(
        ping_demo::assigned(&[1, 10, 0, 0, 7, 0x01, 0x02, 99]),
        Some(SocketAddr::V4 {
            ip: 0x0a00_0007,
            port: 0x0102
        })
    );
    assert_eq!(ping_demo::assigned(&[1, 10, 0, 0, 7, 1]), None);
    assert_eq!(ping_demo::assigned(&[2, 10, 0, 0, 7, 1, 2]), None);
    assert!(ping_demo::ready(&[2]));
    assert!(!ping_demo::ready(&[1]));
    assert!(!ping_demo::ready(&[]));
}

#[test]
fn the_environment_decides_the_role() {
    assert_eq!(
        ping_demo::env_var(Some("x".to_string())),
        Some("x".to_string())
    );
    assert_eq!(ping_demo::env_var(Some(String::new())), None);
    assert_eq!(ping_demo::env_var(None), None);
    assert!(ping_demo::is_host(None));
    assert!(ping_demo::is_host(Some("host".to_string())));
    assert!(!ping_demo::is_host(Some("join".to_string())));
}

#[test]
fn path_changes_are_reported() {
    let path = |selected, route, rtt_us| PathInfo {
        selected,
        route,
        rtt_us,
    };
    assert_eq!(
        ping_demo::selected_path(&vec![
            path(false, Route::Relay, 1),
            path(true, Route::Ip, 2),
            path(true, Route::Relay, 3),
        ]),
        (PathName::Direct, 2)
    );
    assert_eq!(
        ping_demo::selected_path(&vec![path(true, Route::Relay, 5)]),
        (PathName::Relay, 5)
    );
    assert_eq!(
        ping_demo::selected_path(&vec![path(true, Route::Other, 5)]),
        (PathName::Other, 5)
    );
    assert_eq!(
        ping_demo::selected_path(&vec![path(false, Route::Ip, 5)]),
        (PathName::Unselected, 0)
    );
    let names: Vec<String> = [
        PathName::Unselected,
        PathName::Relay,
        PathName::Direct,
        PathName::Other,
    ]
    .iter()
    .map(|name| name.text())
    .collect();
    assert_eq!(names, vec!["none", "relay", "direct", "other"]);

    let mut watch = PathWatch::new();
    assert!(watch.observe(PathName::Unselected, 0));
    assert!(!watch.observe(PathName::Unselected, 500));
    assert!(watch.observe(PathName::Unselected, 501));
    assert!(watch.observe(PathName::Relay, 501));
    assert!(!watch.observe(PathName::Relay, 1));
    assert!(watch.observe(PathName::Relay, 0));
}

#[test]
fn ferry_frames_have_their_length_in_front() {
    for len in [0usize, 1, 255, 256, 16384] {
        let header = ping_demo::frame_header(len);
        assert_eq!(ping_demo::frame_len(&header), Some(len));
    }
    assert_eq!(ping_demo::frame_header(0x0102), [1, 2]);
    assert_eq!(ping_demo::frame_len(&[0x40, 0x01]), None);
}

// The relay echo.

#[test]
fn round_trips_are_summarized() {
    assert_eq!(payload(), vec![0xa5; 512]);
    assert_eq!(sorted(&vec![3, 1, 2, 1]), vec![1, 1, 2, 3]);
    let times: Vec<u64> = (1..=50).rev().collect();
    let summary = summarize(&times);
    assert_eq!((summary.p50, summary.p90, summary.max), (25, 45, 50));
    assert_eq!(
        summary_line(&summary),
        "guest: echo rtt over relay: p50=25us p90=45us max=50us (50 rounds, 512 byte payload)"
    );
    let one = summarize(&vec![7]);
    assert_eq!((one.p50, one.p90, one.max), (7, 7, 7));
}

// The execution-model probes.

#[test]
fn probes_report_what_the_key_handle_gave() {
    assert_eq!(
        sync_webcrypto_probe(Ok(vec![0xde, 0xad, 0xbe, 0xef, 0x00])),
        Ok("x25519 ok, pub[0..4]=deadbeef".to_string())
    );
    assert_eq!(
        sync_webcrypto_probe(Err(ProbeFailure::Generate("no".to_string()))),
        Err("x25519 generate: no".to_string())
    );
    assert_eq!(
        sync_webcrypto_probe(Err(ProbeFailure::Export("no".to_string()))),
        Err("x25519 export: no".to_string())
    );
    assert_eq!(
        blockon_in_spawn(Some(Ok("x".to_string()))),
        Ok("block_on inside spawn (export live): x".to_string())
    );
    assert_eq!(
        blockon_in_spawn(Some(Err("x".to_string()))),
        Err("x".to_string())
    );
    assert_eq!(
        blockon_in_spawn(None),
        Err("spawned task dropped its sender".to_string())
    );
}

#[test]
fn parked_results_are_taken_once() {
    let mut parked = Parked::start();
    assert_eq!(parked.take(), None);
    parked.pump_probed(Ok("x".to_string()));
    assert_eq!(
        parked.take(),
        Some(Ok(
            "block_on in detached pump (no export live): x".to_string()
        ))
    );
    assert_eq!(parked.take(), None);
    parked.pump_probed(Err("bad".to_string()));
    assert_eq!(parked.take(), Some(Err("bad".to_string())));
    parked.stream_ended("done".to_string());
    assert_eq!(parked.take(), Some(Ok("done".to_string())));
}

#[test]
fn streams_are_written_in_chunks() {
    let mut job = StreamJob::open_stream(10, 4);
    let mut lens = vec![];
    let outcome = loop {
        match job.next() {
            StreamStep::Write(len) => {
                lens.push(len);
                assert_eq!(job.on_written(0), None);
            }
            StreamStep::Ended(text) => break text,
        }
    };
    assert_eq!(lens, vec![4, 4, 2]);
    assert_eq!(outcome, "wrote all 10 bytes");

    let mut job = StreamJob::open_stream(10, 4);
    job.on_written(0);
    assert_eq!(
        job.on_written(3),
        Some("reader stopped after 5 bytes (3 unwritten)".to_string())
    );
    assert_eq!(job.sent, 4);

    let mut count = 0;
    assert_eq!(sink_stream(&mut count, 4, false), None);
    assert_eq!(sink_stream(&mut count, 3, true), Some(7));
}

// The wake probe.

#[test]
fn the_wake_probe_counts_until_quit() {
    assert_eq!(
        bind_addr(),
        SocketAddr::V4 {
            ip: 0x7f00_0001,
            port: 7777
        }
    );
    assert!(is_quit(b"quit"));
    assert!(!is_quit(b"quit\n"));
    assert!(!is_quit(b"qui"));
    let mut counters = Counters::new();
    assert_eq!(counters.on_tick(), "guest: tick 1");
    assert_eq!(counters.on_tick(), "guest: tick 2");
    counters.on_echo();
    assert_eq!(counters.done_line(), "guest: done echoed=1 ticks=2");
    assert_eq!(sleep_line(51), "guest: final sleep 50ms took 51ms");
}
