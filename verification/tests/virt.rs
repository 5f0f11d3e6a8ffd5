use component_iroh::addr::SocketAddr;
use component_iroh::virt::{
    block, conv_err, host_pollable, passed_through, ready, ready_local, BlockStep,
    HostStreamError, Incoming, Inner, Poll, PollAction, PollPhase, Shared, StreamError,
};
use component_iroh::virt_socket::{
    check_send, receive, send, send_port, BindState, ErrorCode, IpAddressFamily,
    OutgoingDatagram, VTcp, VUdp,
};

fn datagram(port: u16) -> Incoming {
    Incoming {
        port,
        payload: vec![port as u8],
    }
}

fn local(port: u16) -> SocketAddr {
    SocketAddr::V4 {
        ip: 0x7f00_0001,
        port,
    }
}

#[test]
fn queues_are_drained_in_order() {
    let mut shared = Shared::new();
    assert_eq!(shared.add_queue(), 0);
    assert_eq!(shared.add_queue(), 1);
    assert!(!shared.has_data(1, vec![]));
    assert!(shared.has_data(1, vec![datagram(5), datagram(6)]));
    assert!(!shared.has_queued(0));
    shared.drain(1, vec![datagram(7)]);
    let out = receive(&mut shared, 1, vec![datagram(8)], 3);
    let ports: Vec<SocketAddr> = out.iter().map(|d| d.remote_address).collect();
    assert_eq!(ports, vec![local(5), local(6), local(7)]);
    assert_eq!(out[0].data, vec![5]);
    let out = receive(&mut shared, 1, vec![], 3);
    assert_eq!(out.len(), 1);
    assert!(receive(&mut shared, 1, vec![], 3).is_empty());
    assert!(receive(&mut shared, 1, vec![datagram(9)], 0).is_empty());
    assert!(shared.has_queued(1));
}

#[test]
fn readiness_follows_the_kind() {
    let mut shared = Shared::new();
    shared.add_queue();
    assert!(ready_local(Inner::AlwaysReady, &mut shared, vec![]));
    assert!(!ready_local(Inner::Never, &mut shared, vec![]));
    assert!(!ready_local(host_pollable(4), &mut shared, vec![]));
    assert!(ready(host_pollable(4), &mut shared, vec![], true));
    assert!(!ready(host_pollable(4), &mut shared, vec![], false));
    let incoming = Inner::UdpIncoming(0);
    assert!(!ready(incoming, &mut shared, vec![], true));
    assert!(block(incoming, &shared, false) == BlockStep::Drain(0));
    assert!(block(incoming, &shared, true) == BlockStep::BlockSource);
    assert!(ready(incoming, &mut shared, vec![datagram(1)], false));
    assert!(block(incoming, &shared, false) == BlockStep::Return);
    assert!(block(Inner::AlwaysReady, &shared, false) == BlockStep::Return);
    assert!(block(host_pollable(4), &shared, false) == BlockStep::BlockHost(4));
}

#[test]
fn local_readiness_wins() {
    let mut shared = Shared::new();
    shared.add_queue();
    let mut poll = Poll::new(
        vec![
            Inner::Never,
            Inner::UdpIncoming(0),
            Inner::Host(3),
            Inner::AlwaysReady,
        ],
        &shared,
    );
    assert!(matches!(poll.step(&shared), PollAction::Continue));
    assert!(matches!(poll.step(&shared), PollAction::Drain(0)));
    poll.on_drained(&mut shared, 0, vec![datagram(1)]);
    for _ in 0..3 {
        assert!(matches!(poll.step(&shared), PollAction::Continue));
    }
    assert!(matches!(poll.step(&shared), PollAction::Return(ready) if ready == vec![1, 3]));
}

#[test]
fn otherwise_the_host_waits_for_what_maps_to_it() {
    let mut shared = Shared::new();
    shared.add_queue();
    let mut poll = Poll::new(
        vec![Inner::Never, Inner::UdpIncoming(0), Inner::Host(3)],
        &shared,
    );
    let mut waits = 0;
    let ready = loop {
        match poll.step(&shared) {
            PollAction::Continue => {}
            PollAction::Drain(number) => {
                // The second wait finds a datagram.
                let drained = if waits == 2 { vec![datagram(1)] } else { vec![] };
                poll.on_drained(&mut shared, number, drained);
            }
            PollAction::WaitHost(list) => {
                assert_eq!(list, vec![Inner::UdpIncoming(0), Inner::Host(3)]);
                waits += 1;
                // The source fires, at first for nothing.
                poll.on_fired(vec![0], &shared);
            }
            PollAction::Return(ready) => break ready,
        }
    };
    assert_eq!(waits, 2);
    assert_eq!(ready, vec![1]);
    assert!(poll.phase == PollPhase::Local);

    let mut poll = Poll::new(vec![Inner::Host(3), Inner::Host(4)], &shared);
    let ready = loop {
        match poll.step(&shared) {
            PollAction::WaitHost(_) => poll.on_fired(vec![1, 0], &shared),
            PollAction::Return(ready) => break ready,
            _ => {}
        }
    };
    assert_eq!(ready, vec![1, 0]);
}

#[test]
fn stream_errors_pass_through() {
    assert!(matches!(
        conv_err(HostStreamError::LastOperationFailed("x".to_string())),
        StreamError::LastOperationFailed(text) if text == "x"
    ));
    assert!(matches!(
        passed_through::<u64>(Err(HostStreamError::Closed)),
        Err(StreamError::Closed)
    ));
    assert!(matches!(passed_through::<u64>(Ok(7)), Ok(7)));
}

#[test]
fn udp_sockets_bind_in_two_steps() {
    let mut socket = VUdp::create_udp_socket(2);
    assert_eq!(socket.state, BindState::Unbound);
    assert_eq!(socket.finish_bind(), Err(ErrorCode::NotInProgress));
    assert_eq!(socket.local_address(), Err(ErrorCode::InvalidState));
    assert_eq!(socket.start_bind(local(9)), Ok(()));
    assert_eq!(socket.local_address(), Err(ErrorCode::InvalidState));
    assert_eq!(socket.finish_bind(), Ok(()));
    assert_eq!(socket.local_address(), Ok(local(9)));
    assert_eq!(socket.finish_bind(), Err(ErrorCode::NotInProgress));
    assert_eq!(socket.remote_address(), Err(ErrorCode::InvalidState));
    assert_eq!(socket.unicast_hop_limit(), Ok(64));
    assert_eq!(socket.receive_buffer_size(), Ok(65536));
    assert_eq!(socket.send_buffer_size(), Ok(65536));
    assert_eq!(socket.address_family(), IpAddressFamily::Ipv4);
    assert_eq!(socket.subscribe(), Inner::UdpIncoming(2));
}

#[test]
fn datagrams_go_to_the_port_of_their_address() {
    let to = |remote_address| OutgoingDatagram {
        data: vec![],
        remote_address,
    };
    let v6 = SocketAddr::V6 {
        hi: 0,
        lo: 1,
        port: 8,
        flowinfo: 0,
        scope_id: 0,
    };
    assert_eq!(send_port(&to(Some(v6))), 8);
    assert_eq!(
        send(&vec![to(Some(local(7))), to(Some(v6)), to(None)]),
        vec![7, 8, 0]
    );
    assert_eq!(check_send(), Ok(64));
}

#[test]
fn tcp_is_not_supported() {
    assert!(matches!(
        VTcp::create_tcp_socket(),
        Err(ErrorCode::NotSupported)
    ));
    let tcp = VTcp;
    assert_eq!(tcp.start_listen(), Err(ErrorCode::NotSupported));
    assert_eq!(tcp.hop_limit(), Err(ErrorCode::NotSupported));
    assert_eq!(tcp.local_address(), Err(ErrorCode::InvalidState));
    assert!(!tcp.is_listening());
    assert_eq!(tcp.subscribe(), Inner::Never);
}

#[test]
fn polls_that_find_something_do_not_wait() {
    let mut shared = Shared::new();
    shared.add_queue();
    shared.drain(0, vec![datagram(1)]);
    let mut poll = Poll::new(vec![Inner::Host(3), Inner::UdpIncoming(0)], &shared);
    let ready = loop {
        match poll.step(&shared) {
            PollAction::Continue => {}
            PollAction::Return(ready) => break ready,
            _ => panic!("the poll waited or drained"),
        }
    };
    assert_eq!(ready, vec![1]);
}
