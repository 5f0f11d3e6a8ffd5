//! The synthetic sockets of the virtualization layer: a UDP socket over a
//! datagram source, and TCP that is only there to be linked.

use crate::addr::SocketAddr;
use crate::virt::datagram_list;
use crate::virt::Incoming;
use crate::virt::Inner;
use crate::virt::Shared;
use std::collections::VecDeque;
use vstd::prelude::*;

verus! {

/// Why a socket operation was refused.
#[derive(Clone, Copy, Debug, PartialEq, Eq, Structural)]
pub enum ErrorCode {
    NotInProgress,
    InvalidState,
    NotSupported,
}

/// The address family of every socket here.
#[derive(Clone, Copy, Debug, PartialEq, Eq, Structural)]
pub enum IpAddressFamily {
    Ipv4,
    Ipv6,
}

/// Where binding a socket stands.
#[derive(Clone, Copy, Debug, PartialEq, Eq, Structural)]
pub enum BindState {
    Unbound,
    InProgress(SocketAddr),
    Bound(SocketAddr),
}

/// A UDP socket; `shared` is its datagram queue.
#[derive(Clone, Copy)]
pub struct VUdp {
    pub state: BindState,
    pub shared: usize,
}

/// A received datagram and its sender.
pub struct IncomingDatagram {
    pub data: Vec<u8>,
    pub remote_address: SocketAddr,
}

/// A datagram to send.
pub struct OutgoingDatagram {
    pub data: Vec<u8>,
    pub remote_address: Option<SocketAddr>,
}

impl VUdp {
    /// An unbound socket over the queue `shared`.
    pub fn create_udp_socket(shared: usize) -> (socket: Self)
        ensures
            socket.state == BindState::Unbound,
            socket.shared == shared,
    {
        VUdp { state: BindState::Unbound, shared }
    }

    /// Begin binding, from whatever state.
    pub fn start_bind(&mut self, local_address: SocketAddr) -> (out: Result<(), ErrorCode>)
        ensures
            out is Ok,
            final(self).state == BindState::InProgress(local_address),
            final(self).shared == old(self).shared,
    {
        self.state = BindState::InProgress(local_address);
        Ok(())
    }

    /// End binding, where it has begun.
    pub fn finish_bind(&mut self) -> (out: Result<(), ErrorCode>)
        ensures
            final(self).shared == old(self).shared,
            match old(self).state {
                BindState::InProgress(addr) => out is Ok && final(self).state == BindState::Bound(
                    addr,
                ),
                _ => out == Err::<(), ErrorCode>(ErrorCode::NotInProgress) && *final(self) == *old(
                    self,
                ),
            },
    {
        match self.state {
            BindState::InProgress(addr) => {
                self.state = BindState::Bound(addr);
                Ok(())
            },
            _ => Err(ErrorCode::NotInProgress),
        }
    }

    /// The bound address.
    pub fn local_address(&self) -> (out: Result<SocketAddr, ErrorCode>)
        ensures
            out == (match self.state {
                BindState::Bound(addr) => Ok(addr),
                _ => Err(ErrorCode::InvalidState),
            }),
    {
        match self.state {
            BindState::Bound(addr) => Ok(addr),
            _ => Err(ErrorCode::InvalidState),
        }
    }

    /// There is never a connected peer.
    pub fn remote_address(&self) -> (out: Result<SocketAddr, ErrorCode>)
        ensures
            out == Err::<SocketAddr, ErrorCode>(ErrorCode::InvalidState),
    {
        Err(ErrorCode::InvalidState)
    }

    pub fn unicast_hop_limit(&self) -> (out: Result<u8, ErrorCode>)
        ensures
            out == Ok::<u8, ErrorCode>(64),
    {
        Ok(64)
    }

    pub fn set_unicast_hop_limit(&self, _value: u8) -> (out: Result<(), ErrorCode>)
        ensures
            out is Ok,
    {
        Ok(())
    }

    pub fn receive_buffer_size(&self) -> (out: Result<u64, ErrorCode>)
        ensures
            out == Ok::<u64, ErrorCode>(65536),
    {
        Ok(65536)
    }

    pub fn set_receive_buffer_size(&self, _value: u64) -> (out: Result<(), ErrorCode>)
        ensures
            out is Ok,
    {
        Ok(())
    }

    pub fn send_buffer_size(&self) -> (out: Result<u64, ErrorCode>)
        ensures
            out == Ok::<u64, ErrorCode>(65536),
    {
        Ok(65536)
    }

    pub fn set_send_buffer_size(&self, _value: u64) -> (out: Result<(), ErrorCode>)
        ensures
            out is Ok,
    {
        Ok(())
    }

    pub fn address_family(&self) -> (family: IpAddressFamily)
        ensures
            family == IpAddressFamily::Ipv4,
    {
        IpAddressFamily::Ipv4
    }

    /// A pollable that is ready when datagrams wait.
    pub fn subscribe(&self) -> (pollable: Inner)
        ensures
            pollable == Inner::UdpIncoming(self.shared),
    {
        Inner::UdpIncoming(self.shared)
    }
}

/// A datagram from the source as the socket hands it out: the sender is on
/// the loopback interface.
pub open spec fn handed_out(d: (u16, Seq<u8>)) -> (SocketAddr, Seq<u8>) {
    (SocketAddr::V4 { ip: 0x7f00_0001, port: d.0 }, d.1)
}

/// Datagrams that were handed out.
pub open spec fn handed_list(v: Seq<IncomingDatagram>) -> Seq<(SocketAddr, Seq<u8>)> {
    v.map_values(|d: IncomingDatagram| (d.remote_address, d.data@))
}

/// How many datagrams a receive hands out.
pub open spec fn receive_count(max_results: u64, waiting: nat) -> int {
    if max_results <= waiting {
        max_results as int
    } else {
        waiting as int
    }
}

/// Hand out the datagrams of a queue, the oldest first, up to `max_results`.
fn take_front(queue: &mut VecDeque<Incoming>, max_results: u64) -> (out: Vec<IncomingDatagram>)
    ensures
        ({
            let before = datagram_list(old(queue)@);
            let n = receive_count(max_results, before.len());
            &&& handed_list(out@) == before.take(n).map_values(
                |d: (u16, Seq<u8>)| handed_out(d),
            )
            &&& datagram_list(final(queue)@) == before.skip(n)
        }),
{
    let ghost before = datagram_list(queue@);
    let ghost n = receive_count(max_results, before.len());
    let f = Ghost(|d: (u16, Seq<u8>)| handed_out(d));
    let mut out: Vec<IncomingDatagram> = Vec::new();
    let mut count: u64 = 0;
    assert(before.skip(0) =~= before);
    assert(handed_list(out@) =~= before.take(0).map_values(f@));
    while count < max_results && queue.len() > 0
        invariant
            f@ == (|d: (u16, Seq<u8>)| handed_out(d)),
            n == receive_count(max_results, before.len()),
            count <= n,
            datagram_list(queue@) == before.skip(count as int),
            handed_list(out@) == before.take(count as int).map_values(f@),
        decreases queue@.len(),
    {
        let ghost queued = queue@;
        assert(datagram_list(queued).len() == queued.len());
        match queue.pop_front() {
            Some(d) => {
                let ghost handed = handed_list(out@);
                assert((d.port, d.payload@) == datagram_list(queued)[0]);
                assert(datagram_list(queued)[0] == before[count as int]);
                out.push(
                    IncomingDatagram {
                        data: d.payload,
                        remote_address: SocketAddr::V4 { ip: 0x7f00_0001, port: d.port },
                    },
                );
                assert(handed_list(out@) =~= handed.push(handed_out(before[count as int])));
                assert(before.take(count + 1) =~= before.take(count as int).push(
                    before[count as int],
                ));
                assert(handed_list(out@) =~= before.take(count + 1).map_values(f@));
                assert(datagram_list(queue@) =~= datagram_list(queued).drop_first());
                assert(before.skip(count as int).drop_first() =~= before.skip(count + 1));
            },
            None => {},
        }
        count = count + 1;
    }
    assert(datagram_list(queue@).len() == queue@.len());
    assert(count == n);
    out
}

/// Hand out a socket's waiting datagrams, the oldest first, up to
/// `max_results`. `drained` is what the source gave just now.
pub fn receive(
    shared: &mut Shared,
    number: usize,
    drained: Vec<Incoming>,
    max_results: u64,
) -> (out: Vec<IncomingDatagram>)
    requires
        number < old(shared)@.len(),
    ensures
        ({
            let before = old(shared)@[number as int] + datagram_list(drained@);
            let n = receive_count(max_results, before.len());
            &&& handed_list(out@) == before.take(n).map_values(
                |d: (u16, Seq<u8>)| handed_out(d),
            )
            &&& final(shared)@ == old(shared)@.update(number as int, before.skip(n))
        }),
{
    shared.drain(number, drained);
    let ghost queues = shared@;
    let ghost before = datagram_list(shared.queues@[number as int]@);
    assert(queues.len() == shared.queues@.len());
    assert(queues[number as int] == before);
    let out: Vec<IncomingDatagram> = take_front(&mut shared.queues[number], max_results);
    let ghost n = receive_count(max_results, before.len());
    assert(shared@ =~= queues.update(number as int, before.skip(n)));
    assert(shared@ =~= old(shared)@.update(number as int, before.skip(n)));
    out
}

/// How many datagrams may be sent at once.
pub fn check_send() -> (out: Result<u64, ErrorCode>)
    ensures
        out == Ok::<u64, ErrorCode>(64),
{
    Ok(64)
}

/// The port that a datagram goes to.
pub open spec fn port_of(addr: Option<SocketAddr>) -> u16 {
    match addr {
        Some(SocketAddr::V4 { port, .. }) => port,
        Some(SocketAddr::V6 { port, .. }) => port,
        None => 0,
    }
}

/// The port that a datagram goes to: its address's, or none.
pub fn send_port(datagram: &OutgoingDatagram) -> (port: u16)
    ensures
        port == port_of(datagram.remote_address),
{
    match datagram.remote_address {
        Some(SocketAddr::V4 { port, .. }) => port,
        Some(SocketAddr::V6 { port, .. }) => port,
        None => 0,
    }
}

/// The ports that datagrams go to, in order; every one is sent.
pub fn send(datagrams: &Vec<OutgoingDatagram>) -> (ports: Vec<u16>)
    ensures
        ports@ == datagrams@.map_values(|d: OutgoingDatagram| port_of(d.remote_address)),
{
    let f = Ghost(|d: OutgoingDatagram| port_of(d.remote_address));
    let mut ports: Vec<u16> = Vec::new();
    let mut i: usize = 0;
    while i < datagrams.len()
        invariant
            f@ == (|d: OutgoingDatagram| port_of(d.remote_address)),
            i <= datagrams@.len(),
            ports@ =~= datagrams@.take(i as int).map_values(f@),
        decreases datagrams@.len() - i,
    {
        ports.push(send_port(&datagrams[i]));
        assert(datagrams@.take(i + 1) =~= datagrams@.take(i as int).push(datagrams@[i as int]));
        i = i + 1;
    }
    assert(datagrams@.take(i as int) =~= datagrams@);
    ports
}

/// A TCP socket: linked, never used.
#[derive(Clone, Copy)]
pub struct VTcp;

impl VTcp {
    pub fn create_tcp_socket() -> (out: Result<VTcp, ErrorCode>)
        ensures
            out matches Err(code) && code == ErrorCode::NotSupported,
    {
        Err(ErrorCode::NotSupported)
    }

    pub fn start_bind(&self, _network: u32, _local: SocketAddr) -> (out: Result<(), ErrorCode>)
        ensures
            out == Err::<(), ErrorCode>(ErrorCode::NotSupported),
    {
        Err(ErrorCode::NotSupported)
    }

    pub fn finish_bind(&self) -> (out: Result<(), ErrorCode>)
        ensures
            out == Err::<(), ErrorCode>(ErrorCode::NotSupported),
    {
        Err(ErrorCode::NotSupported)
    }

    pub fn start_connect(&self, _network: u32, _remote: SocketAddr) -> (out: Result<(), ErrorCode>)
        ensures
            out == Err::<(), ErrorCode>(ErrorCode::NotSupported),
    {
        Err(ErrorCode::NotSupported)
    }

    pub fn finish_connect(&self) -> (out: Result<(), ErrorCode>)
        ensures
            out == Err::<(), ErrorCode>(ErrorCode::NotSupported),
    {
        Err(ErrorCode::NotSupported)
    }

    pub fn start_listen(&self) -> (out: Result<(), ErrorCode>)
        ensures
            out == Err::<(), ErrorCode>(ErrorCode::NotSupported),
    {
        Err(ErrorCode::NotSupported)
    }

    pub fn finish_listen(&self) -> (out: Result<(), ErrorCode>)
        ensures
            out == Err::<(), ErrorCode>(ErrorCode::NotSupported),
    {
        Err(ErrorCode::NotSupported)
    }

    pub fn accept(&self) -> (out: Result<(), ErrorCode>)
        ensures
            out == Err::<(), ErrorCode>(ErrorCode::NotSupported),
    {
        Err(ErrorCode::NotSupported)
    }

    pub fn set_listen_backlog_size(&self, _value: u64) -> (out: Result<(), ErrorCode>)
        ensures
            out == Err::<(), ErrorCode>(ErrorCode::NotSupported),
    {
        Err(ErrorCode::NotSupported)
    }

    pub fn keep_alive_enabled(&self) -> (out: Result<bool, ErrorCode>)
        ensures
            out == Err::<bool, ErrorCode>(ErrorCode::NotSupported),
    {
        Err(ErrorCode::NotSupported)
    }

    pub fn set_keep_alive_enabled(&self, _value: bool) -> (out: Result<(), ErrorCode>)
        ensures
            out == Err::<(), ErrorCode>(ErrorCode::NotSupported),
    {
        Err(ErrorCode::NotSupported)
    }

    pub fn keep_alive_idle_time(&self) -> (out: Result<u64, ErrorCode>)
        ensures
            out == Err::<u64, ErrorCode>(ErrorCode::NotSupported),
    {
        Err(ErrorCode::NotSupported)
    }

    pub fn set_keep_alive_idle_time(&self, _value: u64) -> (out: Result<(), ErrorCode>)
        ensures
            out == Err::<(), ErrorCode>(ErrorCode::NotSupported),
    {
        Err(ErrorCode::NotSupported)
    }

    pub fn keep_alive_interval(&self) -> (out: Result<u64, ErrorCode>)
        ensures
            out == Err::<u64, ErrorCode>(ErrorCode::NotSupported),
    {
        Err(ErrorCode::NotSupported)
    }

    pub fn set_keep_alive_interval(&self, _value: u64) -> (out: Result<(), ErrorCode>)
        ensures
            out == Err::<(), ErrorCode>(ErrorCode::NotSupported),
    {
        Err(ErrorCode::NotSupported)
    }

    pub fn keep_alive_count(&self) -> (out: Result<u32, ErrorCode>)
        ensures
            out == Err::<u32, ErrorCode>(ErrorCode::NotSupported),
    {
        Err(ErrorCode::NotSupported)
    }

    pub fn set_keep_alive_count(&self, _value: u32) -> (out: Result<(), ErrorCode>)
        ensures
            out == Err::<(), ErrorCode>(ErrorCode::NotSupported),
    {
        Err(ErrorCode::NotSupported)
    }

    pub fn hop_limit(&self) -> (out: Result<u8, ErrorCode>)
        ensures
            out == Err::<u8, ErrorCode>(ErrorCode::NotSupported),
    {
        Err(ErrorCode::NotSupported)
    }

    pub fn set_hop_limit(&self, _value: u8) -> (out: Result<(), ErrorCode>)
        ensures
            out == Err::<(), ErrorCode>(ErrorCode::NotSupported),
    {
        Err(ErrorCode::NotSupported)
    }

    pub fn receive_buffer_size(&self) -> (out: Result<u64, ErrorCode>)
        ensures
            out == Err::<u64, ErrorCode>(ErrorCode::NotSupported),
    {
        Err(ErrorCode::NotSupported)
    }

    pub fn set_receive_buffer_size(&self, _value: u64) -> (out: Result<(), ErrorCode>)
        ensures
            out == Err::<(), ErrorCode>(ErrorCode::NotSupported),
    {
        Err(ErrorCode::NotSupported)
    }

    pub fn send_buffer_size(&self) -> (out: Result<u64, ErrorCode>)
        ensures
            out == Err::<u64, ErrorCode>(ErrorCode::NotSupported),
    {
        Err(ErrorCode::NotSupported)
    }

    pub fn set_send_buffer_size(&self, _value: u64) -> (out: Result<(), ErrorCode>)
        ensures
            out == Err::<(), ErrorCode>(ErrorCode::NotSupported),
    {
        Err(ErrorCode::NotSupported)
    }

    pub fn shutdown(&self) -> (out: Result<(), ErrorCode>)
        ensures
            out == Err::<(), ErrorCode>(ErrorCode::NotSupported),
    {
        Err(ErrorCode::NotSupported)
    }

    pub fn local_address(&self) -> (out: Result<SocketAddr, ErrorCode>)
        ensures
            out == Err::<SocketAddr, ErrorCode>(ErrorCode::InvalidState),
    {
        Err(ErrorCode::InvalidState)
    }

    pub fn remote_address(&self) -> (out: Result<SocketAddr, ErrorCode>)
        ensures
            out == Err::<SocketAddr, ErrorCode>(ErrorCode::InvalidState),
    {
        Err(ErrorCode::InvalidState)
    }

    pub fn is_listening(&self) -> (listening: bool)
        ensures
            !listening,
    {
        false
    }

    pub fn address_family(&self) -> (family: IpAddressFamily)
        ensures
            family == IpAddressFamily::Ipv4,
    {
        IpAddressFamily::Ipv4
    }

    /// A pollable that is never ready.
    pub fn subscribe(&self) -> (pollable: Inner)
        ensures
            pollable == Inner::Never,
    {
        Inner::Never
    }
}

/// A datagram is handed out whole, from its port on 127.0.0.1.
pub proof fn datagrams_come_from_loopback(port: u16, payload: Seq<u8>)
    ensures
        handed_out((port, payload)).0 == (SocketAddr::V4 {
            ip: 0x7f00_0001,
            port,
        }),
        handed_out((port, payload)).1 == payload,
{
}

/// Handed out datagrams are seen whole.
pub proof fn handed_datagrams_are_seen_whole(v: Seq<IncomingDatagram>, i: int)
    requires
        0 <= i < v.len(),
    ensures
        handed_list(v).len() == v.len(),
        handed_list(v)[i].0 == v[i].remote_address,
        handed_list(v)[i].1 == v[i].data@,
{
}

/// A receive hands out as many datagrams as are wanted and there, no more and
/// no fewer.
pub proof fn receives_hand_out_what_is_there(max_results: u64, waiting: nat)
    ensures
        ({
            let n = receive_count(max_results, waiting);
            &&& 0 <= n <= max_results
            &&& n <= waiting
            &&& n < max_results ==> n == waiting
        }),
{
}

/// A datagram goes to its address's port.
pub proof fn datagrams_go_to_their_port(addr: SocketAddr)
    ensures
        addr matches SocketAddr::V4 { ip, port } ==> port_of(Some(addr)) == port,
        addr is V6 ==> port_of(Some(addr)) == addr->V6_port,
        port_of(None) == 0,
{
}

} // verus!
