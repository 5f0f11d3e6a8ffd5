//! Data channels as a custom transport: the bridge protocol that carries
//! datagrams addressed by endpoint ID.

use crate::addr::Id;
use crate::addr::SocketAddr;
use crate::bytes::append_range;
use crate::bytes::array_at;
use crate::bytes::copy_bytes;
use crate::bytes::copy_range;
use vstd::prelude::*;

verus! {

/// The transport's number: "WRTC".
pub const WEBRTC_TRANSPORT_ID: u64 = 0x5752_5443;

pub const BRIDGE_PORT: u16 = 2;

/// Guest to bridge: bind this socket to an identity.
pub const TAG_REGISTER: u8 = 0x00;

/// Either way: one datagram, to or from an identity.
pub const TAG_DATAGRAM: u8 = 0x01;

pub const ID_LEN: usize = 32;

/// The largest frame taken off the socket.
pub const RECV_BUFFER: usize = 2048;

/// The bridge's address: 127.0.0.1:2.
pub fn bridge_addr() -> (addr: SocketAddr)
    ensures
        addr == (SocketAddr::V4 { ip: 0x7f00_0001, port: BRIDGE_PORT }),
{
    SocketAddr::V4 { ip: 0x7f00_0001, port: BRIDGE_PORT }
}

/// An address of a custom transport.
pub struct CustomAddr {
    pub transport: u64,
    pub data: Vec<u8>,
}

/// The webrtc address of an endpoint.
pub fn to_custom_addr(id: &Id) -> (addr: CustomAddr)
    ensures
        addr.transport == WEBRTC_TRANSPORT_ID,
        addr.data@ == id@,
        is_sendable(addr),
{
    CustomAddr { transport: WEBRTC_TRANSPORT_ID, data: copy_bytes(id.as_slice()) }
}

/// The address is one of this transport's.
pub open spec fn is_sendable(addr: CustomAddr) -> bool {
    addr.transport == WEBRTC_TRANSPORT_ID && addr.data@.len() == ID_LEN
}

/// Whether datagrams can be sent to `addr`.
pub fn is_valid_send_addr(addr: &CustomAddr) -> (valid: bool)
    ensures
        valid == is_sendable(*addr),
{
    addr.transport == WEBRTC_TRANSPORT_ID && addr.data.len() == ID_LEN
}

/// One endpoint's transport.
pub struct WebrtcTransport {
    pub me: Id,
}

impl WebrtcTransport {
    pub fn new(me: Id) -> (transport: Self)
        ensures
            transport.me == me,
    {
        WebrtcTransport { me }
    }

    /// The frame that binds the socket to this endpoint.
    pub fn bind(&self) -> (frame: Vec<u8>)
        ensures
            frame@ == seq![TAG_REGISTER] + self.me@,
    {
        let mut frame: Vec<u8> = Vec::new();
        frame.push(TAG_REGISTER);
        append_range(&mut frame, self.me.as_slice(), 0, 32);
        assert(frame@ =~= seq![TAG_REGISTER] + self.me@);
        frame
    }

    /// The addresses this endpoint is reached at.
    pub fn local_addrs(&self) -> (addrs: Vec<CustomAddr>)
        ensures
            addrs@.len() == 1,
            addrs@[0].transport == WEBRTC_TRANSPORT_ID,
            addrs@[0].data@ == self.me@,
    {
        let mut addrs: Vec<CustomAddr> = Vec::new();
        addrs.push(to_custom_addr(&self.me));
        addrs
    }
}

/// The frame that carries a datagram to or from an identity.
pub open spec fn datagram_frame(id: Seq<u8>, contents: Seq<u8>) -> Seq<u8> {
    seq![TAG_DATAGRAM] + id + contents
}

/// The frame that carries `contents` to `dst`.
pub fn poll_send(dst: &CustomAddr, contents: &[u8]) -> (frame: Vec<u8>)
    ensures
        frame@ == datagram_frame(dst.data@, contents@),
{
    let mut frame: Vec<u8> = Vec::new();
    frame.push(TAG_DATAGRAM);
    append_range(&mut frame, dst.data.as_slice(), 0, dst.data.len());
    append_range(&mut frame, contents, 0, contents.len());
    assert(frame@ =~= datagram_frame(dst.data@, contents@));
    frame
}

/// A datagram off the bridge.
pub struct Received {
    pub source: CustomAddr,
    pub payload: Vec<u8>,
}

/// The sender and the payload of a frame, where it is a datagram with a
/// payload that fits in `room` bytes.
pub open spec fn received_in(frame: Seq<u8>, room: nat) -> Option<(Seq<u8>, Seq<u8>)> {
    if frame.len() > 1 + ID_LEN && frame[0] == TAG_DATAGRAM && frame.len() - 1 - ID_LEN <= room {
        Some((frame.subrange(1, 1 + ID_LEN), frame.skip(1 + ID_LEN)))
    } else {
        None
    }
}

/// Take a frame off the bridge; anything but a datagram with a payload that
/// fits in `room` bytes is skipped.
pub fn poll_recv(frame: &[u8], room: usize) -> (received: Option<Received>)
    ensures
        match received {
            Some(got) => got.source.transport == WEBRTC_TRANSPORT_ID && received_in(
                frame@,
                room as nat,
            ) == Some((got.source.data@, got.payload@)),
            None => received_in(frame@, room as nat) is None,
        },
{
    let len: usize = frame.len();
    if len <= 1 + ID_LEN || frame[0] != TAG_DATAGRAM {
        return None;
    }
    if room < len - 1 - ID_LEN {
        return None;
    }
    let source: Id = array_at::<32>(frame, 1);
    let payload: Vec<u8> = copy_range(frame, 1 + ID_LEN, len);
    assert(payload@ =~= frame@.skip(1 + ID_LEN));
    assert(source@ =~= frame@.subrange(1, 1 + ID_LEN));
    Some(Received { source: to_custom_addr(&source), payload })
}

/// A datagram that fits arrives as it was sent, attributed to the identity in
/// its frame.
pub proof fn datagrams_arrive(id: Id, contents: Seq<u8>, room: nat)
    requires
        0 < contents.len() <= room,
    ensures
        received_in(datagram_frame(id@, contents), room) == Some((id@, contents)),
{
    let frame = datagram_frame(id@, contents);
    assert(frame.subrange(1, 1 + ID_LEN) =~= id@);
    assert(frame.skip(1 + ID_LEN) =~= contents);
}

/// The transport's addresses are those under its number, "WRTC", with 32
/// bytes.
pub proof fn addresses_hold_an_identity(addr: CustomAddr)
    ensures
        is_sendable(addr) <==> addr.transport == 0x5752_5443 && addr.data@.len() == 32,
{
}

/// A datagram's frame, byte by byte: a one, the identity, and the contents.
pub proof fn bridge_frames_byte_by_byte(id: Id, contents: Seq<u8>, i: int)
    ensures
        ({
            let frame = datagram_frame(id@, contents);
            &&& frame.len() == 33 + contents.len()
            &&& frame[0] == 0x01
            &&& 0 <= i < 32 ==> frame[1 + i] == id@[i]
            &&& 0 <= i < contents.len() ==> frame[33 + i] == contents[i]
        }),
{
}

/// A frame is received exactly if it begins with a one and holds an identity
/// and some payload that fits; the payload is every byte behind the identity.
pub proof fn frames_are_received_whole(frame: Seq<u8>, room: nat, i: int)
    ensures
        received_in(frame, room) is Some <==> 33 < frame.len() <= 33 + room && frame[0] == 0x01,
        received_in(frame, room) matches Some((source, payload)) ==> {
            &&& source.len() == 32
            &&& 0 <= i < 32 ==> source[i] == frame[1 + i]
            &&& payload.len() == frame.len() - 33
            &&& 0 <= i < payload.len() ==> payload[i] == frame[33 + i]
        },
{
}

/// The bridge's port and tags, and the largest frame.
pub proof fn numbers_of_the_bridge()
    ensures
        BRIDGE_PORT == 2,
        TAG_REGISTER == 0x00,
        TAG_DATAGRAM == 0x01,
        ID_LEN == 32,
        RECV_BUFFER == 2048,
{
}

} // verus!
