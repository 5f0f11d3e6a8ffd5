//! An endpoint's shared state: its connections, the addresses that stand in
//! for relay peers and channels, what waits to be sent, and signaling.

use super::entry::fresh_entry;
use super::entry::ConnEntry;
use super::entry::EntryModel;
use super::error::Error;
use super::error::ErrorModel;
use super::pump::dead;
use crate::addr::doc_prefix_addr;
use crate::addr::doc_prefix_addr_spec;
use crate::addr::same_id;
use crate::addr::Id;
use crate::addr::SocketAddr;
use crate::assoc::assoc;
use crate::assoc::assoc_at;
use crate::assoc::assoc_map;
use crate::assoc::assoc_push;
use crate::assoc::assoc_remove;
use crate::assoc::assoc_update;
use crate::assoc::distinct_keys;
use crate::assoc::has_key;
use crate::assoc::position;
use crate::assoc::set_push;
use crate::assoc::set_remove;
use crate::bytes::contents;
use crate::bytes::copy_bytes;
use std::collections::VecDeque;
use vstd::prelude::*;

verus! {

/// The documentation-prefix space of relay standins.
pub const RELAY_SPACE: u16 = 0x77;

/// The documentation-prefix space of channel standins.
pub const CHANNEL_SPACE: u16 = 0x78;

/// Unread-signal cap per peer; a flooding peer loses signals, not us.
pub const INBOX_CAP: usize = 64;

/// Why a second signaling session with a peer is refused.
pub const SESSION_ACTIVE: &'static str =
    "a webrtc signaling session with this peer is already active";

/// A peer's unread signaling payloads.
pub struct Inbox {
    pub peer: Id,
    pub queue: VecDeque<Vec<u8>>,
}

/// An open channel: its synthetic address, and the relay-authenticated peer
/// it was signaled with.
pub struct ChannelEntry {
    pub addr: SocketAddr,
    pub peer: Id,
}

/// A received datagram on its way into the QUIC state machine.
pub struct Inbound {
    pub addr: SocketAddr,
    /// The authenticated sender, where the wire authenticates one.
    pub source: Option<Id>,
    pub payload: Vec<u8>,
}

/// What the QUIC endpoint made of a datagram.
pub enum DatagramOutcome {
    /// It belongs to this connection.
    ConnectionEvent(usize),
    /// It opens a new connection.
    NewConnection,
    /// It is answered directly.
    Response(Vec<u8>),
    Ignored,
}

/// What is to be done with the QUIC endpoint's answer on a datagram.
#[derive(Clone, Copy, PartialEq, Eq, Structural)]
pub enum DatagramAction {
    /// Hand the event to this connection.
    Deliver(usize),
    /// Accept the new connection.
    Accept,
    Nothing,
}

/// What became of accepting a new connection.
pub enum AcceptOutcome {
    Accepted(usize),
    /// Refused, with a response to send back where there is one.
    Refused(Option<Vec<u8>>),
}

/// One endpoint's state beside the QUIC state machine.
pub struct State {
    pub conns: Vec<ConnEntry>,
    /// Peers with a relay standin address, in the order they were met: peer
    /// `i` stands at host `i + 1`.
    pub peers: Vec<Id>,
    pub accept_queue: VecDeque<usize>,
    pub relay_outbound: VecDeque<(Id, Vec<u8>)>,
    pub udp_outbound: VecDeque<(SocketAddr, Vec<u8>)>,
    /// Transmits bound for channels, keyed by the channel's synthetic
    /// address.
    pub channel_outbound: VecDeque<(SocketAddr, Vec<u8>)>,
    /// Whether this endpoint upgrades to `webrtc` entries and answers inbound
    /// signaling.
    pub webrtc_enabled: bool,
    /// Peers with an active signaling session (offerer or answerer); one
    /// session per peer at a time.
    pub signaling: Vec<Id>,
    /// Inbound signaling payloads, keyed by the relay-authenticated source.
    pub signal_inboxes: Vec<Inbox>,
    /// Open channels.
    pub channels: Vec<ChannelEntry>,
    /// Channels registered since the pump last armed receives.
    pub new_channels: Vec<SocketAddr>,
    pub next_channel_host: u32,
    pub closed: bool,
    /// When the endpoint was closed, in nanoseconds on the caller's clock.
    pub closed_at: Option<u64>,
    /// Set when the relay connection died; every operation fails from then
    /// on.
    pub dead: Option<String>,
}

/// An endpoint's state as mathematical values.
#[verifier::ext_equal]
pub struct Model {
    pub conns: Map<usize, EntryModel>,
    pub peers: Seq<Id>,
    pub accept_queue: Seq<usize>,
    pub relay_outbound: Seq<(Id, Seq<u8>)>,
    pub udp_outbound: Seq<(SocketAddr, Seq<u8>)>,
    pub channel_outbound: Seq<(SocketAddr, Seq<u8>)>,
    pub webrtc_enabled: bool,
    pub signaling: Set<Id>,
    pub signal_inboxes: Map<Id, Seq<Seq<u8>>>,
    pub channels: Map<SocketAddr, Id>,
    pub new_channels: Seq<SocketAddr>,
    pub next_channel_host: u32,
    pub closed: bool,
    pub closed_at: Option<u64>,
    pub dead: Option<Seq<char>>,
}

/// Connection entries keyed by handle.
pub open spec fn entry_list(v: Seq<ConnEntry>) -> Seq<(usize, EntryModel)> {
    v.map_values(|e: ConnEntry| (e.handle, e@))
}

/// The same connections stand at the same positions.
pub open spec fn same_handles(a: Seq<ConnEntry>, b: Seq<ConnEntry>) -> bool {
    a.len() == b.len() && forall|i: int|
        0 <= i < a.len() ==> #[trigger] a[i].handle == #[trigger] b[i].handle
}

/// Inboxes keyed by peer.
pub open spec fn inbox_list(v: Seq<Inbox>) -> Seq<(Id, Seq<Seq<u8>>)> {
    v.map_values(|b: Inbox| (b.peer, contents(b.queue@)))
}

/// Channels keyed by address.
pub open spec fn channel_list(v: Seq<ChannelEntry>) -> Seq<(SocketAddr, Id)> {
    v.map_values(|c: ChannelEntry| (c.addr, c.peer))
}

/// Queued datagrams with their contents.
pub open spec fn datagrams<A>(v: Seq<(A, Vec<u8>)>) -> Seq<(A, Seq<u8>)> {
    v.map_values(|d: (A, Vec<u8>)| (d.0, d.1@))
}

impl View for State {
    type V = Model;

    open spec fn view(&self) -> Model {
        Model {
            conns: assoc(entry_list(self.conns@)),
            peers: self.peers@,
            accept_queue: self.accept_queue@,
            relay_outbound: datagrams(self.relay_outbound@),
            udp_outbound: datagrams(self.udp_outbound@),
            channel_outbound: datagrams(self.channel_outbound@),
            webrtc_enabled: self.webrtc_enabled,
            signaling: self.signaling@.to_set(),
            signal_inboxes: assoc(inbox_list(self.signal_inboxes@)),
            channels: assoc(channel_list(self.channels@)),
            new_channels: self.new_channels@,
            next_channel_host: self.next_channel_host,
            closed: self.closed,
            closed_at: self.closed_at,
            dead: match self.dead {
                Some(reason) => Some(reason@),
                None => None,
            },
        }
    }
}

/// The standin address of relay peer number `i`.
pub open spec fn standin(i: int) -> SocketAddr {
    doc_prefix_addr_spec(RELAY_SPACE, (i + 1) as u32)
}

/// `addr` is the synthetic address of a channel among the first `count`.
pub open spec fn is_channel_addr(addr: SocketAddr, count: u32) -> bool {
    exists|host: u32| 1 <= host <= count && addr == #[trigger] doc_prefix_addr_spec(
        CHANNEL_SPACE,
        host,
    )
}

impl Model {
    /// What holds of every endpoint between operations: peers are met once
    /// and have room for a standin; handles waiting to be accepted name
    /// entries; a connected entry has authenticated as the peer it was meant
    /// for; inboxes stay within their cap; channel addresses come from the
    /// channel space.
    pub open spec fn valid(self) -> bool {
        &&& self.peers.no_duplicates()
        &&& self.peers.len() <= u32::MAX
        &&& forall|i: int|
            0 <= i < self.accept_queue.len() ==> self.conns.dom().contains(
                #[trigger] self.accept_queue[i],
            )
        &&& forall|h: usize| #[trigger]
            self.conns.dom().contains(h) ==> self.conns[h].authenticated()
        &&& forall|p: Id| #[trigger]
            self.signal_inboxes.dom().contains(p) ==> self.signal_inboxes[p].len() <= INBOX_CAP
        &&& forall|a: SocketAddr| #[trigger]
            self.channels.dom().contains(a) ==> is_channel_addr(a, self.next_channel_host)
    }

    /// True once no operation can succeed anymore.
    pub open spec fn closed_or_dead(self) -> bool {
        self.closed || self.dead is Some
    }

    /// The peer that `addr` stands in for on the relay wire.
    pub open spec fn relay_peer(self, addr: SocketAddr) -> Option<Id> {
        if exists|i: int| 0 <= i < self.peers.len() && addr == #[trigger] standin(i) {
            Some(
                self.peers[choose|i: int|
                    0 <= i < self.peers.len() && addr == #[trigger] standin(i)],
            )
        } else {
            None
        }
    }

    /// The state that has met `peer`.
    pub open spec fn with_peer(self, peer: Id) -> Model {
        if self.peers.contains(peer) {
            self
        } else {
            Model { peers: self.peers.push(peer), ..self }
        }
    }

    /// There is room for `peer` among the standins.
    pub open spec fn room_for(self, peer: Id) -> bool {
        self.peers.contains(peer) || self.peers.len() < u32::MAX
    }

    /// The standin of a peer that was met.
    pub open spec fn addr_of(self, peer: Id) -> SocketAddr {
        standin(self.peers.index_of(peer))
    }

    /// The state with a connection dialed to `peer` recorded.
    pub open spec fn with_dial(self, handle: usize, peer: Id) -> Model {
        Model { conns: self.conns.insert(handle, fresh_entry(Some(peer), false)), ..self }
    }

    /// The state with `datagram` queued on the wire that `destination`
    /// belongs to: the relay for relay standins, a channel for channel
    /// standins, the UDP socket for real addresses.
    pub open spec fn routed(self, destination: SocketAddr, datagram: Seq<u8>) -> Model {
        match self.relay_peer(destination) {
            Some(peer) => Model {
                relay_outbound: self.relay_outbound.push((peer, datagram)),
                ..self
            },
            None => if self.channels.dom().contains(destination) {
                Model {
                    channel_outbound: self.channel_outbound.push((destination, datagram)),
                    ..self
                }
            } else {
                Model { udp_outbound: self.udp_outbound.push((destination, datagram)), ..self }
            },
        }
    }

    /// The state with a direct answer queued: through the relay where the
    /// sender is authenticated, back to the address otherwise.
    pub open spec fn answered(
        self,
        addr: SocketAddr,
        source: Option<Id>,
        payload: Seq<u8>,
    ) -> Model {
        match source {
            Some(peer) => Model {
                relay_outbound: self.relay_outbound.push((peer, payload)),
                ..self
            },
            None => Model { udp_outbound: self.udp_outbound.push((addr, payload)), ..self },
        }
    }

    /// The unread signals of `peer`.
    pub open spec fn inbox(self, peer: Id) -> Seq<Seq<u8>> {
        if self.signal_inboxes.dom().contains(peer) {
            self.signal_inboxes[peer]
        } else {
            Seq::empty()
        }
    }
}

/// What a dying relay does to a connection.
pub open spec fn failed_entry(e: EntryModel) -> EntryModel {
    if e.error is None {
        EntryModel { error: Some(ErrorModel::Closed), ..e }
    } else {
        e
    }
}

/// Relay standins are different for different peers, and no relay standin is
/// a channel's address.
pub proof fn standins_are_distinct(i: int, j: int, host: u32)
    requires
        0 <= i < u32::MAX,
        0 <= j < u32::MAX,
    ensures
        standin(i) == standin(j) <==> i == j,
        standin(i) != doc_prefix_addr_spec(CHANNEL_SPACE, host),
{
}

/// The position at which a peer was met is the only one.
proof fn relay_peer_at(m: Model, i: int)
    requires
        m.valid(),
        0 <= i < m.peers.len(),
    ensures
        m.relay_peer(standin(i)) == Some(m.peers[i]),
{
    let c = choose|k: int| 0 <= k < m.peers.len() && standin(i) == #[trigger] standin(k);
    assert(0 <= i < m.peers.len() && standin(i) == standin(i));
    standins_are_distinct(i, c, 0);
}

/// A peer keeps its standin for as long as the endpoint lives, the standin
/// leads back to the peer, and two peers never share one.
pub proof fn standins_are_stable(m: Model, peer: Id, next: Id)
    requires
        m.valid(),
        m.room_for(peer),
        m.with_peer(peer).room_for(next),
    ensures
        m.with_peer(peer).valid(),
        m.with_peer(peer).relay_peer(m.with_peer(peer).addr_of(peer)) == Some(peer),
        m.with_peer(peer).with_peer(next).addr_of(peer) == m.with_peer(peer).addr_of(peer),
        peer != next ==> m.with_peer(peer).with_peer(next).addr_of(next) != m.with_peer(
            peer,
        ).addr_of(peer),
{
    let a = m.with_peer(peer);
    let b = a.with_peer(next);
    if !m.peers.contains(peer) {
        assert(a.peers[m.peers.len() as int] == peer);
    }
    assert(a.peers.contains(peer));
    assert(a.peers.no_duplicates());
    assert(a.valid());
    let i = a.peers.index_of(peer);
    assert(0 <= i < a.peers.len() && a.peers[i] == peer);
    relay_peer_at(a, i);
    if !a.peers.contains(next) {
        assert(b.peers[a.peers.len() as int] == next);
    }
    assert(b.peers.contains(next));
    assert(b.peers.no_duplicates());
    assert(b.peers[i] == peer);
    assert(b.peers.contains(peer));
    let i2 = b.peers.index_of(peer);
    assert(0 <= i2 < b.peers.len() && b.peers[i2] == peer);
    assert(i == i2);
    let j = b.peers.index_of(next);
    assert(0 <= j < b.peers.len() && b.peers[j] == next);
    if peer != next {
        assert(i != j);
        standins_are_distinct(i, j, 0);
    }
}

impl State {
    /// The lists behind the maps and sets hold nothing twice.
    pub open spec fn wf(&self) -> bool {
        &&& distinct_keys(entry_list(self.conns@))
        &&& distinct_keys(inbox_list(self.signal_inboxes@))
        &&& distinct_keys(channel_list(self.channels@))
        &&& self.signaling@.no_duplicates()
        &&& self@.valid()
    }

    pub fn new(webrtc_enabled: bool) -> (state: Self)
        ensures
            state.wf(),
            state@ == (Model {
                conns: Map::empty(),
                peers: Seq::empty(),
                accept_queue: Seq::empty(),
                relay_outbound: Seq::empty(),
                udp_outbound: Seq::empty(),
                channel_outbound: Seq::empty(),
                webrtc_enabled,
                signaling: Set::empty(),
                signal_inboxes: Map::empty(),
                channels: Map::empty(),
                new_channels: Seq::empty(),
                next_channel_host: 0,
                closed: false,
                closed_at: None,
                dead: None,
            }),
    {
        let state = State {
            conns: Vec::new(),
            peers: Vec::new(),
            accept_queue: VecDeque::new(),
            relay_outbound: VecDeque::new(),
            udp_outbound: VecDeque::new(),
            channel_outbound: VecDeque::new(),
            webrtc_enabled,
            signaling: Vec::new(),
            signal_inboxes: Vec::new(),
            channels: Vec::new(),
            new_channels: Vec::new(),
            next_channel_host: 0,
            closed: false,
            closed_at: None,
            dead: None,
        };
        assert(state@.conns =~= Map::empty());
        assert(state@.signal_inboxes =~= Map::empty());
        assert(state@.channels =~= Map::empty());
        assert(state@.signaling =~= Set::empty());
        assert(state@.relay_outbound =~= Seq::empty());
        assert(state@.udp_outbound =~= Seq::empty());
        assert(state@.channel_outbound =~= Seq::empty());
        state
    }

    /// Where `handle`'s entry stands.
    pub fn find_conn(&self, handle: usize) -> (found: Option<usize>)
        requires
            self.wf(),
        ensures
            match found {
                Some(i) => i < self.conns@.len() && self.conns@[i as int].handle == handle
                    && self@.conns.dom().contains(handle) && self@.conns[handle]
                    == self.conns@[i as int]@ && position(entry_list(self.conns@), handle) == i,
                None => !self@.conns.dom().contains(handle),
            },
    {
        let ghost list = entry_list(self.conns@);
        let mut i: usize = 0;
        while i < self.conns.len()
            invariant
                i <= self.conns@.len(),
                self.wf(),
                list == entry_list(self.conns@),
                forall|j: int| 0 <= j < i ==> self.conns@[j].handle != handle,
            decreases self.conns@.len() - i,
        {
            if self.conns[i].handle == handle {
                proof {
                    assert(list[i as int].0 == handle);
                    assoc_at(list, i as int);
                }
                return Some(i);
            }
            i = i + 1;
        }
        proof {
            if has_key(list, handle) {
                let p = position(list, handle);
                assert(list[p].0 == handle);
                assert(self.conns@[p].handle == handle);
            }
        }
        None
    }

    /// Where the channel at `addr` stands.
    fn find_channel(&self, addr: SocketAddr) -> (found: Option<usize>)
        requires
            self.wf(),
        ensures
            match found {
                Some(i) => i < self.channels@.len() && self.channels@[i as int].addr == addr
                    && self@.channels.dom().contains(addr) && self@.channels[addr]
                    == self.channels@[i as int].peer,
                None => !self@.channels.dom().contains(addr),
            },
    {
        let ghost list = channel_list(self.channels@);
        let mut i: usize = 0;
        while i < self.channels.len()
            invariant
                i <= self.channels@.len(),
                self.wf(),
                list == channel_list(self.channels@),
                forall|j: int| 0 <= j < i ==> self.channels@[j].addr != addr,
            decreases self.channels@.len() - i,
        {
            if self.channels[i].addr == addr {
                proof {
                    assert(list[i as int].0 == addr);
                    assoc_at(list, i as int);
                }
                return Some(i);
            }
            i = i + 1;
        }
        proof {
            if has_key(list, addr) {
                let p = position(list, addr);
                assert(list[p].0 == addr);
                assert(self.channels@[p].addr == addr);
            }
        }
        None
    }

    /// Where `peer`'s inbox stands.
    fn find_inbox(&self, peer: &Id) -> (found: Option<usize>)
        requires
            self.wf(),
        ensures
            match found {
                Some(i) => i < self.signal_inboxes@.len() && self.signal_inboxes@[i as int].peer
                    == *peer && self@.signal_inboxes.dom().contains(*peer)
                    && self@.signal_inboxes[*peer] == contents(
                    self.signal_inboxes@[i as int].queue@,
                ),
                None => !self@.signal_inboxes.dom().contains(*peer),
            },
    {
        let ghost list = inbox_list(self.signal_inboxes@);
        let mut i: usize = 0;
        while i < self.signal_inboxes.len()
            invariant
                i <= self.signal_inboxes@.len(),
                self.wf(),
                list == inbox_list(self.signal_inboxes@),
                forall|j: int| 0 <= j < i ==> self.signal_inboxes@[j].peer != *peer,
            decreases self.signal_inboxes@.len() - i,
        {
            if same_id(&self.signal_inboxes[i].peer, peer) {
                proof {
                    assert(list[i as int].0 == *peer);
                    assoc_at(list, i as int);
                }
                return Some(i);
            }
            i = i + 1;
        }
        proof {
            if has_key(list, *peer) {
                let p = position(list, *peer);
                assert(list[p].0 == *peer);
                assert(self.signal_inboxes@[p].peer == *peer);
            }
        }
        None
    }

    /// The stable synthetic socket address standing in for `peer` on the
    /// relay wire (the wire has no addresses; QUIC wants distinct, stable
    /// ones). Drawn from `2001:db8:77::/48`: the documentation prefix is
    /// never routable, so no real peer address can collide with a standin.
    pub fn addr_for_peer(&mut self, peer: Id) -> (addr: SocketAddr)
        requires
            old(self).wf(),
            old(self)@.room_for(peer),
        ensures
            final(self).wf(),
            final(self)@ == old(self)@.with_peer(peer),
            addr == final(self)@.addr_of(peer),
    {
        let mut i: usize = 0;
        while i < self.peers.len()
            invariant
                i <= self.peers@.len(),
                *self == *old(self),
                self.wf(),
                forall|j: int| 0 <= j < i ==> self.peers@[j] != peer,
            decreases self.peers@.len() - i,
        {
            if same_id(&self.peers[i], &peer) {
                assert(self.peers@.contains(peer));
                let ghost k = self.peers@.index_of(peer);
                assert(0 <= k < self.peers@.len() && self.peers@[k] == peer);
                assert(k == i);
                return doc_prefix_addr(RELAY_SPACE, i as u32 + 1);
            }
            i = i + 1;
        }
        assert(!self.peers@.contains(peer));
        self.peers.push(peer);
        let host: u32 = self.peers.len() as u32;
        assert(self@ =~= old(self)@.with_peer(peer));
        proof {
            assert(self.peers@[host - 1] == peer);
            assert(self.peers@.contains(peer));
            let k = self.peers@.index_of(peer);
            assert(0 <= k < self.peers@.len() && self.peers@[k] == peer);
            assert(self.peers@.no_duplicates());
            assert(k == host - 1);
            assert(self@.valid());
        }
        doc_prefix_addr(RELAY_SPACE, host)
    }

    /// The peer that `addr` stands in for on the relay wire.
    pub fn peer_at(&self, addr: SocketAddr) -> (peer: Option<Id>)
        requires
            self.wf(),
        ensures
            peer == self@.relay_peer(addr),
    {
        let mut i: usize = 0;
        while i < self.peers.len()
            invariant
                i <= self.peers@.len(),
                self.wf(),
                forall|j: int| 0 <= j < i ==> addr != #[trigger] standin(j),
            decreases self.peers@.len() - i,
        {
            if addr == doc_prefix_addr(RELAY_SPACE, i as u32 + 1) {
                assert(addr == standin(i as int));
                proof {
                    relay_peer_at(self@, i as int);
                }
                return Some(self.peers[i]);
            }
            assert(addr != standin(i as int));
            i = i + 1;
        }
        None
    }

    /// True once no operation can succeed anymore; signaling sessions poll
    /// this to abandon their dance.
    pub fn is_closed_or_dead(&self) -> (over: bool)
        ensures
            over == self@.closed_or_dead(),
    {
        self.closed || self.dead.is_some()
    }

    /// Whether `peer` has a signaling session; where it stands.
    fn find_session(&self, peer: &Id) -> (found: Option<usize>)
        ensures
            match found {
                Some(i) => i < self.signaling@.len() && self.signaling@[i as int] == *peer,
                None => !self.signaling@.contains(*peer),
            },
    {
        let mut i: usize = 0;
        while i < self.signaling.len()
            invariant
                i <= self.signaling@.len(),
                forall|j: int| 0 <= j < i ==> self.signaling@[j] != *peer,
            decreases self.signaling@.len() - i,
        {
            if same_id(&self.signaling[i], peer) {
                return Some(i);
            }
            i = i + 1;
        }
        None
    }

    /// Claim the signaling slot for `peer`; true if it was free.
    fn claim_session(&mut self, peer: Id) -> (claimed: bool)
        requires
            old(self).wf(),
        ensures
            final(self).wf(),
            claimed == !old(self)@.signaling.contains(peer),
            final(self)@ == (Model {
                signaling: old(self)@.signaling.insert(peer),
                ..old(self)@
            }),
    {
        match self.find_session(&peer) {
            Some(i) => {
                assert(self.signaling@.contains(peer));
                assert(self@.signaling.insert(peer) =~= self@.signaling);
                false
            },
            None => {
                proof {
                    set_push(self.signaling@, peer);
                }
                self.signaling.push(peer);
                true
            },
        }
    }

    /// Claim the signaling slot for `peer`; one session at a time.
    pub fn begin_signaling(&mut self, peer: Id) -> (claimed: Result<(), Error>)
        requires
            old(self).wf(),
        ensures
            final(self).wf(),
            final(self)@ == (Model {
                signaling: old(self)@.signaling.insert(peer),
                ..old(self)@
            }),
            match claimed {
                Ok(()) => !old(self)@.signaling.contains(peer),
                Err(error) => old(self)@.signaling.contains(peer) && error@
                    == ErrorModel::ConnectFailed(SESSION_ACTIVE@),
            },
    {
        if self.claim_session(peer) {
            Ok(())
        } else {
            Err(Error::ConnectFailed(SESSION_ACTIVE.to_owned()))
        }
    }

    /// Release `peer`'s signaling slot and drop its unread signals.
    pub fn end_signaling(&mut self, peer: Id)
        requires
            old(self).wf(),
        ensures
            final(self).wf(),
            final(self)@ == (Model {
                signaling: old(self)@.signaling.remove(peer),
                signal_inboxes: old(self)@.signal_inboxes.remove(peer),
                ..old(self)@
            }),
    {
        match self.find_session(&peer) {
            Some(i) => {
                proof {
                    set_remove(self.signaling@, i as int);
                }
                self.signaling.remove(i);
            },
            None => {
                assert(self@.signaling.remove(peer) =~= self@.signaling);
            },
        }
        assert(self@ =~= (Model { signaling: old(self)@.signaling.remove(peer), ..old(self)@ }));
        match self.find_inbox(&peer) {
            Some(i) => {
                proof {
                    assoc_remove(inbox_list(self.signal_inboxes@), i as int);
                }
                let ghost before = self.signal_inboxes@;
                self.signal_inboxes.remove(i);
                assert(inbox_list(self.signal_inboxes@) =~= inbox_list(before).remove(i as int));
            },
            None => {
                assert(self@.signal_inboxes.remove(peer) =~= self@.signal_inboxes);
            },
        }
    }

    /// Queue one signaling payload for the pump to relay to `peer`.
    pub fn push_signal_outbound(&mut self, peer: Id, payload: Vec<u8>)
        requires
            old(self).wf(),
        ensures
            final(self).wf(),
            final(self)@ == (Model {
                relay_outbound: old(self)@.relay_outbound.push((peer, payload@)),
                ..old(self)@
            }),
    {
        self.relay_outbound.push_back((peer, payload));
        assert(self@.relay_outbound =~= old(self)@.relay_outbound.push((peer, payload@)));
    }

    /// The next signaling payload from `peer`, if any.
    pub fn pop_signal_inbox(&mut self, peer: Id) -> (payload: Option<Vec<u8>>)
        requires
            old(self).wf(),
        ensures
            final(self).wf(),
            match payload {
                Some(payload) => old(self)@.inbox(peer).len() > 0 && payload@ == old(self)@.inbox(
                    peer,
                )[0] && final(self)@ == (Model {
                    signal_inboxes: old(self)@.signal_inboxes.insert(
                        peer,
                        old(self)@.inbox(peer).drop_first(),
                    ),
                    ..old(self)@
                }),
                None => old(self)@.inbox(peer).len() == 0 && final(self)@ == old(self)@,
            },
    {
        match self.find_inbox(&peer) {
            Some(i) => {
                if self.signal_inboxes[i].queue.len() == 0 {
                    return None;
                }
                let ghost list = inbox_list(self.signal_inboxes@);
                let ghost queue = self.signal_inboxes@[i as int].queue@;
                let payload: Option<Vec<u8>> = self.signal_inboxes[i].queue.pop_front();
                proof {
                    let rest = contents(queue).drop_first();
                    assert(contents(self.signal_inboxes@[i as int].queue@) =~= rest);
                    assert(inbox_list(self.signal_inboxes@) =~= list.update(
                        i as int,
                        (list[i as int].0, rest),
                    ));
                    assoc_update(list, i as int, rest);
                }
                payload
            },
            None => None,
        }
    }

    /// File `payload` in `peer`'s inbox, unless the inbox is full.
    fn file_signal(&mut self, peer: Id, payload: &[u8])
        requires
            old(self).wf(),
        ensures
            final(self).wf(),
            final(self)@ == (Model {
                signal_inboxes: old(self)@.signal_inboxes.insert(
                    peer,
                    if old(self)@.inbox(peer).len() < INBOX_CAP {
                        old(self)@.inbox(peer).push(payload@)
                    } else {
                        old(self)@.inbox(peer)
                    },
                ),
                ..old(self)@
            }),
    {
        match self.find_inbox(&peer) {
            Some(i) => {
                let ghost list = inbox_list(self.signal_inboxes@);
                let ghost queue = self.signal_inboxes@[i as int].queue@;
                if self.signal_inboxes[i].queue.len() < INBOX_CAP {
                    let copy: Vec<u8> = copy_bytes(payload);
                    self.signal_inboxes[i].queue.push_back(copy);
                    assert(contents(self.signal_inboxes@[i as int].queue@) =~= contents(queue).push(
                        payload@,
                    ));
                }
                proof {
                    let now = contents(self.signal_inboxes@[i as int].queue@);
                    assert(inbox_list(self.signal_inboxes@) =~= list.update(
                        i as int,
                        (list[i as int].0, now),
                    ));
                    assoc_update(list, i as int, now);
                }
            },
            None => {
                let ghost list = inbox_list(self.signal_inboxes@);
                let mut queue: VecDeque<Vec<u8>> = VecDeque::new();
                let copy: Vec<u8> = copy_bytes(payload);
                queue.push_back(copy);
                assert(contents(queue@) =~= Seq::<Seq<u8>>::empty().push(payload@));
                proof {
                    assoc_push(list, peer, contents(queue@));
                }
                self.signal_inboxes.push(Inbox { peer, queue });
                assert(inbox_list(self.signal_inboxes@) =~= list.push((peer, contents(queue@))));
            },
        }
    }

    /// Inbound signaling: file the payload in the peer's inbox, claiming the
    /// slot for a peer without a session. True if an answerer session is to
    /// be spawned. Discarded entirely when the WebRTC wire is disabled or the
    /// endpoint is closing.
    pub fn handle_signal(&mut self, source: Id, payload: &[u8]) -> (spawn_answerer: bool)
        requires
            old(self).wf(),
        ensures
            final(self).wf(),
            if !old(self)@.webrtc_enabled || old(self)@.closed_or_dead() {
                !spawn_answerer && final(self)@ == old(self)@
            } else {
                &&& spawn_answerer == !old(self)@.signaling.contains(source)
                &&& final(self)@ == (Model {
                    signaling: old(self)@.signaling.insert(source),
                    signal_inboxes: old(self)@.signal_inboxes.insert(
                        source,
                        if old(self)@.inbox(source).len() < INBOX_CAP {
                            old(self)@.inbox(source).push(payload@)
                        } else {
                            old(self)@.inbox(source)
                        },
                    ),
                    ..old(self)@
                })
            },
    {
        if !self.webrtc_enabled || self.is_closed_or_dead() {
            return false;
        }
        let spawn_answerer: bool = self.claim_session(source);
        self.file_signal(source, payload);
        spawn_answerer
    }

    /// Register an open channel to `peer`: allocate its synthetic address
    /// (`2001:db8:78::/48`) and hand it to the pump to arm a receive. Returns
    /// the address QUIC dials or accepts on. A closing endpoint refuses, and
    /// the caller closes the wire.
    pub fn register_channel(&mut self, peer: Id) -> (registered: Result<SocketAddr, Error>)
        requires
            old(self).wf(),
            old(self)@.closed_or_dead() || old(self)@.next_channel_host < u32::MAX,
        ensures
            final(self).wf(),
            match registered {
                Ok(addr) => {
                    &&& !old(self)@.closed_or_dead()
                    &&& addr == doc_prefix_addr_spec(
                        CHANNEL_SPACE,
                        final(self)@.next_channel_host,
                    )
                    &&& !old(self)@.channels.dom().contains(addr)
                    &&& final(self)@ == (Model {
                        next_channel_host: (old(self)@.next_channel_host + 1) as u32,
                        channels: old(self)@.channels.insert(addr, peer),
                        new_channels: old(self)@.new_channels.push(addr),
                        ..old(self)@
                    })
                },
                Err(error) => old(self)@.closed_or_dead() && error@ == ErrorModel::Closed
                    && final(self)@ == old(self)@,
            },
    {
        if self.is_closed_or_dead() {
            return Err(Error::Closed);
        }
        let ghost list = channel_list(self.channels@);
        let host: u32 = self.next_channel_host + 1;
        let addr: SocketAddr = doc_prefix_addr(CHANNEL_SPACE, host);
        proof {
            if has_key(list, addr) {
                assert(self@.channels.dom().contains(addr));
                assert(is_channel_addr(addr, self.next_channel_host));
            }
            assoc_push(list, addr, peer);
        }
        self.next_channel_host = host;
        self.channels.push(ChannelEntry { addr, peer });
        self.new_channels.push(addr);
        assert(channel_list(self.channels@) =~= list.push((addr, peer)));
        assert forall|a: SocketAddr| #[trigger]
            self@.channels.dom().contains(a) implies is_channel_addr(a, host) by {
            if a == addr {
                assert(a == doc_prefix_addr_spec(CHANNEL_SPACE, host));
            } else {
                assert(old(self)@.channels.dom().contains(a));
                let h = choose|h: u32|
                    1 <= h <= old(self).next_channel_host && a == #[trigger] doc_prefix_addr_spec(
                        CHANNEL_SPACE,
                        h,
                    );
                assert(a == doc_prefix_addr_spec(CHANNEL_SPACE, h));
            }
        }
        Ok(addr)
    }

    /// Retire a channel that died; its connections idle out.
    pub fn remove_channel(&mut self, addr: SocketAddr)
        requires
            old(self).wf(),
        ensures
            final(self).wf(),
            final(self)@ == (Model { channels: old(self)@.channels.remove(addr), ..old(self)@ }),
    {
        match self.find_channel(addr) {
            Some(i) => {
                let ghost list = channel_list(self.channels@);
                proof {
                    assoc_remove(list, i as int);
                }
                self.channels.remove(i);
                assert(channel_list(self.channels@) =~= list.remove(i as int));
            },
            None => {
                assert(self@.channels.remove(addr) =~= self@.channels);
            },
        }
    }

    /// Whether the channel at `addr` is still open.
    pub fn has_channel(&self, addr: SocketAddr) -> (open: bool)
        requires
            self.wf(),
        ensures
            open == self@.channels.dom().contains(addr),
    {
        self.find_channel(addr).is_some()
    }

    /// The peer that the open channel at `addr` was signaled with.
    pub fn channel_peer(&self, addr: SocketAddr) -> (peer: Option<Id>)
        requires
            self.wf(),
        ensures
            peer == (if self@.channels.dom().contains(addr) {
                Some(self@.channels[addr])
            } else {
                None
            }),
    {
        match self.find_channel(addr) {
            Some(i) => Some(self.channels[i].peer),
            None => None,
        }
    }

    /// The relay died: every connection without an error fails as closed.
    pub fn mark_dead(&mut self, reason: &str)
        requires
            old(self).wf(),
        ensures
            final(self).wf(),
            final(self)@ == dead(old(self)@, reason@),
    {
        self.dead = Some(reason.to_owned());
        let ghost list = entry_list(self.conns@);
        let mut i: usize = 0;
        while i < self.conns.len()
            invariant
                i <= self.conns@.len(),
                self.conns@.len() == old(self).conns@.len(),
                list == entry_list(old(self).conns@),
                forall|j: int|
                    0 <= j < self.conns@.len() ==> #[trigger] self.conns@[j].handle == old(
                        self,
                    ).conns@[j].handle,
                forall|j: int|
                    0 <= j < i ==> #[trigger] self.conns@[j]@ == failed_entry(
                        old(self).conns@[j]@,
                    ),
                forall|j: int|
                    i <= j < self.conns@.len() ==> #[trigger] self.conns@[j] == old(
                        self,
                    ).conns@[j],
                self.dead matches Some(r) && r@ == reason@,
                *self == (State { conns: self.conns, dead: self.dead, ..*old(self) }),
            decreases self.conns@.len() - i,
        {
            if self.conns[i].error.is_none() {
                self.conns[i].error = Some(Error::Closed);
            }
            i = i + 1;
        }
        proof {
            let f = |e: EntryModel| failed_entry(e);
            let now = entry_list(self.conns@);
            assert forall|j: int| 0 <= j < list.len() implies #[trigger] now[j] == (
                list[j].0,
                f(list[j].1),
            ) by {
                assert(self.conns@[j].handle == old(self).conns@[j].handle);
                assert(self.conns@[j]@ == failed_entry(old(self).conns@[j]@));
            }
            assoc_map(list, now, f);
        }
    }

    /// Record a connection that QUIC just opened under `handle`. A handle
    /// that QUIC reuses replaces the connection it named before.
    pub fn insert_conn(&mut self, handle: usize, expected_peer: Option<Id>, accepted_side: bool)
        requires
            old(self).wf(),
        ensures
            final(self).wf(),
            final(self)@ == (Model {
                conns: old(self)@.conns.insert(handle, fresh_entry(expected_peer, accepted_side)),
                ..old(self)@
            }),
    {
        let ghost list = entry_list(self.conns@);
        let ghost fresh = fresh_entry(expected_peer, accepted_side);
        match self.find_conn(handle) {
            Some(i) => {
                self.conns[i] = ConnEntry::new(handle, expected_peer, accepted_side);
                proof {
                    assoc_update(list, i as int, fresh);
                    assert(entry_list(self.conns@) =~= list.update(
                        i as int,
                        (list[i as int].0, fresh),
                    ));
                }
            },
            None => {
                proof {
                    assoc_push(list, handle, fresh);
                }
                self.conns.push(ConnEntry::new(handle, expected_peer, accepted_side));
                assert(entry_list(self.conns@) =~= list.push((handle, fresh)));
            },
        }
    }

    /// Record a connection that was dialed under `handle`: it has to
    /// authenticate as `peer`, whatever path it takes.
    pub fn record_dial(&mut self, handle: usize, peer: Id)
        requires
            old(self).wf(),
        ensures
            final(self).wf(),
            final(self)@ == old(self)@.with_dial(handle, peer),
    {
        self.insert_conn(handle, Some(peer), false);
    }

    /// Queue a transmit on the wire that its destination belongs to.
    pub fn route(&mut self, destination: SocketAddr, datagram: Vec<u8>)
        requires
            old(self).wf(),
        ensures
            final(self).wf(),
            final(self)@ == old(self)@.routed(destination, datagram@),
            final(self).conns == old(self).conns,
    {
        match self.peer_at(destination) {
            Some(peer) => {
                self.relay_outbound.push_back((peer, datagram));
                assert(self@.relay_outbound =~= old(self)@.relay_outbound.push((peer, datagram@)));
            },
            None => {
                if self.has_channel(destination) {
                    self.channel_outbound.push_back((destination, datagram));
                    assert(self@.channel_outbound =~= old(self)@.channel_outbound.push(
                        (destination, datagram@),
                    ));
                } else {
                    self.udp_outbound.push_back((destination, datagram));
                    assert(self@.udp_outbound =~= old(self)@.udp_outbound.push(
                        (destination, datagram@),
                    ));
                }
            },
        }
    }

    /// A relayed datagram enters QUIC under its sender's standin.
    pub fn handle_relay_datagram(&mut self, source: Id, payload: Vec<u8>) -> (inbound: Inbound)
        requires
            old(self).wf(),
            old(self)@.room_for(source),
        ensures
            final(self).wf(),
            final(self)@ == old(self)@.with_peer(source),
            inbound.addr == final(self)@.addr_of(source),
            inbound.source == Some(source),
            inbound.payload@ == payload@,
    {
        let addr: SocketAddr = self.addr_for_peer(source);
        Inbound { addr, source: Some(source), payload }
    }

    /// A datagram from the UDP socket enters QUIC under its real address,
    /// with no claim about the sender.
    pub fn handle_udp_datagram(&self, remote: SocketAddr, payload: Vec<u8>) -> (inbound: Inbound)
        ensures
            inbound.addr == remote,
            inbound.source is None,
            inbound.payload@ == payload@,
    {
        Inbound { addr: remote, source: None, payload }
    }

    /// A datagram from a channel enters QUIC under the channel's synthetic
    /// address, attributed to the signaling-authenticated peer; one from a
    /// retired channel is dropped.
    pub fn handle_channel_datagram(&self, addr: SocketAddr, payload: Vec<u8>) -> (inbound: Option<
        Inbound,
    >)
        requires
            self.wf(),
        ensures
            match inbound {
                Some(inbound) => self@.channels.dom().contains(addr) && inbound.addr == addr
                    && inbound.source == Some(self@.channels[addr]) && inbound.payload@ == payload@,
                None => !self@.channels.dom().contains(addr),
            },
    {
        match self.find_channel(addr) {
            Some(i) => Some(Inbound { addr, source: Some(self.channels[i].peer), payload }),
            None => None,
        }
    }

    /// Act on what QUIC made of a datagram. A new connection is refused
    /// silently once the endpoint is closed.
    pub fn handle_datagram(
        &mut self,
        addr: SocketAddr,
        source: Option<Id>,
        outcome: DatagramOutcome,
    ) -> (action: DatagramAction)
        requires
            old(self).wf(),
        ensures
            final(self).wf(),
            final(self)@ == (match outcome {
                DatagramOutcome::Response(payload) => old(self)@.answered(addr, source, payload@),
                _ => old(self)@,
            }),
            action == (match outcome {
                DatagramOutcome::ConnectionEvent(handle) => if old(self)@.conns.dom().contains(
                    handle,
                ) {
                    DatagramAction::Deliver(handle)
                } else {
                    DatagramAction::Nothing
                },
                DatagramOutcome::NewConnection => if old(self)@.closed {
                    DatagramAction::Nothing
                } else {
                    DatagramAction::Accept
                },
                _ => DatagramAction::Nothing,
            }),
    {
        match outcome {
            DatagramOutcome::ConnectionEvent(handle) => {
                if self.find_conn(handle).is_some() {
                    DatagramAction::Deliver(handle)
                } else {
                    DatagramAction::Nothing
                }
            },
            DatagramOutcome::NewConnection => {
                if self.closed {
                    DatagramAction::Nothing
                } else {
                    DatagramAction::Accept
                }
            },
            DatagramOutcome::Response(payload) => {
                self.push_response(addr, source, payload.as_slice());
                DatagramAction::Nothing
            },
            DatagramOutcome::Ignored => DatagramAction::Nothing,
        }
    }

    /// Act on what became of accepting a connection from `source`.
    pub fn handle_accept(
        &mut self,
        addr: SocketAddr,
        source: Option<Id>,
        outcome: AcceptOutcome,
    )
        requires
            old(self).wf(),
        ensures
            final(self).wf(),
            final(self)@ == (match outcome {
                AcceptOutcome::Accepted(handle) => Model {
                    conns: old(self)@.conns.insert(handle, fresh_entry(source, true)),
                    ..old(self)@
                },
                AcceptOutcome::Refused(Some(payload)) => old(self)@.answered(
                    addr,
                    source,
                    payload@,
                ),
                AcceptOutcome::Refused(None) => old(self)@,
            }),
    {
        match outcome {
            AcceptOutcome::Accepted(handle) => {
                self.insert_conn(handle, source, true);
            },
            AcceptOutcome::Refused(response) => {
                match response {
                    Some(payload) => {
                        self.push_response(addr, source, payload.as_slice());
                    },
                    None => {},
                }
            },
        }
    }

    /// Queue a direct answer: through the relay where the sender is
    /// authenticated, back to the address otherwise.
    pub fn push_response(&mut self, addr: SocketAddr, source: Option<Id>, payload: &[u8])
        requires
            old(self).wf(),
        ensures
            final(self).wf(),
            final(self)@ == old(self)@.answered(addr, source, payload@),
    {
        let copy: Vec<u8> = copy_bytes(payload);
        match source {
            Some(peer) => {
                self.relay_outbound.push_back((peer, copy));
                assert(self@.relay_outbound =~= old(self)@.relay_outbound.push((peer, payload@)));
            },
            None => {
                self.udp_outbound.push_back((addr, copy));
                assert(self@.udp_outbound =~= old(self)@.udp_outbound.push((addr, payload@)));
            },
        }
    }

    /// The next datagram for the relay.
    pub fn pop_relay(&mut self) -> (item: Option<(Id, Vec<u8>)>)
        requires
            old(self).wf(),
        ensures
            final(self).wf(),
            match item {
                Some((to, datagram)) => old(self)@.relay_outbound.len() > 0 && (to, datagram@) == old(
                    self,
                )@.relay_outbound[0] && final(self)@ == (Model {
                    relay_outbound: old(self)@.relay_outbound.drop_first(),
                    ..old(self)@
                }),
                None => old(self)@.relay_outbound.len() == 0 && final(self)@ == old(self)@,
            },
    {
        if self.relay_outbound.len() == 0 {
            return None;
        }
        let item: Option<(Id, Vec<u8>)> = self.relay_outbound.pop_front();
        assert(self@ =~= (Model {
            relay_outbound: old(self)@.relay_outbound.drop_first(),
            ..old(self)@
        }));
        item
    }

    /// The next datagram for the UDP socket.
    pub fn pop_udp(&mut self) -> (item: Option<(SocketAddr, Vec<u8>)>)
        requires
            old(self).wf(),
        ensures
            final(self).wf(),
            match item {
                Some((to, datagram)) => old(self)@.udp_outbound.len() > 0 && (to, datagram@) == old(
                    self,
                )@.udp_outbound[0] && final(self)@ == (Model {
                    udp_outbound: old(self)@.udp_outbound.drop_first(),
                    ..old(self)@
                }),
                None => old(self)@.udp_outbound.len() == 0 && final(self)@ == old(self)@,
            },
    {
        if self.udp_outbound.len() == 0 {
            return None;
        }
        let item: Option<(SocketAddr, Vec<u8>)> = self.udp_outbound.pop_front();
        assert(self@ =~= (Model {
            udp_outbound: old(self)@.udp_outbound.drop_first(),
            ..old(self)@
        }));
        item
    }

    /// The next datagram for a channel.
    pub fn pop_channel(&mut self) -> (item: Option<(SocketAddr, Vec<u8>)>)
        requires
            old(self).wf(),
        ensures
            final(self).wf(),
            match item {
                Some((to, datagram)) => old(self)@.channel_outbound.len() > 0 && (to, datagram@) == old(
                    self,
                )@.channel_outbound[0] && final(self)@ == (Model {
                    channel_outbound: old(self)@.channel_outbound.drop_first(),
                    ..old(self)@
                }),
                None => old(self)@.channel_outbound.len() == 0 && final(self)@ == old(self)@,
            },
    {
        if self.channel_outbound.len() == 0 {
            return None;
        }
        let item: Option<(SocketAddr, Vec<u8>)> = self.channel_outbound.pop_front();
        assert(self@ =~= (Model {
            channel_outbound: old(self)@.channel_outbound.drop_first(),
            ..old(self)@
        }));
        item
    }

    /// The next channel to arm a receive on.
    pub fn pop_new_channel(&mut self) -> (addr: Option<SocketAddr>)
        requires
            old(self).wf(),
        ensures
            final(self).wf(),
            match addr {
                Some(addr) => old(self)@.new_channels.len() > 0 && addr == old(
                    self,
                )@.new_channels[0] && final(self)@ == (Model {
                    new_channels: old(self)@.new_channels.drop_first(),
                    ..old(self)@
                }),
                None => old(self)@.new_channels.len() == 0 && final(self)@ == old(self)@,
            },
    {
        if self.new_channels.len() == 0 {
            return None;
        }
        let addr: SocketAddr = self.new_channels.remove(0);
        assert(self@ =~= (Model {
            new_channels: old(self)@.new_channels.drop_first(),
            ..old(self)@
        }));
        Some(addr)
    }
}

/// A transmit to a peer's standin is queued for the relay, addressed to that
/// peer, behind everything that waits there; nothing else changes.
pub proof fn relay_transmits_queue_for_their_peer(m: Model, i: int, datagram: Seq<u8>)
    requires
        m.valid(),
        0 <= i < m.peers.len(),
    ensures
        ({
            let after = m.routed(doc_prefix_addr_spec(0x77, (i + 1) as u32), datagram);
            let n = m.relay_outbound.len();
            &&& after.relay_outbound.len() == n + 1
            &&& after.relay_outbound[n as int] == (m.peers[i], datagram)
            &&& forall|k: int| 0 <= k < n ==> after.relay_outbound[k] == m.relay_outbound[k]
            &&& after == Model { relay_outbound: after.relay_outbound, ..m }
        }),
{
    relay_peer_at(m, i);
}

/// A transmit to an open channel is queued for that channel, and any other
/// for the UDP socket, behind everything that waits there; nothing else
/// changes.
pub proof fn other_transmits_queue_for_their_wire(
    m: Model,
    destination: SocketAddr,
    datagram: Seq<u8>,
)
    requires
        forall|i: int|
            0 <= i < m.peers.len() ==> destination != #[trigger] doc_prefix_addr_spec(
                0x77,
                (i + 1) as u32,
            ),
    ensures
        ({
            let after = m.routed(destination, datagram);
            if m.channels.dom().contains(destination) {
                let n = m.channel_outbound.len();
                &&& after.channel_outbound.len() == n + 1
                &&& after.channel_outbound[n as int] == (destination, datagram)
                &&& forall|k: int| 0 <= k < n ==> after.channel_outbound[k] == m.channel_outbound[k]
                &&& after == Model { channel_outbound: after.channel_outbound, ..m }
            } else {
                let n = m.udp_outbound.len();
                &&& after.udp_outbound.len() == n + 1
                &&& after.udp_outbound[n as int] == (destination, datagram)
                &&& forall|k: int| 0 <= k < n ==> after.udp_outbound[k] == m.udp_outbound[k]
                &&& after == Model { udp_outbound: after.udp_outbound, ..m }
            }
        }),
{
    assert forall|i: int| 0 <= i < m.peers.len() implies destination != #[trigger] standin(i) by {
        assert(destination != doc_prefix_addr_spec(0x77, (i + 1) as u32));
    }
}

/// A direct answer goes back through the relay to an authenticated sender, and
/// to the sender's address otherwise, behind everything that waits there.
pub proof fn answers_go_back_to_the_sender(
    m: Model,
    addr: SocketAddr,
    source: Option<Id>,
    payload: Seq<u8>,
)
    ensures
        ({
            let after = m.answered(addr, source, payload);
            match source {
                Some(peer) => {
                    let n = m.relay_outbound.len();
                    &&& after.relay_outbound.len() == n + 1
                    &&& after.relay_outbound[n as int] == (peer, payload)
                    &&& forall|k: int| 0 <= k < n ==> after.relay_outbound[k] == m.relay_outbound[k]
                    &&& after == Model { relay_outbound: after.relay_outbound, ..m }
                },
                None => {
                    let n = m.udp_outbound.len();
                    &&& after.udp_outbound.len() == n + 1
                    &&& after.udp_outbound[n as int] == (addr, payload)
                    &&& forall|k: int| 0 <= k < n ==> after.udp_outbound[k] == m.udp_outbound[k]
                    &&& after == Model { udp_outbound: after.udp_outbound, ..m }
                },
            }
        }),
{
}

/// Peers are given standins in the order they are met, from host 1 on, in the
/// relay's space of the documentation prefix; meeting one again changes
/// nothing.
pub proof fn peers_get_the_next_standin(m: Model, peer: Id)
    requires
        m.valid(),
        m.room_for(peer),
    ensures
        m.peers.contains(peer) ==> m.with_peer(peer) == m,
        !m.peers.contains(peer) ==> {
            &&& m.with_peer(peer) == (Model { peers: m.with_peer(peer).peers, ..m })
            &&& m.with_peer(peer).peers.len() == m.peers.len() + 1
            &&& forall|i: int|
                0 <= i < m.peers.len() ==> m.with_peer(peer).peers[i] == m.peers[i]
            &&& m.with_peer(peer).addr_of(peer) == doc_prefix_addr_spec(
                0x77,
                (m.peers.len() + 1) as u32,
            )
        },
        forall|i: int|
            0 <= i < m.peers.len() && m.peers[i] == peer ==> m.addr_of(peer)
                == #[trigger] doc_prefix_addr_spec(0x77, (i + 1) as u32),
{
    let after = m.with_peer(peer);
    if !m.peers.contains(peer) {
        assert(after.peers[m.peers.len() as int] == peer);
        assert(after.peers.contains(peer));
        let k = after.peers.index_of(peer);
        assert(0 <= k < after.peers.len() && after.peers[k] == peer);
        assert(k == m.peers.len());
    }
    assert forall|i: int| 0 <= i < m.peers.len() && m.peers[i] == peer implies m.addr_of(peer)
        == #[trigger] doc_prefix_addr_spec(0x77, (i + 1) as u32) by {
        assert(m.peers.contains(peer));
        let k = m.peers.index_of(peer);
        assert(0 <= k < m.peers.len() && m.peers[k] == peer);
        assert(k == i);
    }
}

/// An endpoint is over once it is closed or its relay is dead.
pub proof fn endpoints_end_by_closing_or_dying(m: Model)
    ensures
        m.closed_or_dead() <==> m.closed || m.dead is Some,
{
}

/// A dialed connection is recorded as one that has to authenticate as the
/// dialed peer; the others stay as they are.
pub proof fn dials_are_recorded_for_their_peer(m: Model, handle: usize, peer: Id, other: usize)
    ensures
        ({
            let after = m.with_dial(handle, peer);
            &&& after.conns.dom().contains(handle)
            &&& after.conns[handle].expected_peer == Some(peer)
            &&& !after.conns[handle].accepted_side
            &&& !after.conns[handle].connected
            &&& after.conns[handle].error is None
            &&& other != handle ==> (after.conns.dom().contains(other)
                <==> m.conns.dom().contains(other)) && after.conns[other] == m.conns[other]
            &&& after == Model { conns: after.conns, ..m }
        }),
{
}

/// A peer's unread signals are those in its inbox, and none without one.
pub proof fn unread_signals_are_those_filed(m: Model, peer: Id)
    ensures
        m.signal_inboxes.dom().contains(peer) ==> m.inbox(peer) == m.signal_inboxes[peer],
        !m.signal_inboxes.dom().contains(peer) ==> m.inbox(peer).len() == 0,
{
}

/// What an endpoint has queued is seen whole: every datagram with its
/// destination and bytes, in order.
pub proof fn queued_datagrams_are_seen_whole(st: State, i: int)
    ensures
        st@.relay_outbound.len() == st.relay_outbound@.len(),
        0 <= i < st.relay_outbound@.len() ==> st@.relay_outbound[i].0 == st.relay_outbound@[i].0
            && st@.relay_outbound[i].1 == st.relay_outbound@[i].1@,
        st@.udp_outbound.len() == st.udp_outbound@.len(),
        0 <= i < st.udp_outbound@.len() ==> st@.udp_outbound[i].0 == st.udp_outbound@[i].0
            && st@.udp_outbound[i].1 == st.udp_outbound@[i].1@,
        st@.channel_outbound.len() == st.channel_outbound@.len(),
        0 <= i < st.channel_outbound@.len() ==> st@.channel_outbound[i].0
            == st.channel_outbound@[i].0 && st@.channel_outbound[i].1
            == st.channel_outbound@[i].1@,
{
}

/// What an endpoint keeps is seen whole: its connections by their handles, its
/// inboxes by their peers, its channels by their addresses, and the rest as it
/// is.
pub proof fn endpoints_are_seen_whole(st: State, i: int, k: int)
    requires
        st.wf(),
    ensures
        0 <= i < st.conns@.len() ==> st@.conns.dom().contains(st.conns@[i].handle)
            && st@.conns[st.conns@[i].handle] == st.conns@[i]@,
        0 <= i < st.signal_inboxes@.len() ==> {
            let inbox = st.signal_inboxes@[i];
            &&& st@.signal_inboxes.dom().contains(inbox.peer)
            &&& st@.signal_inboxes[inbox.peer].len() == inbox.queue@.len()
            &&& 0 <= k < inbox.queue@.len() ==> st@.signal_inboxes[inbox.peer][k]
                == inbox.queue@[k]@
        },
        0 <= i < st.channels@.len() ==> st@.channels.dom().contains(st.channels@[i].addr)
            && st@.channels[st.channels@[i].addr] == st.channels@[i].peer,
        st@.peers == st.peers@,
        st@.accept_queue == st.accept_queue@,
        st@.webrtc_enabled == st.webrtc_enabled,
        forall|id: Id| st@.signaling.contains(id) <==> st.signaling@.contains(id),
        st@.new_channels == st.new_channels@,
        st@.next_channel_host == st.next_channel_host,
        st@.closed == st.closed,
        st@.closed_at == st.closed_at,
        st@.dead is Some <==> st.dead is Some,
        st.dead matches Some(reason) ==> st@.dead == Some(reason@),
{
    if 0 <= i < st.conns@.len() {
        assoc_at(entry_list(st.conns@), i);
    }
    if 0 <= i < st.signal_inboxes@.len() {
        assoc_at(inbox_list(st.signal_inboxes@), i);
    }
    if 0 <= i < st.channels@.len() {
        assoc_at(channel_list(st.channels@), i);
    }
}

/// The spaces of the standins, an inbox's cap, and the text about a second session.
pub proof fn numbers_of_the_endpoint()
    ensures
        RELAY_SPACE == 0x77,
        CHANNEL_SPACE == 0x78,
        INBOX_CAP == 64,
        SESSION_ACTIVE@ == "a webrtc signaling session with this peer is already active"@,
{
}

} // verus!
