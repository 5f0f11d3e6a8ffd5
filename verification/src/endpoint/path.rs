//! Which wire carries a connection: the path that an address stands for, and
//! connections that move from the relay to a data channel and back.

use super::state::standins_are_distinct;
use super::state::standins_are_stable;
use super::state::standin;
use super::state::is_channel_addr;
use super::state::Model;
use super::state::State;
use super::state::CHANNEL_SPACE;
use super::state::RELAY_SPACE;
use crate::addr::doc_prefix_addr;
use crate::addr::doc_prefix_addr_spec;
use crate::addr::same_id;
use crate::addr::Id;
use crate::addr::SocketAddr;
use crate::assoc::assoc;
use crate::assoc::assoc_at;
use crate::assoc::assoc_push;
use crate::assoc::assoc_update;
use crate::assoc::distinct_keys;
use crate::assoc::has_key;
use crate::assoc::position;
use vstd::prelude::*;

verus! {

/// The wire that carries a connection.
#[derive(Clone, Copy, Debug, PartialEq, Eq, Structural)]
pub enum PathKind {
    Relay,
    Ip,
    Webrtc,
}

/// The wire that datagrams to `addr` are queued on.
pub open spec fn path_at(m: Model, addr: SocketAddr) -> PathKind {
    if m.relay_peer(addr) is Some {
        PathKind::Relay
    } else if m.channels.dom().contains(addr) {
        PathKind::Webrtc
    } else {
        PathKind::Ip
    }
}

impl State {
    /// The wire that datagrams to `addr` are queued on.
    pub fn path_of(&self, addr: SocketAddr) -> (path: PathKind)
        requires
            self.wf(),
        ensures
            path == path_at(self@, addr),
    {
        if self.peer_at(addr).is_some() {
            PathKind::Relay
        } else if self.has_channel(addr) {
            PathKind::Webrtc
        } else {
            PathKind::Ip
        }
    }

    /// The standin of a peer that was met.
    fn standin_of(&self, peer: &Id) -> (addr: Option<SocketAddr>)
        requires
            self.wf(),
        ensures
            match addr {
                Some(addr) => self@.peers.contains(*peer) && addr == self@.addr_of(*peer),
                None => !self@.peers.contains(*peer),
            },
    {
        let mut i: usize = 0;
        while i < self.peers.len()
            invariant
                i <= self.peers@.len(),
                self.wf(),
                forall|j: int| 0 <= j < i ==> self.peers@[j] != *peer,
            decreases self.peers@.len() - i,
        {
            if same_id(&self.peers[i], peer) {
                assert(self.peers@.contains(*peer));
                let ghost k = self.peers@.index_of(*peer);
                assert(0 <= k < self.peers@.len() && self.peers@[k] == *peer);
                assert(k == i);
                return Some(doc_prefix_addr(RELAY_SPACE, i as u32 + 1));
            }
            i = i + 1;
        }
        None
    }
}

/// A peer, and the channel that its relay traffic moved to.
pub struct Upgrade {
    pub peer: Id,
    pub channel: SocketAddr,
}

/// Upgrades keyed by peer.
pub open spec fn upgrade_list(v: Seq<Upgrade>) -> Seq<(Id, SocketAddr)> {
    v.map_values(|u: Upgrade| (u.peer, u.channel))
}

/// The peers whose relay traffic moved to a channel.
pub struct Upgrades {
    pub list: Vec<Upgrade>,
}

impl View for Upgrades {
    type V = Map<Id, SocketAddr>;

    open spec fn view(&self) -> Map<Id, SocketAddr> {
        assoc(upgrade_list(self.list@))
    }
}

/// An open channel to `peer` stands at `addr`.
pub open spec fn leads_to(m: Model, addr: SocketAddr, peer: Id) -> bool {
    m.channels.dom().contains(addr) && m.channels[addr] == peer
}

/// Where a transmit to `destination` goes: to the channel that its peer's
/// relay traffic moved to, for as long as that channel is open.
pub open spec fn carried(
    upgrades: Map<Id, SocketAddr>,
    m: Model,
    destination: SocketAddr,
) -> SocketAddr {
    match m.relay_peer(destination) {
        Some(peer) => if upgrades.dom().contains(peer) && leads_to(m, upgrades[peer], peer) {
            upgrades[peer]
        } else {
            destination
        },
        None => destination,
    }
}

/// The address that a datagram from the channel `addr` enters QUIC under: the
/// standin of a peer whose relay traffic moved there, the channel's own
/// otherwise.
pub open spec fn homed(
    upgrades: Map<Id, SocketAddr>,
    m: Model,
    source: Id,
    addr: SocketAddr,
) -> SocketAddr {
    if upgrades.dom().contains(source) && upgrades[source] == addr && m.peers.contains(source) {
        m.addr_of(source)
    } else {
        addr
    }
}

impl Upgrades {
    /// No peer has two.
    pub open spec fn wf(&self) -> bool {
        distinct_keys(upgrade_list(self.list@))
    }

    pub fn new() -> (upgrades: Self)
        ensures
            upgrades.wf(),
            upgrades@ == Map::<Id, SocketAddr>::empty(),
    {
        let upgrades = Upgrades { list: Vec::new() };
        assert(upgrades@ =~= Map::<Id, SocketAddr>::empty());
        upgrades
    }

    fn find(&self, peer: &Id) -> (found: Option<usize>)
        requires
            self.wf(),
        ensures
            match found {
                Some(i) => i < self.list@.len() && self.list@[i as int].peer == *peer
                    && self@.dom().contains(*peer) && self@[*peer]
                    == self.list@[i as int].channel,
                None => !self@.dom().contains(*peer),
            },
    {
        let ghost list = upgrade_list(self.list@);
        let mut i: usize = 0;
        while i < self.list.len()
            invariant
                i <= self.list@.len(),
                self.wf(),
                list == upgrade_list(self.list@),
                forall|j: int| 0 <= j < i ==> self.list@[j].peer != *peer,
            decreases self.list@.len() - i,
        {
            if same_id(&self.list[i].peer, peer) {
                proof {
                    assert(list[i as int].0 == *peer);
                    assoc_at(list, i as int);
                }
                return Some(i);
            }
            i = i + 1;
        }
        proof {
            if has_key(list, *peer) {
                let p = position(list, *peer);
                assert(list[p].0 == *peer);
                assert(self.list@[p].peer == *peer);
            }
        }
        None
    }

    /// A channel to `peer` has opened: the peer's relay traffic moves there.
    pub fn flip(&mut self, peer: Id, channel: SocketAddr)
        requires
            old(self).wf(),
        ensures
            final(self).wf(),
            final(self)@ == old(self)@.insert(peer, channel),
    {
        let ghost list = upgrade_list(self.list@);
        match self.find(&peer) {
            Some(i) => {
                self.list[i].channel = channel;
                proof {
                    assoc_update(list, i as int, channel);
                    assert(upgrade_list(self.list@) =~= list.update(
                        i as int,
                        (list[i as int].0, channel),
                    ));
                }
            },
            None => {
                proof {
                    assoc_push(list, peer, channel);
                }
                self.list.push(Upgrade { peer, channel });
                assert(upgrade_list(self.list@) =~= list.push((peer, channel)));
            },
        }
    }

    /// Where a transmit to `destination` goes.
    pub fn outbound(&self, st: &State, destination: SocketAddr) -> (addr: SocketAddr)
        requires
            self.wf(),
            st.wf(),
        ensures
            addr == carried(self@, st@, destination),
    {
        match st.peer_at(destination) {
            Some(peer) => match self.find(&peer) {
                Some(i) => {
                    let channel: SocketAddr = self.list[i].channel;
                    match st.channel_peer(channel) {
                        Some(other) if same_id(&other, &peer) => channel,
                        _ => destination,
                    }
                },
                None => destination,
            },
            None => destination,
        }
    }

    /// The address that a datagram from `source`, which came in at `addr`,
    /// enters QUIC under.
    pub fn inbound(&self, st: &State, source: Id, addr: SocketAddr) -> (home: SocketAddr)
        requires
            self.wf(),
            st.wf(),
        ensures
            home == homed(self@, st@, source, addr),
    {
        match self.find(&source) {
            Some(i) => {
                if self.list[i].channel == addr {
                    match st.standin_of(&source) {
                        Some(standin) => standin,
                        None => addr,
                    }
                } else {
                    addr
                }
            },
            None => addr,
        }
    }
}

/// A relay-dialed connection flips to a channel when one opens, and flips back
/// when the channel dies; to QUIC it stays at one address throughout.
pub proof fn connections_flip_with_their_channel(
    upgrades: Map<Id, SocketAddr>,
    m: Model,
    peer: Id,
    channel: SocketAddr,
)
    requires
        m.valid(),
        m.peers.contains(peer),
        leads_to(m, channel, peer),
    ensures
        ({
            let flipped = upgrades.insert(peer, channel);
            let dead = Model { channels: m.channels.remove(channel), ..m };
            let home = m.addr_of(peer);
            &&& carried(flipped, m, home) == channel
            &&& path_at(m, carried(flipped, m, home)) == PathKind::Webrtc
            &&& homed(flipped, m, peer, channel) == home
            &&& carried(flipped, dead, home) == home
            &&& path_at(dead, carried(flipped, dead, home)) == PathKind::Relay
        }),
{
    let dead = Model { channels: m.channels.remove(channel), ..m };
    standins_are_stable(m, peer, peer);
    assert(m.with_peer(peer) == m);
    assert(dead.relay_peer(m.addr_of(peer)) == m.relay_peer(m.addr_of(peer)));
    let host = choose|host: u32|
        1 <= host <= m.next_channel_host && channel == #[trigger] doc_prefix_addr_spec(
            CHANNEL_SPACE,
            host,
        );
    assert(is_channel_addr(channel, m.next_channel_host));
    assert forall|i: int| 0 <= i < m.peers.len() implies channel != #[trigger] standin(i) by {
        standins_are_distinct(i, i, host);
    }
}

/// A transmit leaves its destination for a channel only where that is the
/// standin of a peer whose traffic moved to just this channel, and the channel
/// is open and leads to that peer.
pub proof fn transmits_move_to_their_own_peer(
    upgrades: Map<Id, SocketAddr>,
    m: Model,
    destination: SocketAddr,
)
    requires
        carried(upgrades, m, destination) != destination,
    ensures
        exists|i: int|
            {
                &&& 0 <= i < m.peers.len()
                &&& destination == #[trigger] standin(i)
                &&& upgrades.dom().contains(m.peers[i])
                &&& carried(upgrades, m, destination) == upgrades[m.peers[i]]
                &&& m.channels.dom().contains(upgrades[m.peers[i]])
                &&& m.channels[upgrades[m.peers[i]]] == m.peers[i]
            },
{
    let i = choose|i: int| 0 <= i < m.peers.len() && destination == #[trigger] standin(i);
    assert(0 <= i < m.peers.len() && destination == standin(i));
}

/// A datagram enters QUIC under its own address unless its sender's traffic
/// moved to just that address and the sender was met; then it enters under the
/// sender's standin.
pub proof fn datagrams_enter_where_their_peer_lives(
    upgrades: Map<Id, SocketAddr>,
    m: Model,
    source: Id,
    addr: SocketAddr,
)
    ensures
        !upgrades.dom().contains(source) ==> homed(upgrades, m, source, addr) == addr,
        upgrades.dom().contains(source) && upgrades[source] != addr ==> homed(
            upgrades,
            m,
            source,
            addr,
        ) == addr,
        !m.peers.contains(source) ==> homed(upgrades, m, source, addr) == addr,
        upgrades.dom().contains(source) && upgrades[source] == addr && m.peers.contains(source)
            ==> exists|i: int|
            0 <= i < m.peers.len() && m.peers[i] == source && homed(upgrades, m, source, addr)
                == #[trigger] standin(i),
{
    if upgrades.dom().contains(source) && upgrades[source] == addr && m.peers.contains(source) {
        let i = m.peers.index_of(source);
        assert(m.peers[i] == source && homed(upgrades, m, source, addr) == standin(i));
    }
}

/// An address that is no peer's standin and no channel's is on the socket; a
/// standin is on the relay, and a channel's address, which is no standin, on
/// the channel.
pub proof fn addresses_are_on_their_wire(m: Model, addr: SocketAddr)
    ensures
        (exists|i: int| 0 <= i < m.peers.len() && addr == #[trigger] standin(i)) <==> path_at(
            m,
            addr,
        ) == PathKind::Relay,
        path_at(m, addr) == PathKind::Webrtc ==> m.channels.dom().contains(addr),
        path_at(m, addr) == PathKind::Ip ==> !m.channels.dom().contains(addr),
{
}

/// Upgrades are seen whole, in order.
pub proof fn upgrades_are_seen_whole(v: Seq<Upgrade>, i: int)
    requires
        0 <= i < v.len(),
    ensures
        upgrade_list(v).len() == v.len(),
        upgrade_list(v)[i] == (v[i].peer, v[i].channel),
{
}

} // verus!
