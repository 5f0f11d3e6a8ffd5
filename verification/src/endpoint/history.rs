//! What a connection keeps over an endpoint's life, whatever is done to the
//! endpoint.

use super::conn::is_up;
use super::conn::reported_peer;
use super::conn::streams_in;
use super::conn::taken;
use super::conn::Dir;
use super::dial::plan_fits;
use super::dial::DialPlan;
use super::dial::TransportAddr;
use super::drain::state_after;
use super::drain::DrainReply;
use super::entry::events_keep_authentication;
use super::entry::fresh_entry;
use super::entry::ConnEvent;
use super::pump::dead;
use super::state::Model;
use crate::addr::Id;
use super::pump::signaled;
use crate::addr::SocketAddr;
use vstd::prelude::*;

verus! {

/// What is done to an endpoint, by what it does to the connections.
pub enum Operation {
    /// A connection is recorded under a handle.
    Insert { handle: usize, expected_peer: Option<Id>, accepted_side: bool },
    /// What QUIC answered of a connection is taken note of.
    Reply { handle: usize, reply: DrainReply },
    /// A waiting stream is handed out.
    Take { handle: usize, dir: Dir },
    /// The relay dies.
    Die { reason: Seq<char> },
    /// Anything that leaves the connections alone.
    Rest,
}

/// The operation leads from the one state to the other.
pub open spec fn performs(m: Model, op: Operation, next: Model) -> bool {
    match op {
        Operation::Insert { handle, expected_peer, accepted_side } => next == (Model {
            conns: m.conns.insert(handle, fresh_entry(expected_peer, accepted_side)),
            ..m
        }),
        Operation::Reply { handle, reply } => m.conns.dom().contains(handle) && next == state_after(
            m,
            handle,
            reply,
        ),
        Operation::Take { handle, dir } => m.conns.dom().contains(handle) && next == taken(
            m,
            handle,
            dir,
        ),
        Operation::Die { reason } => next == dead(m, reason),
        Operation::Rest => next.conns == m.conns,
    }
}

/// The operation records a new connection under `handle`.
pub open spec fn reuses(op: Operation, handle: usize) -> bool {
    op matches Operation::Insert { handle: h, .. } && h == handle
}

/// An endpoint's life: `ops[i]` leads from `models[i]` to the next.
pub open spec fn is_life(models: Seq<Model>, ops: Seq<Operation>) -> bool {
    &&& models.len() == ops.len() + 1
    &&& forall|i: int| 0 <= i < ops.len() ==> performs(models[i], #[trigger] ops[i], models[i + 1])
}

/// The connection is there, meant for `expected`, and has not authenticated
/// as anyone else.
pub open spec fn is_meant_for(m: Model, handle: usize, expected: Option<Id>) -> bool {
    &&& m.conns.dom().contains(handle)
    &&& m.conns[handle].expected_peer == expected
    &&& m.conns[handle].authenticated()
}

/// Every operation leaves a connection meant for the peer it was meant for.
pub proof fn operations_keep_expectations(
    m: Model,
    op: Operation,
    next: Model,
    handle: usize,
    expected: Option<Id>,
)
    requires
        performs(m, op, next),
        !reuses(op, handle),
        is_meant_for(m, handle, expected),
    ensures
        is_meant_for(next, handle, expected),
{
    if let Operation::Reply { handle: h, reply } = op {
        if let DrainReply::Event(Some(event)) = reply {
            if h == handle {
                events_keep_authentication(m.conns[handle], event);
            }
        }
    }
}

/// A connection that was dialed is connected, if at all, to the peer that was
/// dialed: whatever happened since, when it is reported as up, the key that
/// the handshake authenticated is the dialed one.
pub proof fn dialed_connections_reach_their_peer(
    models: Seq<Model>,
    ops: Seq<Operation>,
    handle: usize,
    peer: Id,
)
    requires
        is_life(models, ops),
        models[0].conns.dom().contains(handle),
        models[0].conns[handle] == fresh_entry(Some(peer), false),
        forall|i: int| 0 <= i < ops.len() ==> !reuses(#[trigger] ops[i], handle),
    ensures
        is_meant_for(models.last(), handle, Some(peer)),
        is_up(models.last(), handle) ==> models.last().conns[handle].peer == Some(peer),
    decreases ops.len(),
{
    if ops.len() > 0 {
        let n = ops.len() - 1;
        let ms = models.drop_last();
        let os = ops.drop_last();
        assert forall|i: int| 0 <= i < os.len() implies performs(
            ms[i],
            #[trigger] os[i],
            ms[i + 1],
        ) by {
            assert(performs(models[i], ops[i], models[i + 1]));
        }
        assert forall|i: int| 0 <= i < os.len() implies !reuses(#[trigger] os[i], handle) by {
            assert(os[i] == ops[i]);
        }
        dialed_connections_reach_their_peer(ms, os, handle, peer);
        assert(performs(models[n], ops[n], models[n + 1]));
        operations_keep_expectations(models[n], ops[n], models[n + 1], handle, Some(peer));
    }
}

/// A connect that succeeds reaches the identity it was given, on every path:
/// where a plan for `endpoint_id` was dialed and recorded under `handle`, and
/// the connection is up after whatever was done since, its peer is
/// `endpoint_id`.
pub proof fn connects_reach_the_given_identity(
    endpoint_id: Seq<u8>,
    addrs: Seq<TransportAddr>,
    relay_url: Seq<char>,
    has_udp: bool,
    webrtc_enabled: bool,
    plan: DialPlan,
    before: Model,
    models: Seq<Model>,
    ops: Seq<Operation>,
    handle: usize,
)
    requires
        plan_fits(endpoint_id, addrs, relay_url, has_udp, webrtc_enabled, plan),
        is_life(models, ops),
        models[0] == before.with_dial(handle, plan.peer),
        forall|i: int| 0 <= i < ops.len() ==> !reuses(#[trigger] ops[i], handle),
        is_up(models.last(), handle),
    ensures
        reported_peer(models.last(), handle) == endpoint_id,
{
    dialed_connections_reach_their_peer(models, ops, handle, plan.peer);
}

/// What happens to the streams that wait on a connection.
pub enum StreamTurn {
    /// QUIC reports something of the connection.
    Reported(ConnEvent),
    /// The application is handed this stream.
    HandedOut(u64),
    /// Something that leaves the waiting streams alone.
    Elsewhere,
}

/// The turn leads from the one state to the other.
pub open spec fn stream_turn(
    before: Model,
    handle: usize,
    dir: Dir,
    turn: StreamTurn,
    after: Model,
) -> bool {
    &&& before.conns.dom().contains(handle)
    &&& match turn {
        StreamTurn::Reported(event) => after == state_after(
            before,
            handle,
            DrainReply::Event(Some(event)),
        ),
        StreamTurn::HandedOut(id) => {
            let waiting = streams_in(before.conns[handle], dir);
            waiting.len() > 0 && id == waiting[0] && after == taken(before, handle, dir)
        },
        StreamTurn::Elsewhere => waiting_streams(after, handle, dir) == waiting_streams(
            before,
            handle,
            dir,
        ),
    }
}

/// The streams of a direction that wait to be handed out.
pub open spec fn waiting_streams(m: Model, handle: usize, dir: Dir) -> Seq<u64> {
    match dir {
        Dir::Bi => m.conns[handle].bi_queue,
        Dir::Uni => m.conns[handle].uni_queue,
    }
}

/// A run of turns: `turns[i]` leads from `models[i]` to the next.
pub open spec fn is_stream_run(
    models: Seq<Model>,
    handle: usize,
    dir: Dir,
    turns: Seq<StreamTurn>,
) -> bool {
    &&& models.len() == turns.len() + 1
    &&& forall|i: int|
        0 <= i < turns.len() ==> stream_turn(
            models[i],
            handle,
            dir,
            #[trigger] turns[i],
            models[i + 1],
        )
}

/// The streams of a direction that QUIC reported as opened, in order.
pub open spec fn all_opened(turns: Seq<StreamTurn>, dir: Dir) -> Seq<u64>
    decreases turns.len(),
{
    if turns.len() == 0 {
        Seq::empty()
    } else {
        all_opened(turns.drop_last(), dir) + match turns.last() {
            StreamTurn::Reported(
                ConnEvent::StreamsOpened { bidirectional, unidirectional },
            ) => match dir {
                Dir::Bi => bidirectional@,
                Dir::Uni => unidirectional@,
            },
            _ => Seq::empty(),
        }
    }
}

/// The streams that were handed out, in order.
pub open spec fn all_handed_out(turns: Seq<StreamTurn>) -> Seq<u64>
    decreases turns.len(),
{
    if turns.len() == 0 {
        Seq::empty()
    } else {
        match turns.last() {
            StreamTurn::HandedOut(id) => all_handed_out(turns.drop_last()).push(id),
            _ => all_handed_out(turns.drop_last()),
        }
    }
}

/// Streams are accepted in the order they were opened: over any run, what was
/// handed out and then what still waits is what waited at first and then what
/// was reported as opened. None is lost, repeated or overtaken.
pub proof fn streams_are_accepted_as_opened(
    models: Seq<Model>,
    handle: usize,
    dir: Dir,
    turns: Seq<StreamTurn>,
)
    requires
        is_stream_run(models, handle, dir, turns),
    ensures
        all_handed_out(turns) + waiting_streams(models.last(), handle, dir) == waiting_streams(
            models[0],
            handle,
            dir,
        ) + all_opened(turns, dir),
    decreases turns.len(),
{
    let first = waiting_streams(models[0], handle, dir);
    if turns.len() == 0 {
        assert(all_handed_out(turns) + first =~= first + all_opened(turns, dir));
    } else {
        let n = turns.len() - 1;
        let ms = models.drop_last();
        let ts = turns.drop_last();
        assert forall|i: int| 0 <= i < ts.len() implies stream_turn(
            ms[i],
            handle,
            dir,
            #[trigger] ts[i],
            ms[i + 1],
        ) by {
            assert(stream_turn(models[i], handle, dir, turns[i], models[i + 1]));
        }
        streams_are_accepted_as_opened(ms, handle, dir, ts);
        assert(stream_turn(models[n], handle, dir, turns[n], models[n + 1]));
        assert(ms.last() == models[n]);
        let before = waiting_streams(models[n], handle, dir);
        let after = waiting_streams(models[n + 1], handle, dir);
        match turns[n] {
            StreamTurn::Reported(event) => {
                let opened = match event {
                    ConnEvent::StreamsOpened { bidirectional, unidirectional } => match dir {
                        Dir::Bi => bidirectional@,
                        Dir::Uni => unidirectional@,
                    },
                    _ => Seq::<u64>::empty(),
                };
                assert(after =~= before + opened);
                assert(all_handed_out(turns) + after =~= (all_handed_out(ts) + before) + opened);
                assert(first + all_opened(turns, dir) =~= (first + all_opened(ts, dir)) + opened);
            },
            StreamTurn::HandedOut(id) => {
                assert(before =~= seq![id] + after);
                assert(all_handed_out(turns) + after =~= all_handed_out(ts) + before);
                assert(all_opened(turns, dir) =~= all_opened(ts, dir));
            },
            StreamTurn::Elsewhere => {
                assert(all_opened(turns, dir) =~= all_opened(ts, dir));
            },
        }
    }
}

/// What happens to a peer's signals.
pub enum SignalTurn {
    /// A signal from the peer arrives, at an endpoint that takes signals.
    Filed(Seq<u8>),
    /// The oldest unread signal is read.
    Read(Seq<u8>),
    /// Anything that leaves the peer's inbox alone.
    Other,
}

/// The turn leads from the one state to the other.
pub open spec fn signal_turn(before: Model, peer: Id, turn: SignalTurn, after: Model) -> bool {
    match turn {
        SignalTurn::Filed(signal) => before.webrtc_enabled && !before.closed && before.dead is None
            && after == signaled(before, peer, signal),
        SignalTurn::Read(payload) => before.inbox(peer).len() > 0 && payload == before.inbox(
            peer,
        )[0] && after == (Model {
            signal_inboxes: before.signal_inboxes.insert(peer, before.inbox(peer).drop_first()),
            ..before
        }),
        SignalTurn::Other => after.inbox(peer) == before.inbox(peer),
    }
}

/// A run of a peer's signals: `turns[i]` leads from `models[i]` to the next.
pub open spec fn is_signal_run(models: Seq<Model>, turns: Seq<SignalTurn>, peer: Id) -> bool {
    &&& models.len() == turns.len() + 1
    &&& forall|i: int|
        0 <= i < turns.len() ==> signal_turn(models[i], peer, #[trigger] turns[i], models[i + 1])
}

/// The signals that arrived while fewer than 64 were unread, in order.
pub open spec fn all_filed(models: Seq<Model>, turns: Seq<SignalTurn>, peer: Id) -> Seq<Seq<u8>>
    decreases turns.len(),
{
    if turns.len() == 0 {
        Seq::empty()
    } else {
        let n = turns.len() - 1;
        let earlier = all_filed(models.drop_last(), turns.drop_last(), peer);
        match turns[n] {
            SignalTurn::Filed(signal) => if models[n].inbox(peer).len() < 64 {
                earlier.push(signal)
            } else {
                earlier
            },
            _ => earlier,
        }
    }
}

/// The signals that were read, in order.
pub open spec fn all_read(turns: Seq<SignalTurn>) -> Seq<Seq<u8>>
    decreases turns.len(),
{
    if turns.len() == 0 {
        Seq::empty()
    } else {
        match turns.last() {
            SignalTurn::Read(payload) => all_read(turns.drop_last()).push(payload),
            _ => all_read(turns.drop_last()),
        }
    }
}

/// A peer's signals are read in the order they arrived: what was read, and
/// then what is unread, are those that found room, each once and whole.
pub proof fn signals_are_read_as_filed(models: Seq<Model>, turns: Seq<SignalTurn>, peer: Id)
    requires
        is_signal_run(models, turns, peer),
        models[0].inbox(peer).len() == 0,
    ensures
        all_read(turns) + models.last().inbox(peer) == all_filed(models, turns, peer),
    decreases turns.len(),
{
    if turns.len() == 0 {
        assert(all_read(turns) + models.last().inbox(peer) =~= all_filed(models, turns, peer));
    } else {
        let n = turns.len() - 1;
        let ms = models.drop_last();
        let ts = turns.drop_last();
        assert forall|i: int| 0 <= i < ts.len() implies signal_turn(
            ms[i],
            peer,
            #[trigger] ts[i],
            ms[i + 1],
        ) by {
            assert(signal_turn(models[i], peer, turns[i], models[i + 1]));
        }
        signals_are_read_as_filed(ms, ts, peer);
        assert(signal_turn(models[n], peer, turns[n], models[n + 1]));
        assert(ms.last() == models[n]);
        assert(all_read(turns) + models.last().inbox(peer) =~= all_filed(models, turns, peer));
    }
}

/// What happens to the relay's queue.
pub enum WireTurn {
    /// A transmit is queued for its destination.
    Routed { destination: SocketAddr, datagram: Seq<u8> },
    /// The first waiting datagram is sent.
    Flushed { peer: Id, datagram: Seq<u8> },
    /// Anything that leaves the relay's queue alone.
    Other,
}

/// The turn leads from the one state to the other.
pub open spec fn wire_turn(before: Model, turn: WireTurn, after: Model) -> bool {
    match turn {
        WireTurn::Routed { destination, datagram } => after == before.routed(destination, datagram),
        WireTurn::Flushed { peer, datagram } => before.relay_outbound.len() > 0 && (peer, datagram)
            == before.relay_outbound[0] && after == (Model {
            relay_outbound: before.relay_outbound.drop_first(),
            ..before
        }),
        WireTurn::Other => after.relay_outbound == before.relay_outbound,
    }
}

/// A run of the relay's queue: `turns[i]` leads from `models[i]` to the next.
pub open spec fn is_wire_run(models: Seq<Model>, turns: Seq<WireTurn>) -> bool {
    &&& models.len() == turns.len() + 1
    &&& forall|i: int|
        0 <= i < turns.len() ==> wire_turn(models[i], #[trigger] turns[i], models[i + 1])
}

/// The transmits to a standin, each with the peer that stood there, in order.
pub open spec fn all_relayed(models: Seq<Model>, turns: Seq<WireTurn>) -> Seq<(Id, Seq<u8>)>
    decreases turns.len(),
{
    if turns.len() == 0 {
        Seq::empty()
    } else {
        let n = turns.len() - 1;
        let earlier = all_relayed(models.drop_last(), turns.drop_last());
        match turns[n] {
            WireTurn::Routed { destination, datagram } => match models[n].relay_peer(destination) {
                Some(peer) => earlier.push((peer, datagram)),
                None => earlier,
            },
            _ => earlier,
        }
    }
}

/// The datagrams that were sent, in order.
pub open spec fn all_flushed(turns: Seq<WireTurn>) -> Seq<(Id, Seq<u8>)>
    decreases turns.len(),
{
    if turns.len() == 0 {
        Seq::empty()
    } else {
        match turns.last() {
            WireTurn::Flushed { peer, datagram } => all_flushed(turns.drop_last()).push(
                (peer, datagram),
            ),
            _ => all_flushed(turns.drop_last()),
        }
    }
}

/// The relay carries the transmits to standins, and nothing else, in the order
/// they were made: what was sent, and then what waits, are those transmits,
/// each once, whole, and for the peer whose standin it was made to.
pub proof fn transmits_are_relayed_in_order(models: Seq<Model>, turns: Seq<WireTurn>)
    requires
        is_wire_run(models, turns),
        models[0].relay_outbound.len() == 0,
    ensures
        all_flushed(turns) + models.last().relay_outbound == all_relayed(models, turns),
    decreases turns.len(),
{
    if turns.len() == 0 {
        assert(all_flushed(turns) + models.last().relay_outbound =~= all_relayed(models, turns));
    } else {
        let n = turns.len() - 1;
        let ms = models.drop_last();
        let ts = turns.drop_last();
        assert forall|i: int| 0 <= i < ts.len() implies wire_turn(
            ms[i],
            #[trigger] ts[i],
            ms[i + 1],
        ) by {
            assert(wire_turn(models[i], turns[i], models[i + 1]));
        }
        transmits_are_relayed_in_order(ms, ts);
        assert(wire_turn(models[n], turns[n], models[n + 1]));
        assert(ms.last() == models[n]);
        assert(all_flushed(turns) + models.last().relay_outbound =~= all_relayed(models, turns));
    }
}

} // verus!
