//! What the exported resources read and change of an endpoint's state.

use super::entry::EntryModel;
use super::error::Error;
use super::error::ErrorModel;
use super::state::entry_list;
use super::state::same_handles;
use super::state::Model;
use super::state::State;
use super::stream::read_after_error;
use crate::addr::Id;
use crate::addr::SocketAddr;
use crate::assoc::assoc_at;
use crate::assoc::assoc_update;
use crate::assoc::has_key;
use crate::assoc::position;
use crate::bytes::copy_bytes;
use vstd::prelude::*;

verus! {

/// The close reason of a closed endpoint.
pub const ENDPOINT_CLOSED: &'static str = "endpoint closed";

/// The close reason of a dropped endpoint.
pub const ENDPOINT_DROPPED: &'static str = "endpoint dropped";

/// A connection as its holder sees it.
#[derive(Clone, Copy, Debug, PartialEq, Eq, Structural)]
pub enum ConnectionState {
    Connecting,
    Open,
    Closed,
}

/// Which way a stream carries data.
#[derive(Clone, Copy, Debug, PartialEq, Eq, Structural)]
pub enum Dir {
    Bi,
    Uni,
}

/// A connection's next QUIC timer, in nanoseconds on the caller's clock.
pub struct Deadline {
    pub handle: usize,
    pub at: Option<u64>,
}

/// The timer has run out by `now`.
pub open spec fn is_due(deadline: Deadline, now: u64) -> bool {
    deadline.at matches Some(at) && at <= now
}

/// The handles of the timers that have run out by `now`, in order.
pub open spec fn due_handles(deadlines: Seq<Deadline>, now: u64) -> Seq<usize>
    decreases deadlines.len(),
{
    if deadlines.len() == 0 {
        Seq::empty()
    } else {
        let rest = due_handles(deadlines.drop_last(), now);
        if is_due(deadlines.last(), now) {
            rest.push(deadlines.last().handle)
        } else {
            rest
        }
    }
}

/// The connections whose timers have run out by `now`.
pub fn handle_timeouts(deadlines: &Vec<Deadline>, now: u64) -> (due: Vec<usize>)
    ensures
        due@ == due_handles(deadlines@, now),
{
    let mut due: Vec<usize> = Vec::new();
    let mut i: usize = 0;
    while i < deadlines.len()
        invariant
            i <= deadlines@.len(),
            due@ == due_handles(deadlines@.take(i as int), now),
        decreases deadlines@.len() - i,
    {
        assert(deadlines@.take(i + 1).drop_last() =~= deadlines@.take(i as int));
        if let Some(at) = deadlines[i].at {
            if at <= now {
                due.push(deadlines[i].handle);
            }
        }
        i = i + 1;
    }
    assert(deadlines@.take(i as int) =~= deadlines@);
    due
}

/// The connection as its holder sees it.
pub open spec fn state_of(e: EntryModel) -> ConnectionState {
    if e.over() {
        ConnectionState::Closed
    } else if e.connected {
        ConnectionState::Open
    } else {
        ConnectionState::Connecting
    }
}

/// `handles` are, once each, the connections that can still be closed.
pub open spec fn are_closable(m: Model, handles: Seq<usize>) -> bool {
    &&& handles.no_duplicates()
    &&& forall|h: usize| #[trigger]
        handles.contains(h) <==> m.conns.dom().contains(h) && !m.conns[h].over()
}

/// Why nothing can be done on a connection: its own error, or the endpoint's
/// end.
pub open spec fn failure(m: Model, handle: usize) -> Option<ErrorModel> {
    if m.conns[handle].error is Some {
        m.conns[handle].error
    } else if m.closed_or_dead() {
        Some(ErrorModel::Closed)
    } else {
        None
    }
}

/// The connection is up: its handshake is over, and nothing has failed.
pub open spec fn is_up(m: Model, handle: usize) -> bool {
    failure(m, handle) is None && m.conns[handle].connected
}

/// The authenticated peer of a connection; empty before its handshake ends.
pub open spec fn reported_peer(m: Model, handle: usize) -> Seq<u8> {
    match m.conns[handle].peer {
        Some(id) => id@,
        None => Seq::empty(),
    }
}

/// The streams that wait to be handed out.
pub open spec fn streams_in(entry: EntryModel, dir: Dir) -> Seq<u64> {
    match dir {
        Dir::Bi => entry.bi_queue,
        Dir::Uni => entry.uni_queue,
    }
}

/// The state with the first waiting stream handed out.
pub open spec fn taken(m: Model, handle: usize, dir: Dir) -> Model {
    let entry = m.conns[handle];
    let rest = match dir {
        Dir::Bi => EntryModel { bi_queue: entry.bi_queue.drop_first(), ..entry },
        Dir::Uni => EntryModel { uni_queue: entry.uni_queue.drop_first(), ..entry },
    };
    Model { conns: m.conns.insert(handle, rest), ..m }
}

impl State {
    /// The connections to close with the endpoint: those without an error
    /// that have not drained.
    pub fn close_all(&self) -> (handles: Vec<usize>)
        requires
            self.wf(),
        ensures
            are_closable(self@, handles@),
    {
        let ghost list = entry_list(self.conns@);
        let mut handles: Vec<usize> = Vec::new();
        let mut i: usize = 0;
        while i < self.conns.len()
            invariant
                i <= self.conns@.len(),
                self.wf(),
                list == entry_list(self.conns@),
                handles@.no_duplicates(),
                forall|h: usize| #[trigger]
                    handles@.contains(h) <==> exists|j: int|
                        0 <= j < i && #[trigger] self.conns@[j].handle == h
                            && !self.conns@[j]@.over(),
            decreases self.conns@.len() - i,
        {
            let ghost before = handles@;
            let ghost handle = self.conns@[i as int].handle;
            if self.conns[i].error.is_none() && !self.conns[i].drained {
                proof {
                    if handles@.contains(handle) {
                        let j = choose|j: int|
                            0 <= j < i && #[trigger] self.conns@[j].handle == handle
                                && !self.conns@[j]@.over();
                        assert(list[j].0 == list[i as int].0);
                    }
                }
                handles.push(self.conns[i].handle);
                assert forall|h: usize| #[trigger] handles@.contains(h) <==> before.contains(h) || h
                    == handle by {
                    if before.contains(h) {
                        let k = choose|k: int| 0 <= k < before.len() && before[k] == h;
                        assert(handles@[k] == h);
                    }
                    if h == handle {
                        assert(handles@[before.len() as int] == h);
                    }
                }
            }
            assert forall|h: usize| #[trigger] handles@.contains(h) <==> exists|j: int|
                0 <= j < i + 1 && #[trigger] self.conns@[j].handle == h
                    && !self.conns@[j]@.over() by {
                if before.contains(h) {
                    let j = choose|j: int|
                        0 <= j < i && #[trigger] self.conns@[j].handle == h
                            && !self.conns@[j]@.over();
                    assert(self.conns@[j].handle == h);
                }
            }
            i = i + 1;
        }
        assert forall|h: usize| #[trigger] handles@.contains(h) <==> self@.conns.dom().contains(h)
            && !self@.conns[h].over() by {
            if handles@.contains(h) {
                let j = choose|j: int|
                    0 <= j < self.conns@.len() && #[trigger] self.conns@[j].handle == h
                        && !self.conns@[j]@.over();
                assert(list[j].0 == h);
                assoc_at(list, j);
            }
            if has_key(list, h) {
                let j = position(list, h);
                assert(list[j].0 == h);
                assert(self.conns@[j].handle == h);
                assoc_at(list, j);
            }
        }
        handles
    }

    /// Close the endpoint, once. Returns the connections to close with it.
    pub fn close(&mut self, now: u64) -> (handles: Vec<usize>)
        requires
            old(self).wf(),
        ensures
            final(self).wf(),
            if old(self)@.closed {
                final(self)@ == old(self)@ && handles@.len() == 0
            } else {
                &&& final(self)@ == (Model { closed: true, closed_at: Some(now), ..old(self)@ })
                &&& are_closable(old(self)@, handles@)
            },
    {
        if self.closed {
            return Vec::new();
        }
        self.closed = true;
        self.closed_at = Some(now);
        self.close_all()
    }

    /// The next connection to hand to the application: a waiting one, or
    /// nothing yet. A closed or dead endpoint hands out none.
    pub fn poll_accept(&mut self) -> (accepted: Option<Result<usize, Error>>)
        requires
            old(self).wf(),
        ensures
            final(self).wf(),
            if old(self)@.closed_or_dead() {
                &&& accepted matches Some(Err(error)) && error@ == ErrorModel::Closed
                &&& final(self)@ == old(self)@
            } else if old(self)@.accept_queue.len() > 0 {
                &&& accepted matches Some(Ok(handle)) && handle == old(self)@.accept_queue[0]
                    && old(self)@.conns.dom().contains(handle)
                &&& final(self)@ == (Model {
                    accept_queue: old(self)@.accept_queue.drop_first(),
                    ..old(self)@
                })
            } else {
                accepted is None && final(self)@ == old(self)@
            },
    {
        if self.is_closed_or_dead() {
            return Some(Err(Error::Closed));
        }
        match self.accept_queue.pop_front() {
            Some(handle) => {
                assert(self@.accept_queue =~= old(self)@.accept_queue.drop_first());
                assert(old(self)@.conns.dom().contains(old(self)@.accept_queue[0]));
                assert forall|i: int| 0 <= i < self@.accept_queue.len() implies #[trigger]
                    self@.conns.dom().contains(self@.accept_queue[i]) by {
                    assert(old(self)@.conns.dom().contains(old(self)@.accept_queue[i + 1]));
                }
                Some(Ok(handle))
            },
            None => None,
        }
    }

    /// The address to dial: the chosen one, or `peer`'s relay standin. A
    /// closing or dead endpoint dials nothing.
    pub fn begin_dial(&mut self, peer: Id, remote: Option<SocketAddr>) -> (dialed: Result<
        SocketAddr,
        Error,
    >)
        requires
            old(self).wf(),
            old(self)@.closed_or_dead() || remote is Some || old(self)@.room_for(peer),
        ensures
            final(self).wf(),
            match dialed {
                Ok(addr) => !old(self)@.closed_or_dead() && match remote {
                    Some(chosen) => addr == chosen && final(self)@ == old(self)@,
                    None => final(self)@ == old(self)@.with_peer(peer) && addr
                        == final(self)@.addr_of(peer),
                },
                Err(error) => old(self)@.closed_or_dead() && error@ == ErrorModel::Closed
                    && final(self)@ == old(self)@,
            },
    {
        if self.is_closed_or_dead() {
            return Err(Error::Closed);
        }
        match remote {
            Some(chosen) => Ok(chosen),
            None => Ok(self.addr_for_peer(peer)),
        }
    }

    /// Why nothing can be done on the connection, where that is so: its own
    /// error, or the endpoint's end.
    pub fn poll_error(&self, handle: usize) -> (error: Option<Error>)
        requires
            self.wf(),
            self@.conns.dom().contains(handle),
        ensures
            match error {
                Some(error) => failure(self@, handle) == Some(error@),
                None => failure(self@, handle) is None,
            },
    {
        match self.find_conn(handle) {
            Some(i) => match &self.conns[i].error {
                Some(error) => Some(error.clone()),
                None => if self.is_closed_or_dead() {
                    Some(Error::Closed)
                } else {
                    None
                },
            },
            None => None,
        }
    }

    /// Whether a dialed connection has failed, is up, or is still pending.
    pub fn poll_connected(&self, handle: usize) -> (connected: Option<Result<(), Error>>)
        requires
            self.wf(),
            self@.conns.dom().contains(handle),
        ensures
            match connected {
                Some(Err(error)) => failure(self@, handle) == Some(error@),
                Some(Ok(())) => is_up(self@, handle),
                None => failure(self@, handle) is None && !self@.conns[handle].connected,
            },
    {
        match self.poll_error(handle) {
            Some(error) => Some(Err(error)),
            None => match self.find_conn(handle) {
                Some(i) => if self.conns[i].connected {
                    Some(Ok(()))
                } else {
                    None
                },
                None => None,
            },
        }
    }

    /// What a read comes to before QUIC is asked: a failure on a dead
    /// endpoint, what the connection's error means to a read, or nothing yet.
    pub fn poll_read(&self, handle: usize) -> (read: Option<Result<Option<Vec<u8>>, Error>>)
        requires
            self.wf(),
            self@.conns.dom().contains(handle),
        ensures
            match read {
                Some(Err(error)) => failure(self@, handle) == Some(error@) && (self@.dead is Some
                    || error@ != ErrorModel::Closed),
                Some(Ok(bytes)) => bytes is None && self@.dead is None && failure(self@, handle)
                    == Some(ErrorModel::Closed),
                None => failure(self@, handle) is None,
            },
    {
        match self.poll_error(handle) {
            Some(error) => if self.dead.is_some() {
                Some(Err(error))
            } else {
                Some(read_after_error(error))
            },
            None => None,
        }
    }

    /// The next stream the peer opened, or the connection's error, or nothing
    /// yet. Streams that arrived before a connection's error are still handed
    /// out, but none on a closed or dead endpoint.
    pub fn accept_stream(&mut self, handle: usize, dir: Dir) -> (accepted: Option<
        Result<u64, Error>,
    >)
        requires
            old(self).wf(),
            old(self)@.conns.dom().contains(handle),
        ensures
            final(self).wf(),
            ({
                let waiting = streams_in(old(self)@.conns[handle], dir);
                let over = old(self)@.closed_or_dead();
                match accepted {
                    Some(Ok(id)) => !over && waiting.len() > 0 && id == waiting[0] && final(self)@
                        == taken(old(self)@, handle, dir),
                    Some(Err(error)) => (over || waiting.len() == 0) && failure(
                        old(self)@,
                        handle,
                    ) == Some(error@) && final(self)@ == old(self)@,
                    None => waiting.len() == 0 && failure(old(self)@, handle) is None
                        && final(self)@ == old(self)@,
                }
            }),
    {
        if self.is_closed_or_dead() {
            return match self.poll_error(handle) {
                Some(error) => Some(Err(error)),
                None => None,
            };
        }
        let ghost list = entry_list(self.conns@);
        match self.find_conn(handle) {
            Some(i) => {
                let ghost entry = self.conns@[i as int]@;
                let popped: Option<u64> = match dir {
                    Dir::Bi => self.conns[i].bi_queue.pop_front(),
                    Dir::Uni => self.conns[i].uni_queue.pop_front(),
                };
                match popped {
                    Some(id) => {
                        proof {
                            let now = self.conns@[i as int]@;
                            match dir {
                                Dir::Bi => {
                                    assert(now =~= EntryModel {
                                        bi_queue: entry.bi_queue.drop_first(),
                                        ..entry
                                    });
                                },
                                Dir::Uni => {
                                    assert(now =~= EntryModel {
                                        uni_queue: entry.uni_queue.drop_first(),
                                        ..entry
                                    });
                                },
                            }
                            assoc_update(list, i as int, now);
                            assert(entry_list(self.conns@) =~= list.update(
                                i as int,
                                (list[i as int].0, now),
                            ));
                        }
                        Some(Ok(id))
                    },
                    None => {
                        assert(self.conns@[i as int]@ =~= entry);
                        assert(entry_list(self.conns@) =~= list);
                        match self.poll_error(handle) {
                            Some(error) => Some(Err(error)),
                            None => None,
                        }
                    },
                }
            },
            None => None,
        }
    }

    /// The authenticated peer's identity; empty before the handshake ends.
    pub fn peer(&self, handle: usize) -> (peer: Vec<u8>)
        requires
            self.wf(),
            self@.conns.dom().contains(handle),
        ensures
            peer@ == reported_peer(self@, handle),
    {
        match self.find_conn(handle) {
            Some(i) => match &self.conns[i].peer {
                Some(id) => copy_bytes(id.as_slice()),
                None => Vec::new(),
            },
            None => Vec::new(),
        }
    }

    /// The negotiated application protocol.
    pub fn alpn(&self, handle: usize) -> (alpn: Vec<u8>)
        requires
            self.wf(),
            self@.conns.dom().contains(handle),
        ensures
            alpn@ == self@.conns[handle].alpn,
    {
        match self.find_conn(handle) {
            Some(i) => copy_bytes(self.conns[i].alpn.as_slice()),
            None => Vec::new(),
        }
    }

    /// The connection as its holder sees it.
    pub fn state(&self, handle: usize) -> (state: ConnectionState)
        requires
            self.wf(),
            self@.conns.dom().contains(handle),
        ensures
            state == state_of(self@.conns[handle]),
    {
        match self.find_conn(handle) {
            Some(i) => if self.conns[i].drained || self.conns[i].error.is_some() {
                ConnectionState::Closed
            } else if self.conns[i].connected {
                ConnectionState::Open
            } else {
                ConnectionState::Connecting
            },
            None => ConnectionState::Closed,
        }
    }

    /// Record that QUIC has drained the connection.
    pub fn mark_drained(&mut self, handle: usize)
        requires
            old(self).wf(),
            old(self)@.conns.dom().contains(handle),
        ensures
            final(self).wf(),
            final(self)@ == (Model {
                conns: old(self)@.conns.insert(
                    handle,
                    (EntryModel { drained: true, ..old(self)@.conns[handle] }),
                ),
                ..old(self)@
            }),
            same_handles(old(self).conns@, final(self).conns@),
    {
        let ghost list = entry_list(self.conns@);
        match self.find_conn(handle) {
            Some(i) => {
                self.conns[i].drained = true;
                proof {
                    let now = self.conns@[i as int]@;
                    assoc_update(list, i as int, now);
                    assert(entry_list(self.conns@) =~= list.update(
                        i as int,
                        (list[i as int].0, now),
                    ));
                }
            },
            None => {},
        }
    }
}

/// An open connection has an authenticated peer: the one it was meant for,
/// where it was meant for one.
pub proof fn open_connections_are_authenticated(m: Model, handle: usize)
    requires
        m.valid(),
        m.conns.dom().contains(handle),
        state_of(m.conns[handle]) == ConnectionState::Open,
    ensures
        m.conns[handle].peer is Some,
        m.conns[handle].expected_peer is Some ==> m.conns[handle].peer
            == m.conns[handle].expected_peer,
{
}

/// Timers are looked at one by one, in order: one that has run out gives its
/// connection, one that has not, or that is not set, gives nothing.
pub proof fn timers_run_out_one_by_one(a: Seq<Deadline>, b: Seq<Deadline>, timer: Deadline, now: u64)
    ensures
        due_handles(Seq::empty(), now).len() == 0,
        due_handles(seq![timer], now) == (match timer.at {
            Some(at) => if at <= now {
                seq![timer.handle]
            } else {
                Seq::<usize>::empty()
            },
            None => Seq::<usize>::empty(),
        }),
        due_handles(a + b, now) == due_handles(a, now) + due_handles(b, now),
    decreases b.len(),
{
    reveal_with_fuel(due_handles, 2);
    assert(seq![timer].drop_last() =~= Seq::<Deadline>::empty());
    assert(due_handles(seq![timer].drop_last(), now) =~= Seq::<usize>::empty());
    assert(Seq::<usize>::empty().push(timer.handle) =~= seq![timer.handle]);
    if b.len() == 0 {
        assert(a + b =~= a);
        assert(due_handles(a, now) + due_handles(b, now) =~= due_handles(a, now));
    } else {
        assert((a + b).drop_last() =~= a + b.drop_last());
        assert((a + b).last() == b.last());
        timers_run_out_one_by_one(a, b.drop_last(), timer, now);
        assert(due_handles(a + b, now) =~= due_handles(a, now) + due_handles(b, now));
    }
}

/// A connection is closed once it has drained or failed, else open once its
/// handshake is over, else connecting.
pub proof fn states_follow_the_connection(e: EntryModel)
    ensures
        state_of(e) == ConnectionState::Closed <==> e.drained || e.error is Some,
        state_of(e) == ConnectionState::Open <==> !e.drained && e.error is None && e.connected,
{
}

/// Nothing can be done on a connection with an error, whose error is then
/// reported, nor on any connection of an endpoint that is closed or dead.
pub proof fn failures_are_the_connections_or_the_endpoints(m: Model, handle: usize)
    ensures
        m.conns[handle].error is Some ==> failure(m, handle) == m.conns[handle].error,
        m.conns[handle].error is None && (m.closed || m.dead is Some) ==> failure(m, handle)
            == Some(ErrorModel::Closed),
        m.conns[handle].error is None && !m.closed && m.dead is None ==> failure(m, handle) is None,
        is_up(m, handle) <==> m.conns[handle].connected && m.conns[handle].error is None
            && !m.closed && m.dead is None,
{
}

/// The reported peer is the authenticated one.
pub proof fn reported_peers_are_authenticated(m: Model, handle: usize)
    ensures
        m.conns[handle].peer matches Some(id) ==> reported_peer(m, handle) == id@,
        m.conns[handle].peer is None ==> reported_peer(m, handle).len() == 0,
{
}

/// Handing a stream out takes the first off its own queue; the others, the
/// other direction and every other connection stay as they are.
pub proof fn streams_are_handed_out_from_the_front(m: Model, handle: usize, other: usize)
    requires
        m.conns.dom().contains(handle),
    ensures
        ({
            let entry = m.conns[handle];
            let after = taken(m, handle, Dir::Bi);
            let e = after.conns[handle];
            entry.bi_queue.len() > 0 ==> {
                &&& streams_in(entry, Dir::Bi) == entry.bi_queue
                &&& e.bi_queue.len() == entry.bi_queue.len() - 1
                &&& forall|i: int| 0 <= i < e.bi_queue.len() ==> e.bi_queue[i] == entry.bi_queue[i
                    + 1]
                &&& e == EntryModel { bi_queue: e.bi_queue, ..entry }
                &&& other != handle ==> after.conns[other] == m.conns[other]
                &&& after.conns.dom() =~= m.conns.dom()
                &&& after == Model { conns: after.conns, ..m }
            }
        }),
        ({
            let entry = m.conns[handle];
            let after = taken(m, handle, Dir::Uni);
            let e = after.conns[handle];
            entry.uni_queue.len() > 0 ==> {
                &&& streams_in(entry, Dir::Uni) == entry.uni_queue
                &&& e.uni_queue.len() == entry.uni_queue.len() - 1
                &&& forall|i: int|
                    0 <= i < e.uni_queue.len() ==> e.uni_queue[i] == entry.uni_queue[i + 1]
                &&& e == EntryModel { uni_queue: e.uni_queue, ..entry }
                &&& other != handle ==> after.conns[other] == m.conns[other]
                &&& after.conns.dom() =~= m.conns.dom()
                &&& after == Model { conns: after.conns, ..m }
            }
        }),
{
}

/// What is closed with an endpoint is every connection that has neither
/// drained nor failed, once, and no other.
pub proof fn endpoints_close_what_is_still_open(m: Model, handles: Seq<usize>, i: int, j: int)
    requires
        are_closable(m, handles),
    ensures
        forall|h: usize| #[trigger]
            handles.contains(h) <==> m.conns.dom().contains(h) && !m.conns[h].drained
                && m.conns[h].error is None,
        0 <= i < j < handles.len() ==> handles[i] != handles[j],
{
}

/// The reasons that connections are closed with.
pub proof fn reasons_of_closing()
    ensures
        ENDPOINT_CLOSED@ == "endpoint closed"@,
        ENDPOINT_DROPPED@ == "endpoint dropped"@,
{
}

} // verus!
