//! Draining the QUIC state machine: endpoint-bound events, application
//! events and transmits, connection by connection, until nothing is left.

use super::entry::authenticates;
use super::entry::closes_for_mismatch;
use super::entry::entry_after;
use super::entry::mismatches;
use super::entry::on_event;
use super::entry::ConnEvent;
use super::entry::EntryModel;
use super::entry::Reaction;
use super::state::entry_list;
use super::state::same_handles;
use super::state::Model;
use super::state::State;
use crate::addr::SocketAddr;
use crate::assoc::assoc_at;
use crate::assoc::assoc_update;
use vstd::prelude::*;

verus! {

/// What is drained next of a connection.
#[derive(Clone, Copy, PartialEq, Eq, Structural)]
pub enum DrainPhase {
    EndpointEvents,
    Events,
    Transmits,
    /// Nothing is left: take note of whether QUIC has drained it.
    Settle,
}

/// Where draining stands.
#[derive(Clone, Copy, PartialEq, Eq, Structural)]
pub struct Drain {
    /// The position of the connection being drained.
    pub index: usize,
    pub phase: DrainPhase,
    /// Something came up since the current pass began.
    pub progressed: bool,
}

/// What the QUIC state machine is asked next, of the connection named.
#[derive(Clone, Copy, PartialEq, Eq, Structural)]
pub enum DrainRequest {
    /// Move one endpoint-bound event, and its answer, if there is one.
    EndpointEvent(usize),
    /// The next application event.
    Event(usize),
    /// The next transmit.
    Transmit(usize),
    /// Whether the connection has drained.
    IsDrained(usize),
    Finished,
}

/// What the QUIC state machine answered.
pub enum DrainReply {
    /// Whether there was an endpoint-bound event.
    EndpointEvent(bool),
    Event(Option<ConnEvent>),
    Transmit(Option<(SocketAddr, Vec<u8>)>),
    IsDrained(bool),
}

/// `reply` answers what `drain` asks.
pub open spec fn answers(drain: Drain, reply: DrainReply) -> bool {
    match drain.phase {
        DrainPhase::EndpointEvents => reply is EndpointEvent,
        DrainPhase::Events => reply is Event,
        DrainPhase::Transmits => reply is Transmit,
        DrainPhase::Settle => reply is IsDrained,
    }
}

/// The reply brought nothing new.
pub open spec fn is_quiet(reply: DrainReply) -> bool {
    match reply {
        DrainReply::EndpointEvent(handled) => !handled,
        DrainReply::Event(event) => event is None,
        DrainReply::Transmit(transmit) => transmit is None,
        DrainReply::IsDrained(_) => true,
    }
}

/// Where draining stands after `reply`: a source is asked until it is quiet;
/// a pass that brought anything is followed by another; a connection whose
/// pass brought nothing is settled and left.
pub open spec fn drain_after(drain: Drain, reply: DrainReply) -> Drain {
    if drain.phase == DrainPhase::Settle {
        Drain {
            index: (drain.index + 1) as usize,
            phase: DrainPhase::EndpointEvents,
            progressed: false,
        }
    } else if !is_quiet(reply) {
        Drain { progressed: true, ..drain }
    } else {
        match drain.phase {
            DrainPhase::EndpointEvents => Drain { phase: DrainPhase::Events, ..drain },
            DrainPhase::Events => Drain { phase: DrainPhase::Transmits, ..drain },
            _ => if drain.progressed {
                Drain { phase: DrainPhase::EndpointEvents, progressed: false, ..drain }
            } else {
                Drain { phase: DrainPhase::Settle, ..drain }
            },
        }
    }
}

/// The state after `event` on the connection `handle`.
pub open spec fn with_event(m: Model, handle: usize, event: ConnEvent) -> Model {
    Model {
        conns: m.conns.insert(handle, entry_after(m.conns[handle], event)),
        accept_queue: if authenticates(m.conns[handle], event) && m.conns[handle].accepted_side {
            m.accept_queue.push(handle)
        } else {
            m.accept_queue
        },
        ..m
    }
}

/// The state after `reply` on the connection `handle`.
pub open spec fn state_after(m: Model, handle: usize, reply: DrainReply) -> Model {
    match reply {
        DrainReply::Event(Some(event)) => with_event(m, handle, event),
        DrainReply::Transmit(Some((destination, datagram))) => m.routed(destination, datagram@),
        DrainReply::IsDrained(true) => Model {
            conns: m.conns.insert(handle, EntryModel { drained: true, ..m.conns[handle] }),
            ..m
        },
        _ => m,
    }
}

/// Where draining stands after `replies`, from the start of a pass over the
/// connection at `index`.
pub open spec fn drain_trace(index: usize, replies: Seq<DrainReply>) -> Drain
    decreases replies.len(),
{
    if replies.len() == 0 {
        Drain { index, phase: DrainPhase::EndpointEvents, progressed: false }
    } else {
        drain_after(drain_trace(index, replies.drop_last()), replies.last())
    }
}

/// Every reply answers what was asked at its turn.
pub open spec fn fitting(index: usize, replies: Seq<DrainReply>) -> bool
    decreases replies.len(),
{
    replies.len() == 0 || (fitting(index, replies.drop_last()) && answers(
        drain_trace(index, replies.drop_last()),
        replies.last(),
    ))
}

/// Draining leaves a connection only when it is quiescent: the last thing
/// each of its three sources said was that it has nothing.
pub proof fn drain_ends_quiescent(index: usize, replies: Seq<DrainReply>)
    requires
        fitting(index, replies),
        drain_trace(index, replies).phase == DrainPhase::Settle,
    ensures
        replies.len() >= 3,
        ({
            let n = replies.len() as int;
            &&& replies[n - 3] matches DrainReply::EndpointEvent(handled) && !handled
            &&& replies[n - 2] matches DrainReply::Event(event) && event is None
            &&& replies[n - 1] matches DrainReply::Transmit(transmit) && transmit is None
        }),
{
    let n = replies.len() as int;
    let before = replies.drop_last();
    assert(replies.len() > 0);
    let d = drain_trace(index, before);
    if d.phase == DrainPhase::Settle {
        assert(drain_trace(index, replies).phase == DrainPhase::EndpointEvents);
    }
    quiet_pass(index, before);
    assert(before[n - 3] == replies[n - 3]);
    assert(before[n - 2] == replies[n - 2]);
}

/// A pass without progress has heard nothing but silence.
proof fn quiet_pass(index: usize, replies: Seq<DrainReply>)
    requires
        fitting(index, replies),
        !drain_trace(index, replies).progressed,
    ensures
        ({
            let n = replies.len() as int;
            let d = drain_trace(index, replies);
            &&& d.phase == DrainPhase::Events ==> n >= 1 && replies[n - 1] is EndpointEvent
                && is_quiet(replies[n - 1])
            &&& d.phase == DrainPhase::Transmits ==> n >= 2 && replies[n - 2] is EndpointEvent
                && is_quiet(replies[n - 2]) && replies[n - 1] is Event && is_quiet(replies[n - 1])
        }),
    decreases replies.len(),
{
    if replies.len() > 0 {
        let before = replies.drop_last();
        let d = drain_trace(index, before);
        if drain_trace(index, replies).phase == DrainPhase::Transmits {
            assert(d.phase == DrainPhase::Events);
            assert(!d.progressed);
            quiet_pass(index, before);
            assert(before[before.len() - 1] == replies[before.len() - 1]);
        }
    }
}

impl Drain {
    pub fn new() -> (drain: Self)
        ensures
            drain == (Drain { index: 0, phase: DrainPhase::EndpointEvents, progressed: false }),
    {
        Drain { index: 0, phase: DrainPhase::EndpointEvents, progressed: false }
    }
}

/// What draining asks next.
pub open spec fn request_of(drain: Drain, handle: usize) -> DrainRequest {
    match drain.phase {
        DrainPhase::EndpointEvents => DrainRequest::EndpointEvent(handle),
        DrainPhase::Events => DrainRequest::Event(handle),
        DrainPhase::Transmits => DrainRequest::Transmit(handle),
        DrainPhase::Settle => DrainRequest::IsDrained(handle),
    }
}

impl State {
    /// What to ask the QUIC state machine next.
    pub fn drain_request(&self, drain: &Drain) -> (request: DrainRequest)
        ensures
            request == (if drain.index < self.conns@.len() {
                request_of(*drain, self.conns@[drain.index as int].handle)
            } else {
                DrainRequest::Finished
            }),
    {
        if drain.index >= self.conns.len() {
            return DrainRequest::Finished;
        }
        let handle: usize = self.conns[drain.index].handle;
        match drain.phase {
            DrainPhase::EndpointEvents => DrainRequest::EndpointEvent(handle),
            DrainPhase::Events => DrainRequest::Event(handle),
            DrainPhase::Transmits => DrainRequest::Transmit(handle),
            DrainPhase::Settle => DrainRequest::IsDrained(handle),
        }
    }

    /// Record `event` on the connection at `index`.
    fn event_at(&mut self, index: usize, event: ConnEvent) -> (reaction: Reaction)
        requires
            old(self).wf(),
            index < old(self).conns@.len(),
        ensures
            final(self).wf(),
            same_handles(old(self).conns@, final(self).conns@),
            final(self)@ == with_event(old(self)@, old(self).conns@[index as int].handle, event),
            if mismatches(old(self).conns@[index as int]@, event) {
                closes_for_mismatch(reaction)
            } else {
                reaction is Nothing
            },
    {
        let ghost list = entry_list(self.conns@);
        let ghost entry = self.conns@[index as int]@;
        let ghost handle = self.conns@[index as int].handle;
        let reaction: Reaction = on_event(
            &mut self.conns[index],
            event,
            &mut self.accept_queue,
        );
        proof {
            let now = entry_after(entry, event);
            assoc_at(list, index as int);
            assoc_update(list, index as int, now);
            assert(entry_list(self.conns@) =~= list.update(
                index as int,
                (list[index as int].0, now),
            ));
            assert(now.authenticated());
            assert forall|i: int| 0 <= i < self@.accept_queue.len() implies #[trigger]
                self@.conns.dom().contains(self@.accept_queue[i]) by {
                if i < old(self)@.accept_queue.len() {
                    assert(self@.accept_queue[i] == old(self)@.accept_queue[i]);
                    assert(old(self)@.conns.dom().contains(old(self)@.accept_queue[i]));
                }
            }
        }
        reaction
    }

    /// Take note of what the QUIC state machine answered, and say what has to
    /// be done to the connection.
    pub fn drain_reply(&mut self, drain: &mut Drain, reply: DrainReply) -> (reaction: Reaction)
        requires
            old(self).wf(),
            old(drain).index < old(self).conns@.len(),
            answers(*old(drain), reply),
        ensures
            final(self).wf(),
            same_handles(old(self).conns@, final(self).conns@),
            *final(drain) == drain_after(*old(drain), reply),
            final(self)@ == state_after(
                old(self)@,
                old(self).conns@[old(drain).index as int].handle,
                reply,
            ),
            if reply matches DrainReply::Event(Some(event)) && mismatches(
                old(self).conns@[old(drain).index as int]@,
                event,
            ) {
                closes_for_mismatch(reaction)
            } else {
                reaction is Nothing
            },
    {
        let index: usize = drain.index;
        let count: usize = self.conns.len();
        assert(index < count);
        proof {
            assoc_at(entry_list(self.conns@), index as int);
        }
        match reply {
            DrainReply::EndpointEvent(handled) => {
                if handled {
                    drain.progressed = true;
                } else {
                    drain.phase = DrainPhase::Events;
                }
                Reaction::Nothing
            },
            DrainReply::Event(event) => {
                match event {
                    Some(event) => {
                        drain.progressed = true;
                        self.event_at(index, event)
                    },
                    None => {
                        drain.phase = DrainPhase::Transmits;
                        Reaction::Nothing
                    },
                }
            },
            DrainReply::Transmit(transmit) => {
                match transmit {
                    Some((destination, datagram)) => {
                        drain.progressed = true;
                        self.route(destination, datagram);
                    },
                    None => {
                        if drain.progressed {
                            drain.phase = DrainPhase::EndpointEvents;
                            drain.progressed = false;
                        } else {
                            drain.phase = DrainPhase::Settle;
                        }
                    },
                }
                Reaction::Nothing
            },
            DrainReply::IsDrained(drained) => {
                if drained {
                    let handle: usize = self.conns[index].handle;
                    self.mark_drained(handle);
                }
                drain.index = index + 1;
                drain.phase = DrainPhase::EndpointEvents;
                drain.progressed = false;
                Reaction::Nothing
            },
        }
    }
}

/// What QUIC reports of a connection touches that connection alone: the
/// others stay as they are, and it joins the accept queue, at the back,
/// exactly if it authenticated on the accepting side.
pub proof fn reports_touch_their_connection_alone(
    m: Model,
    handle: usize,
    event: ConnEvent,
    other: usize,
)
    requires
        m.conns.dom().contains(handle),
        other != handle,
    ensures
        ({
            let after = state_after(m, handle, DrainReply::Event(Some(event)));
            let surfaces = authenticates(m.conns[handle], event) && m.conns[handle].accepted_side;
            &&& after.conns.dom() =~= m.conns.dom()
            &&& after.conns[handle] == entry_after(m.conns[handle], event)
            &&& after.conns[other] == m.conns[other]
            &&& surfaces ==> after.accept_queue.len() == m.accept_queue.len() + 1
                && after.accept_queue.last() == handle
            &&& !surfaces ==> after.accept_queue == m.accept_queue
            &&& forall|i: int|
                0 <= i < m.accept_queue.len() ==> after.accept_queue[i] == m.accept_queue[i]
            &&& after == Model { conns: after.conns, accept_queue: after.accept_queue, ..m }
        }),
        ({
            let after = state_after(m, handle, DrainReply::IsDrained(true));
            &&& after.conns[handle] == EntryModel { drained: true, ..m.conns[handle] }
            &&& after.conns[other] == m.conns[other]
            &&& after == Model { conns: after.conns, ..m }
        }),
        state_after(m, handle, DrainReply::Event(None)) == m,
        state_after(m, handle, DrainReply::EndpointEvent(true)) == m,
        state_after(m, handle, DrainReply::EndpointEvent(false)) == m,
        state_after(m, handle, DrainReply::Transmit(None)) == m,
        state_after(m, handle, DrainReply::IsDrained(false)) == m,
{
}

/// A transmit is queued once, whole, for its destination.
pub proof fn transmits_are_routed_once(
    m: Model,
    handle: usize,
    destination: SocketAddr,
    datagram: Vec<u8>,
)
    ensures
        state_after(m, handle, DrainReply::Transmit(Some((destination, datagram)))) == m.routed(
            destination,
            datagram@,
        ),
{
}

/// Each source is asked until it has nothing, in the order endpoint-bound
/// events, application events, transmits; a pass that brought something is
/// followed by another, and one that did not by settling the connection,
/// after which the next connection has its turn.
pub proof fn drains_ask_in_order(index: usize, progressed: bool, handle: usize)
    requires
        index < usize::MAX,
    ensures
        ({
            let at = |phase: DrainPhase, progressed: bool| Drain { index, phase, progressed };
            let none = DrainReply::Transmit(None);
            &&& request_of(at(DrainPhase::EndpointEvents, progressed), handle)
                == DrainRequest::EndpointEvent(handle)
            &&& request_of(at(DrainPhase::Events, progressed), handle) == DrainRequest::Event(
                handle,
            )
            &&& request_of(at(DrainPhase::Transmits, progressed), handle) == DrainRequest::Transmit(
                handle,
            )
            &&& request_of(at(DrainPhase::Settle, progressed), handle) == DrainRequest::IsDrained(
                handle,
            )
            &&& drain_after(
                at(DrainPhase::EndpointEvents, progressed),
                DrainReply::EndpointEvent(true),
            ) == at(DrainPhase::EndpointEvents, true)
            &&& drain_after(
                at(DrainPhase::EndpointEvents, progressed),
                DrainReply::EndpointEvent(false),
            ) == at(DrainPhase::Events, progressed)
            &&& drain_after(at(DrainPhase::Events, progressed), DrainReply::Event(None)) == at(
                DrainPhase::Transmits,
                progressed,
            )
            &&& drain_after(at(DrainPhase::Transmits, true), none) == at(
                DrainPhase::EndpointEvents,
                false,
            )
            &&& drain_after(at(DrainPhase::Transmits, false), none) == at(
                DrainPhase::Settle,
                false,
            )
            &&& drain_after(at(DrainPhase::Settle, progressed), DrainReply::IsDrained(true))
                == Drain {
                index: (index + 1) as usize,
                phase: DrainPhase::EndpointEvents,
                progressed: false,
            }
        }),
{
}

/// An event and a transmit are followed by asking the same source again; a
/// settled connection, drained or not, by the next connection.
pub proof fn sources_are_asked_again(
    index: usize,
    progressed: bool,
    event: ConnEvent,
    destination: SocketAddr,
    datagram: Vec<u8>,
    drained: bool,
)
    requires
        index < usize::MAX,
    ensures
        drain_after(
            Drain { index, phase: DrainPhase::Events, progressed },
            DrainReply::Event(Some(event)),
        ) == (Drain { index, phase: DrainPhase::Events, progressed: true }),
        drain_after(
            Drain { index, phase: DrainPhase::Transmits, progressed },
            DrainReply::Transmit(Some((destination, datagram))),
        ) == (Drain { index, phase: DrainPhase::Transmits, progressed: true }),
        drain_after(
            Drain { index, phase: DrainPhase::Settle, progressed },
            DrainReply::IsDrained(drained),
        ) == (Drain {
            index: (index + 1) as usize,
            phase: DrainPhase::EndpointEvents,
            progressed: false,
        }),
{
}

} // verus!
