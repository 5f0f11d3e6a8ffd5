//! The virtualization layer's poll: local readiness first, else one wait on
//! the host for everything that maps to a host pollable.

use std::collections::VecDeque;
use vstd::prelude::*;

verus! {

/// A datagram from the host's source.
pub struct Incoming {
    pub port: u16,
    pub payload: Vec<u8>,
}

/// Datagrams with their contents.
pub open spec fn datagram_list(v: Seq<Incoming>) -> Seq<(u16, Seq<u8>)> {
    v.map_values(|d: Incoming| (d.port, d.payload@))
}

/// What a pollable stands for.
#[derive(Clone, Copy, Debug, PartialEq, Eq, Structural)]
pub enum Inner {
    /// A host pollable, by its handle.
    Host(u32),
    /// The datagram queue of a synthetic socket.
    UdpIncoming(usize),
    AlwaysReady,
    Never,
}

/// A host pollable, passed through.
pub fn host_pollable(handle: u32) -> (pollable: Inner)
    ensures
        pollable == Inner::Host(handle),
{
    Inner::Host(handle)
}

/// A failed host stream operation.
pub enum HostStreamError {
    LastOperationFailed(String),
    Closed,
}

/// A failed stream operation as the guest sees it.
pub enum StreamError {
    LastOperationFailed(String),
    Closed,
}

/// The guest's error says what the host's says.
pub open spec fn same_failure(host: HostStreamError, guest: StreamError) -> bool {
    match host {
        HostStreamError::LastOperationFailed(detail) => guest matches
            StreamError::LastOperationFailed(text) && text@ == detail@,
        HostStreamError::Closed => guest is Closed,
    }
}

/// A host stream error as the guest sees it.
pub fn conv_err(error: HostStreamError) -> (converted: StreamError)
    ensures
        same_failure(error, converted),
{
    match error {
        HostStreamError::LastOperationFailed(detail) => StreamError::LastOperationFailed(detail),
        HostStreamError::Closed => StreamError::Closed,
    }
}

/// What a host stream operation came to, as the guest sees it.
pub fn passed_through<T>(result: Result<T, HostStreamError>) -> (out: Result<T, StreamError>)
    ensures
        match result {
            Ok(value) => out == Ok::<T, StreamError>(value),
            Err(error) => out matches Err(converted) && same_failure(error, converted),
        },
{
    match result {
        Ok(value) => Ok(value),
        Err(error) => Err(conv_err(error)),
    }
}

/// The datagram queues of the synthetic sockets.
pub struct Shared {
    pub queues: Vec<VecDeque<Incoming>>,
}

/// The queues with their contents.
pub open spec fn queue_lists(v: Seq<VecDeque<Incoming>>) -> Seq<Seq<(u16, Seq<u8>)>> {
    v.map_values(|q: VecDeque<Incoming>| datagram_list(q@))
}

impl View for Shared {
    type V = Seq<Seq<(u16, Seq<u8>)>>;

    open spec fn view(&self) -> Seq<Seq<(u16, Seq<u8>)>> {
        queue_lists(self.queues@)
    }
}

impl Shared {
    /// No sockets yet.
    pub fn new() -> (shared: Self)
        ensures
            shared@ == Seq::<Seq<(u16, Seq<u8>)>>::empty(),
    {
        let shared = Shared { queues: Vec::new() };
        assert(shared@ =~= Seq::<Seq<(u16, Seq<u8>)>>::empty());
        shared
    }

    /// Add a socket's queue; its number.
    pub fn add_queue(&mut self) -> (number: usize)
        requires
            old(self)@.len() < usize::MAX,
        ensures
            number == old(self)@.len(),
            final(self)@ == old(self)@.push(Seq::empty()),
    {
        let number: usize = self.queues.len();
        self.queues.push(VecDeque::new());
        assert(self@.last() =~= Seq::<(u16, Seq<u8>)>::empty());
        assert(self@ =~= old(self)@.push(Seq::empty()));
        number
    }

    /// Append what the source gave to a queue.
    pub fn drain(&mut self, number: usize, drained: Vec<Incoming>)
        requires
            number < old(self)@.len(),
        ensures
            final(self)@ == old(self)@.update(
                number as int,
                old(self)@[number as int] + datagram_list(drained@),
            ),
    {
        let ghost before = self@[number as int];
        let ghost whole = drained@;
        let mut reversed: Vec<Incoming> = drained;
        let mut tail: VecDeque<Incoming> = VecDeque::new();
        while reversed.len() > 0
            invariant
                reversed@ + tail@ =~= whole,
            decreases reversed@.len(),
        {
            match reversed.pop() {
                Some(last) => {
                    tail.push_front(last);
                },
                None => {},
            }
        }
        assert(tail@ =~= whole);
        self.queues[number].append(&mut tail);
        assert(datagram_list(self.queues@[number as int]@) =~= before + datagram_list(whole));
        assert(self@ =~= old(self)@.update(number as int, before + datagram_list(whole)));
    }

    /// Whether a queue holds anything.
    pub fn has_queued(&self, number: usize) -> (has: bool)
        requires
            number < self@.len(),
        ensures
            has == (self@[number as int].len() > 0),
    {
        self.queues[number].len() > 0
    }

    /// Whether a queue holds anything, where the source has been drained for
    /// it: `drained` is what the source gave to a queue that was empty.
    pub fn has_data(&mut self, number: usize, drained: Vec<Incoming>) -> (has: bool)
        requires
            number < old(self)@.len(),
            old(self)@[number as int].len() > 0 ==> drained@.len() == 0,
        ensures
            final(self)@ == old(self)@.update(
                number as int,
                old(self)@[number as int] + datagram_list(drained@),
            ),
            has == (final(self)@[number as int].len() > 0),
    {
        self.drain(number, drained);
        self.has_queued(number)
    }
}

/// Readiness that can be known without asking the host; a queue that is
/// empty is worth draining first.
pub open spec fn is_ready_local(pollable: Inner, queues: Seq<Seq<(u16, Seq<u8>)>>) -> bool {
    match pollable {
        Inner::AlwaysReady => true,
        Inner::UdpIncoming(number) => queues[number as int].len() > 0,
        Inner::Host(_) => false,
        Inner::Never => false,
    }
}

/// The pollable's queue exists.
pub open spec fn is_known(pollable: Inner, queues: Seq<Seq<(u16, Seq<u8>)>>) -> bool {
    pollable matches Inner::UdpIncoming(number) ==> number < queues.len()
}

/// The source has to be drained before the pollable's readiness is known.
pub open spec fn needs_drain(pollable: Inner, queues: Seq<Seq<(u16, Seq<u8>)>>) -> bool {
    pollable matches Inner::UdpIncoming(number) && queues[number as int].len() == 0
}

/// The queues after the source was drained for the pollable.
pub open spec fn drained_for(
    pollable: Inner,
    queues: Seq<Seq<(u16, Seq<u8>)>>,
    drained: Seq<(u16, Seq<u8>)>,
) -> Seq<Seq<(u16, Seq<u8>)>> {
    match pollable {
        Inner::UdpIncoming(number) => queues.update(
            number as int,
            queues[number as int] + drained,
        ),
        _ => queues,
    }
}

/// Readiness that can be known without asking the host; `drained` is what
/// the source gave where it had to be drained.
pub fn ready_local(pollable: Inner, shared: &mut Shared, drained: Vec<Incoming>) -> (ready: bool)
    requires
        is_known(pollable, old(shared)@),
        needs_drain(pollable, old(shared)@) || drained@.len() == 0,
    ensures
        final(shared)@ == drained_for(pollable, old(shared)@, datagram_list(drained@)),
        ready == is_ready_local(pollable, final(shared)@),
{
    match pollable {
        Inner::AlwaysReady => true,
        Inner::UdpIncoming(number) => shared.has_data(number, drained),
        Inner::Host(_) => false,
        Inner::Never => false,
    }
}

/// A pollable's readiness, `host` being what the host says of its own.
pub fn ready(pollable: Inner, shared: &mut Shared, drained: Vec<Incoming>, host: bool) -> (ready:
    bool)
    requires
        is_known(pollable, old(shared)@),
        needs_drain(pollable, old(shared)@) || drained@.len() == 0,
    ensures
        final(shared)@ == drained_for(pollable, old(shared)@, datagram_list(drained@)),
        ready == (is_ready_local(pollable, final(shared)@) || (pollable is Host && host)),
{
    match pollable {
        Inner::Host(_) => host,
        _ => ready_local(pollable, shared, drained),
    }
}

/// What blocking on one pollable asks for next.
#[derive(Clone, Copy, PartialEq, Eq, Structural)]
pub enum BlockStep {
    /// The pollable is ready.
    Return,
    /// Block on this host pollable, then return.
    BlockHost(u32),
    /// Drain the source into this queue, then ask again.
    Drain(usize),
    /// Block on the source, then ask again.
    BlockSource,
}

/// Block on a pollable that can become ready: a queue is waited for until it
/// holds something. `drained` says that the source was drained since it was
/// last blocked on.
pub fn block(pollable: Inner, shared: &Shared, drained: bool) -> (step: BlockStep)
    requires
        is_known(pollable, shared@),
        pollable != Inner::Never,
    ensures
        step == (match pollable {
            Inner::Host(handle) => BlockStep::BlockHost(handle),
            Inner::UdpIncoming(number) => if shared@[number as int].len() > 0 {
                BlockStep::Return
            } else if drained {
                BlockStep::BlockSource
            } else {
                BlockStep::Drain(number)
            },
            _ => BlockStep::Return,
        }),
{
    match pollable {
        Inner::Host(handle) => BlockStep::BlockHost(handle),
        Inner::UdpIncoming(number) => if shared.has_queued(number) {
            BlockStep::Return
        } else if drained {
            BlockStep::BlockSource
        } else {
            BlockStep::Drain(number)
        },
        _ => BlockStep::Return,
    }
}

/// Where a poll stands.
#[derive(Clone, Copy, PartialEq, Eq, Structural)]
pub enum PollPhase {
    /// Looking at what is ready locally.
    Local,
    /// Waiting for the host.
    Wait,
    /// Looking at what the host said.
    Fired,
}

/// A poll of several pollables.
pub struct Poll {
    pub pollables: Vec<Inner>,
    pub phase: PollPhase,
    /// How many entries of the phase's list have been looked at.
    pub at: usize,
    /// The source was drained for the entry being looked at.
    pub drained: bool,
    /// The positions found ready.
    pub ready: Vec<u32>,
    /// The positions that the host waits for, in the order it was given.
    pub back: Vec<usize>,
    /// What the host said: positions in `back`.
    pub fired: Vec<u32>,
}

/// What a poll's driver does next.
pub enum PollAction {
    /// Nothing to do yet: ask again.
    Continue,
    /// Drain the source into this queue, then report that.
    Drain(usize),
    /// Wait on the host for these, in this order, and report what fired.
    WaitHost(Vec<Inner>),
    /// These positions are ready.
    Return(Vec<u32>),
}

/// The pollable maps to a host pollable.
pub open spec fn waits_on_host(pollable: Inner) -> bool {
    pollable is Host || pollable is UdpIncoming
}

/// A position's pollable is ready as far as this layer can tell: always
/// ready, with datagrams waiting, or said to be ready by the host.
pub open spec fn is_justified(pollable: Inner, queues: Seq<Seq<(u16, Seq<u8>)>>) -> bool {
    pollable is Host || is_ready_local(pollable, queues)
}

/// The positions of the pollables that the host waits for.
pub open spec fn host_positions(pollables: Seq<Inner>) -> Seq<usize>
    decreases pollables.len(),
{
    if pollables.len() == 0 {
        Seq::empty()
    } else {
        let rest = host_positions(pollables.drop_last());
        if waits_on_host(pollables.last()) {
            rest.push((pollables.len() - 1) as usize)
        } else {
            rest
        }
    }
}

impl Poll {
    /// What holds between steps: everything polled is known, something can
    /// become ready, and every position found is justified.
    pub open spec fn wf(&self, queues: Seq<Seq<(u16, Seq<u8>)>>) -> bool {
        let n = self.pollables@.len();
        &&& 0 < n <= u32::MAX
        &&& forall|i: int| 0 <= i < n ==> is_known(#[trigger] self.pollables@[i], queues)
        &&& exists|i: int| 0 <= i < n && #[trigger] self.pollables@[i] != Inner::Never
        &&& forall|k: int|
            0 <= k < self.ready@.len() ==> (#[trigger] self.ready@[k]) < n && is_justified(
                self.pollables@[self.ready@[k] as int],
                queues,
            )
        &&& forall|k: int|
            0 <= k < self.back@.len() ==> (#[trigger] self.back@[k]) < n && waits_on_host(
                self.pollables@[self.back@[k] as int],
            )
        &&& forall|k: int|
            0 <= k < self.fired@.len() ==> (#[trigger] self.fired@[k]) < self.back@.len()
        &&& match self.phase {
            PollPhase::Local => {
                &&& self.at <= n
                &&& self.drained ==> self.at < n && self.pollables@[self.at as int] is UdpIncoming
                &&& forall|i: int|
                    0 <= i < self.at && (#[trigger] self.pollables@[i]) is AlwaysReady
                        ==> self.ready@.len() > 0
            },
            PollPhase::Wait => self.ready@.len() == 0 && !self.drained,
            PollPhase::Fired => self.at <= self.fired@.len() && (self.drained ==> self.at
                < self.fired@.len()
                && self.pollables@[self.back@[self.fired@[self.at as int] as int] as int]
                is UdpIncoming),
        }
    }

    /// A poll of `pollables`: there is at least one, and not all of them are
    /// never ready (such a poll would block forever).
    pub fn new(pollables: Vec<Inner>, shared: &Shared) -> (poll: Self)
        requires
            0 < pollables@.len() <= u32::MAX,
            forall|i: int|
                0 <= i < pollables@.len() ==> is_known(#[trigger] pollables@[i], shared@),
            exists|i: int| 0 <= i < pollables@.len() && #[trigger] pollables@[i] != Inner::Never,
        ensures
            poll.wf(shared@),
            poll.pollables@ == pollables@,
            poll.phase == PollPhase::Local,
            poll.at == 0,
            !poll.drained,
            poll.ready@.len() == 0,
    {
        Poll {
            pollables,
            phase: PollPhase::Local,
            at: 0,
            drained: false,
            ready: Vec::new(),
            back: Vec::new(),
            fired: Vec::new(),
        }
    }

    /// What the host is to wait for.
    fn host_list(&mut self) -> (list: Vec<Inner>)
        requires
            old(self).pollables@.len() <= u32::MAX,
        ensures
            final(self).back@ == host_positions(old(self).pollables@),
            final(self).pollables == old(self).pollables,
            final(self).phase == old(self).phase,
            final(self).at == old(self).at,
            final(self).drained == old(self).drained,
            final(self).ready == old(self).ready,
            final(self).fired == old(self).fired,
            list@ == host_positions(old(self).pollables@).map_values(
                |p: usize| old(self).pollables@[p as int],
            ),
    {
        let ghost all = self.pollables@;
        let f = Ghost(|p: usize| all[p as int]);
        let mut list: Vec<Inner> = Vec::new();
        let mut back: Vec<usize> = Vec::new();
        let mut i: usize = 0;
        assert(all.take(0) =~= Seq::<Inner>::empty());
        while i < self.pollables.len()
            invariant
                *self == *old(self),
                all == self.pollables@,
                f@ == (|p: usize| all[p as int]),
                i <= all.len(),
                back@ == host_positions(all.take(i as int)),
                list@ =~= back@.map_values(f@),
            decreases all.len() - i,
        {
            assert(all.take(i + 1).drop_last() =~= all.take(i as int));
            assert(all.take(i + 1).last() == all[i as int]);
            let pollable: Inner = self.pollables[i];
            let mapped: bool = match pollable {
                Inner::Host(_) => true,
                Inner::UdpIncoming(_) => true,
                _ => false,
            };
            if mapped {
                list.push(pollable);
                back.push(i);
            }
            i = i + 1;
        }
        assert(all.take(i as int) =~= all);
        self.back = back;
        assert(list@ =~= host_positions(all).map_values(|p: usize| old(self).pollables@[p as int]));
        list
    }

    /// Take one step: say what the driver does next.
    pub fn step(&mut self, shared: &Shared) -> (action: PollAction)
        requires
            old(self).wf(shared@),
        ensures
            final(self).wf(shared@),
            poll_stepped(*old(self), shared@, *final(self), action),
    {
        match self.phase {
            PollPhase::Local => {
                if self.at < self.pollables.len() {
                    let pollable: Inner = self.pollables[self.at];
                    return self.look(shared, self.at, pollable);
                }
                if self.ready.len() > 0 {
                    return self.finish();
                }
                let list: Vec<Inner> = self.host_list();
                proof {
                    host_positions_fit(self.pollables@);
                }
                self.phase = PollPhase::Wait;
                self.at = 0;
                self.fired = Vec::new();
                PollAction::WaitHost(list)
            },
            PollPhase::Wait => PollAction::Continue,
            PollPhase::Fired => {
                if self.at < self.fired.len() {
                    let position: usize = self.back[self.fired[self.at] as usize];
                    let pollable: Inner = self.pollables[position];
                    return self.look(shared, position, pollable);
                }
                if self.ready.len() > 0 {
                    return self.finish();
                }
                self.phase = PollPhase::Local;
                self.at = 0;
                PollAction::Continue
            },
        }
    }

    /// Hand the ready positions out and start over.
    fn finish(&mut self) -> (action: PollAction)
        ensures
            action matches PollAction::Return(ready) && ready@ == old(self).ready@,
            *final(self) == (Poll {
                phase: PollPhase::Local,
                at: 0,
                drained: false,
                ready: final(self).ready,
                ..*old(self)
            }),
            final(self).ready@.len() == 0,
    {
        let mut ready: Vec<u32> = Vec::new();
        std::mem::swap(&mut ready, &mut self.ready);
        self.phase = PollPhase::Local;
        self.at = 0;
        self.drained = false;
        PollAction::Return(ready)
    }

    /// Look at one entry: a queue that is empty is drained once first; a host
    /// pollable that fired is ready.
    fn look(&mut self, shared: &Shared, position: usize, pollable: Inner) -> (action: PollAction)
        requires
            old(self).wf(shared@),
            old(self).phase != PollPhase::Wait,
            position < old(self).pollables@.len(),
            old(self).pollables@[position as int] == pollable,
            old(self).phase == PollPhase::Local ==> old(self).at == position,
            old(self).phase == PollPhase::Fired ==> old(self).at < old(self).fired@.len()
                && position == old(self).back@[old(self).fired@[old(self).at as int] as int],
        ensures
            final(self).wf(shared@),
            looked_at(*old(self), shared@, position, pollable, *final(self), action),
    {
        let polled: usize = self.pollables.len();
        let fired: usize = self.fired.len();
        assert(self.at < polled || self.at < fired);
        match pollable {
            Inner::UdpIncoming(number) => {
                if !shared.has_queued(number) && !self.drained {
                    return PollAction::Drain(number);
                }
                if shared.has_queued(number) {
                    self.ready.push(position as u32);
                }
            },
            Inner::AlwaysReady => {
                self.ready.push(position as u32);
            },
            Inner::Host(_) => {
                if self.phase == PollPhase::Fired {
                    self.ready.push(position as u32);
                }
            },
            Inner::Never => {},
        }
        self.drained = false;
        self.at = self.at + 1;
        PollAction::Continue
    }

    /// The source was drained for the entry being looked at, the queue
    /// `number`: what it gave joins the queue.
    pub fn on_drained(&mut self, shared: &mut Shared, number: usize, drained: Vec<Incoming>)
        requires
            old(self).wf(old(shared)@),
            current(*old(self)) == Some(Inner::UdpIncoming(number)),
        ensures
            final(self).wf(final(shared)@),
            *final(self) == (Poll { drained: true, ..*old(self) }),
            final(shared)@ == old(shared)@.update(
                number as int,
                old(shared)@[number as int] + datagram_list(drained@),
            ),
    {
        let ghost before = shared@;
        assert(is_known(Inner::UdpIncoming(number), before));
        shared.drain(number, drained);
        proof {
            assert forall|p: Inner| is_justified(p, before) && is_known(p, before) implies
                #[trigger] is_justified(p, shared@) by {}
            assert forall|k: int| 0 <= k < self.ready@.len() implies (#[trigger] self.ready@[k])
                < self.pollables@.len() && is_justified(
                self.pollables@[self.ready@[k] as int],
                shared@,
            ) by {
                assert(is_known(self.pollables@[self.ready@[k] as int], before));
            }
        }
        self.drained = true;
    }

    /// The host said what fired.
    pub fn on_fired(&mut self, fired: Vec<u32>, shared: &Shared)
        requires
            old(self).wf(shared@),
            old(self).phase == PollPhase::Wait,
            forall|k: int| 0 <= k < fired@.len() ==> (#[trigger] fired@[k]) < old(self).back@.len(),
        ensures
            final(self).wf(shared@),
            *final(self) == (Poll { phase: PollPhase::Fired, at: 0, fired, ..*old(self) }),
    {
        self.fired = fired;
        self.at = 0;
        self.phase = PollPhase::Fired;
    }
}

/// The entry being looked at.
pub open spec fn current(poll: Poll) -> Option<Inner> {
    match poll.phase {
        PollPhase::Local => if poll.at < poll.pollables@.len() {
            Some(poll.pollables@[poll.at as int])
        } else {
            None
        },
        PollPhase::Fired => if poll.at < poll.fired@.len() {
            Some(poll.pollables@[poll.back@[poll.fired@[poll.at as int] as int] as int])
        } else {
            None
        },
        PollPhase::Wait => None,
    }
}

/// What looking at one entry comes to.
pub open spec fn looked_at(
    poll: Poll,
    queues: Seq<Seq<(u16, Seq<u8>)>>,
    position: usize,
    pollable: Inner,
    next: Poll,
    action: PollAction,
) -> bool {
    if pollable matches Inner::UdpIncoming(number) && queues[number as int].len() == 0
        && !poll.drained {
        &&& next == poll
        &&& action matches PollAction::Drain(n)
        &&& n == pollable->UdpIncoming_0
    } else {
        let found = is_ready_local(pollable, queues) || (pollable is Host && poll.phase
            == PollPhase::Fired);
        &&& action is Continue
        &&& next == (Poll { at: (poll.at + 1) as usize, drained: false, ready: next.ready, ..poll })
        &&& next.ready@ == (if found {
            poll.ready@.push(position as u32)
        } else {
            poll.ready@
        })
    }
}

/// The poll and the action after one step.
pub open spec fn poll_stepped(
    poll: Poll,
    queues: Seq<Seq<(u16, Seq<u8>)>>,
    next: Poll,
    action: PollAction,
) -> bool {
    match current(poll) {
        Some(pollable) => {
            let position = if poll.phase == PollPhase::Local {
                poll.at
            } else {
                poll.back@[poll.fired@[poll.at as int] as int]
            };
            looked_at(poll, queues, position, pollable, next, action)
        },
        None => if poll.phase == PollPhase::Wait {
            next == poll && action is Continue
        } else if poll.ready@.len() > 0 {
            &&& action matches PollAction::Return(ready)
            &&& ready@ == poll.ready@
            &&& next.phase == PollPhase::Local
            &&& next.at == 0
            &&& !next.drained
            &&& next.ready@.len() == 0
            &&& next.pollables == poll.pollables
        } else if poll.phase == PollPhase::Local {
            &&& action matches PollAction::WaitHost(list)
            &&& next.phase == PollPhase::Wait
            &&& next.pollables == poll.pollables
            &&& next.back@ == host_positions(poll.pollables@)
            &&& list@ == next.back@.map_values(|p: usize| poll.pollables@[p as int])
        } else {
            action is Continue && next == (Poll { phase: PollPhase::Local, at: 0, ..poll })
        },
    }
}

/// A poll returns something, and every position it returns is justified:
/// always ready, with datagrams waiting, or said to be ready by the host.
pub proof fn returned_positions_are_ready(
    poll: Poll,
    queues: Seq<Seq<(u16, Seq<u8>)>>,
    next: Poll,
    ready: Vec<u32>,
)
    requires
        poll.wf(queues),
        poll_stepped(poll, queues, next, PollAction::Return(ready)),
    ensures
        ready@.len() > 0,
        forall|k: int|
            0 <= k < ready@.len() ==> (#[trigger] ready@[k]) < poll.pollables@.len()
                && is_justified(poll.pollables@[ready@[k] as int], queues),
{
}

/// A poll and the queues at one time.
pub struct PollMoment {
    pub poll: Poll,
    pub queues: Seq<Seq<(u16, Seq<u8>)>>,
}

/// One turn of the pass over what can be known locally: the poll looks at an
/// entry, or the source was drained into the entry's queue.
pub open spec fn local_turn(before: PollMoment, after: PollMoment) -> bool {
    &&& before.poll.phase == PollPhase::Local
    &&& before.poll.at < before.poll.pollables@.len()
    &&& {
        ||| {
            &&& after.queues == before.queues
            &&& exists|action: PollAction| #[trigger]
                poll_stepped(before.poll, before.queues, after.poll, action)
        }
        ||| is_drained(before, after)
    }
}

/// The source was drained into the queue of the entry being looked at.
pub open spec fn is_drained(before: PollMoment, after: PollMoment) -> bool {
    &&& after.poll == (Poll { drained: true, ..before.poll })
    &&& current(before.poll) matches Some(Inner::UdpIncoming(number))
    &&& number < before.queues.len()
    &&& exists|more: Seq<(u16, Seq<u8>)>|
        after.queues == #[trigger] before.queues.update(
            number as int,
            before.queues[number as int] + more,
        )
}

/// A whole pass: `moments` begin a poll and end with every entry looked at.
pub open spec fn is_local_pass(moments: Seq<PollMoment>) -> bool {
    &&& is_local_run(moments)
    &&& moments.last().poll.at == moments[0].poll.pollables@.len()
}

/// The beginning of a pass.
pub open spec fn is_local_run(moments: Seq<PollMoment>) -> bool {
    &&& moments.len() > 0
    &&& moments[0].poll.phase == PollPhase::Local
    &&& moments[0].poll.at == 0
    &&& moments[0].poll.ready@.len() == 0
    &&& moments[0].poll.pollables@.len() <= u32::MAX
    &&& forall|i: int|
        0 <= i < moments.len() - 1 ==> local_turn(#[trigger] moments[i], moments[i + 1])
}

/// The entry at `i` was passed from this moment to the next.
pub open spec fn passes(before: PollMoment, after: PollMoment, i: int) -> bool {
    before.poll.at == i && after.poll.at == i + 1
}

/// The entry at `i` was looked at and passed.
pub open spec fn is_passed(moments: Seq<PollMoment>, i: int) -> bool {
    exists|k: int| 0 <= k < moments.len() - 1 && #[trigger] passes(moments[k], moments[k + 1], i)
}

/// What a pass has found: positions already looked at, ascending, and each
/// exactly if it was locally ready when it was looked at.
pub open spec fn has_found(moments: Seq<PollMoment>) -> bool {
    let poll = moments.last().poll;
    &&& poll.phase == PollPhase::Local
    &&& poll.pollables == moments[0].poll.pollables
    &&& poll.at <= poll.pollables@.len()
    &&& forall|k: int| 0 <= k < poll.ready@.len() ==> (#[trigger] poll.ready@[k]) < poll.at
    &&& forall|a: int, b: int|
        0 <= a < b < poll.ready@.len() ==> #[trigger] poll.ready@[a] < #[trigger] poll.ready@[b]
    &&& forall|k: int|
        0 <= k < moments.len() - 1 ==> (#[trigger] moments[k]).poll.at <= poll.at
    &&& forall|k: int, i: int|
        0 <= k < moments.len() - 1 && #[trigger] passes(moments[k], moments[k + 1], i) ==> i
            < poll.at && (poll.ready@.contains(i as u32) <==> is_ready_local(
            poll.pollables@[i],
            moments[k].queues,
        ))
    &&& forall|i: int| 0 <= i < poll.at ==> #[trigger] is_passed(moments, i)
}

/// The pass found something locally ready when it looked at it.
pub open spec fn finds_something(moments: Seq<PollMoment>) -> bool {
    exists|k: int, i: int|
        0 <= k < moments.len() - 1 && #[trigger] passes(moments[k], moments[k + 1], i)
            && is_ready_local(moments[0].poll.pollables@[i], moments[k].queues)
}

/// A poll with something locally ready returns exactly those positions,
/// ascending, and does not wait: a position is among them if and only if its
/// pollable was ready when the poll looked at it, and each is looked at. A
/// poll that finds nothing waits on the host.
pub proof fn local_polls_are_exact(moments: Seq<PollMoment>, next: Poll, action: PollAction)
    requires
        is_local_pass(moments),
        poll_stepped(moments.last().poll, moments.last().queues, next, action),
    ensures
        finds_something(moments) <==> action is Return,
        !finds_something(moments) <==> action is WaitHost,
        forall|i: int|
            0 <= i < moments[0].poll.pollables@.len() ==> #[trigger] is_passed(moments, i),
        action matches PollAction::Return(ready) ==> {
            &&& forall|a: int, b: int|
                0 <= a < b < ready@.len() ==> #[trigger] ready@[a] < #[trigger] ready@[b]
            &&& forall|k: int|
                0 <= k < ready@.len() ==> (#[trigger] ready@[k])
                    < moments[0].poll.pollables@.len()
            &&& forall|k: int, i: int|
                0 <= k < moments.len() - 1 && #[trigger] passes(moments[k], moments[k + 1], i)
                    ==> (ready@.contains(i as u32) <==> is_ready_local(
                    moments[0].poll.pollables@[i],
                    moments[k].queues,
                ))
        },
{
    local_runs_are_exact(moments);
    let poll = moments.last().poll;
    if finds_something(moments) {
        let (k, i) = choose|k: int, i: int|
            0 <= k < moments.len() - 1 && #[trigger] passes(moments[k], moments[k + 1], i)
                && is_ready_local(moments[0].poll.pollables@[i], moments[k].queues);
        assert(poll.ready@.contains(i as u32));
    }
    if poll.ready@.len() > 0 {
        let i = poll.ready@[0] as int;
        assert(poll.ready@.contains(i as u32));
        assert(is_passed(moments, i));
        let k = choose|k: int|
            0 <= k < moments.len() - 1 && #[trigger] passes(moments[k], moments[k + 1], i);
        assert(is_ready_local(moments[0].poll.pollables@[i], moments[k].queues));
    }
}

/// What holds at every moment of a pass.
proof fn local_runs_are_exact(moments: Seq<PollMoment>)
    requires
        is_local_run(moments),
    ensures
        has_found(moments),
    decreases moments.len(),
{
    if moments.len() > 1 {
        let n = moments.len() - 2;
        let ms = moments.drop_last();
        assert forall|i: int| 0 <= i < ms.len() - 1 implies local_turn(
            #[trigger] ms[i],
            ms[i + 1],
        ) by {
            assert(local_turn(moments[i], moments[i + 1]));
        }
        local_runs_are_exact(ms);
        let before = moments[n];
        let after = moments[n + 1];
        assert(ms.last() == before);
        assert(moments.last() == after);
        assert(local_turn(before, after));
        let at = before.poll.at as int;
        let old_ready = before.poll.ready@;
        let new_ready = after.poll.ready@;
        assert forall|k: int, i: int|
            0 <= k < n && #[trigger] passes(moments[k], moments[k + 1], i) implies i < at && (
        old_ready.contains(i as u32) <==> is_ready_local(
            before.poll.pollables@[i],
            moments[k].queues,
        )) by {
            assert(passes(ms[k], ms[k + 1], i));
        }
        assert forall|i: int| 0 <= i < at implies #[trigger] is_passed(moments, i) by {
            assert(is_passed(ms, i));
            let k = choose|k: int|
                0 <= k < ms.len() - 1 && #[trigger] passes(ms[k], ms[k + 1], i);
            assert(passes(moments[k], moments[k + 1], i));
        }
        assert forall|k: int| 0 <= k < moments.len() - 1 implies (#[trigger] moments[k]).poll.at
            <= after.poll.at by {
            if k < n {
                assert(ms[k].poll.at <= before.poll.at);
            }
        }
        if after.poll.at == at + 1 {
            assert(passes(moments[n], moments[n + 1], at));
            let found = is_ready_local(before.poll.pollables@[at], before.queues);
            assert(new_ready == (if found {
                old_ready.push(at as u32)
            } else {
                old_ready
            }));
            assert forall|x: u32| #[trigger] new_ready.contains(x) <==> old_ready.contains(x) || (
            found && x == at as u32) by {
                if old_ready.contains(x) {
                    let k = choose|k: int| 0 <= k < old_ready.len() && old_ready[k] == x;
                    assert(new_ready[k] == x);
                }
                if found && x == at as u32 {
                    assert(new_ready[old_ready.len() as int] == x);
                }
            }
            assert(!old_ready.contains(at as u32));
            assert forall|k: int, i: int|
                0 <= k < moments.len() - 1 && #[trigger] passes(
                    moments[k],
                    moments[k + 1],
                    i,
                ) implies i < after.poll.at && (new_ready.contains(i as u32) <==> is_ready_local(
                after.poll.pollables@[i],
                moments[k].queues,
            )) by {
                if k < n {
                    assert(i < at);
                    assert(i as u32 != at as u32);
                }
            }
        } else {
            assert(after.poll.at == at);
            assert(new_ready == old_ready);
        }
    }
}

/// The host is never asked to wait for nothing.
pub proof fn waits_are_never_empty(
    poll: Poll,
    queues: Seq<Seq<(u16, Seq<u8>)>>,
    next: Poll,
    list: Vec<Inner>,
)
    requires
        poll.wf(queues),
        poll_stepped(poll, queues, next, PollAction::WaitHost(list)),
    ensures
        list@.len() > 0,
{
    let i = choose|i: int|
        0 <= i < poll.pollables@.len() && #[trigger] poll.pollables@[i] != Inner::Never;
    assert(waits_on_host(poll.pollables@[i]));
    host_positions_exist(poll.pollables@, i);
}

/// A pollable that maps to the host is among those handed to it.
proof fn host_positions_exist(pollables: Seq<Inner>, i: int)
    requires
        0 <= i < pollables.len(),
        waits_on_host(pollables[i]),
    ensures
        host_positions(pollables).len() > 0,
    decreases pollables.len(),
{
    if i < pollables.len() - 1 {
        host_positions_exist(pollables.drop_last(), i);
    }
}

/// The positions handed to the host are positions of pollables that map to
/// it.
proof fn host_positions_fit(pollables: Seq<Inner>)
    requires
        pollables.len() <= u32::MAX,
    ensures
        forall|k: int|
            0 <= k < host_positions(pollables).len() ==> (#[trigger] host_positions(
                pollables,
            )[k]) < pollables.len() && waits_on_host(
                pollables[host_positions(pollables)[k] as int],
            ),
    decreases pollables.len(),
{
    if pollables.len() > 0 {
        let rest = pollables.drop_last();
        host_positions_fit(rest);
        let all = host_positions(pollables);
        assert forall|k: int| 0 <= k < all.len() implies (#[trigger] all[k]) < pollables.len()
            && waits_on_host(pollables[all[k] as int]) by {
            if k < host_positions(rest).len() {
                assert(all[k] == host_positions(rest)[k]);
            }
        }
    }
}

/// The queues are seen whole: every queue, and in it every datagram's port and
/// bytes, in order.
pub proof fn queues_are_seen_whole(v: Seq<VecDeque<Incoming>>, number: int, i: int)
    requires
        0 <= number < v.len(),
        0 <= i < v[number]@.len(),
    ensures
        queue_lists(v).len() == v.len(),
        queue_lists(v)[number].len() == v[number]@.len(),
        queue_lists(v)[number][i].0 == v[number]@[i].port,
        queue_lists(v)[number][i].1 == v[number]@[i].payload@,
        datagram_list(v[number]@) == queue_lists(v)[number],
{
}

/// A failure keeps its kind and its detail.
pub proof fn failures_keep_their_detail(host: HostStreamError, guest: StreamError)
    requires
        same_failure(host, guest),
    ensures
        host is Closed <==> guest is Closed,
        host matches HostStreamError::LastOperationFailed(detail) ==> (guest matches
            StreamError::LastOperationFailed(text) && text@ == detail@),
{
}

/// Without the host only two things are ready: what always is, and a queue
/// that holds something. A queue that holds nothing, and nothing else, is
/// drained first.
pub proof fn readiness_is_known_locally(
    queues: Seq<Seq<(u16, Seq<u8>)>>,
    number: usize,
    handle: u32,
)
    ensures
        is_ready_local(Inner::AlwaysReady, queues),
        !is_ready_local(Inner::Never, queues),
        !is_ready_local(Inner::Host(handle), queues),
        is_ready_local(Inner::UdpIncoming(number), queues) <==> queues[number as int].len() > 0,
        needs_drain(Inner::UdpIncoming(number), queues) <==> queues[number as int].len() == 0,
        !needs_drain(Inner::AlwaysReady, queues),
        !needs_drain(Inner::Never, queues),
        !needs_drain(Inner::Host(handle), queues),
        is_known(Inner::UdpIncoming(number), queues) <==> number < queues.len(),
        is_known(Inner::AlwaysReady, queues),
        is_known(Inner::Never, queues),
        is_known(Inner::Host(handle), queues),
        is_justified(Inner::Host(handle), queues),
        !is_justified(Inner::Never, queues),
        is_justified(Inner::UdpIncoming(number), queues) <==> queues[number as int].len() > 0,
{
}

/// What the source gave joins the back of the pollable's own queue; every
/// other queue stays, and so do all for a pollable without one.
pub proof fn drained_datagrams_join_their_queue(
    queues: Seq<Seq<(u16, Seq<u8>)>>,
    number: usize,
    drained: Seq<(u16, Seq<u8>)>,
    pollable: Inner,
    q: int,
    i: int,
)
    requires
        number < queues.len(),
        0 <= q < queues.len(),
    ensures
        ({
            let after = drained_for(Inner::UdpIncoming(number), queues, drained);
            let queue = queues[number as int];
            &&& after.len() == queues.len()
            &&& q != number ==> after[q] == queues[q]
            &&& after[number as int].len() == queue.len() + drained.len()
            &&& 0 <= i < queue.len() ==> after[number as int][i] == queue[i]
            &&& 0 <= i < drained.len() ==> after[number as int][queue.len() + i] == drained[i]
        }),
        pollable !is UdpIncoming ==> drained_for(pollable, queues, drained) == queues,
{
}

/// The host is handed exactly the pollables that are its own or a queue's, in
/// ascending order of their positions.
pub proof fn hosts_are_handed_their_pollables(pollables: Seq<Inner>, i: int, a: int, b: int)
    requires
        pollables.len() <= u32::MAX,
        0 <= i < pollables.len(),
    ensures
        host_positions(pollables).contains(i as usize) <==> pollables[i] is Host || pollables[i]
            is UdpIncoming,
        0 <= a < b < host_positions(pollables).len() ==> host_positions(pollables)[a]
            < host_positions(pollables)[b] < pollables.len(),
    decreases pollables.len(),
{
    let rest = pollables.drop_last();
    let earlier = host_positions(rest);
    let all = host_positions(pollables);
    let last = (pollables.len() - 1) as usize;
    host_positions_fit(rest);
    host_positions_fit(pollables);
    if rest.len() > 0 {
        hosts_are_handed_their_pollables(rest, if i < rest.len() {
            i
        } else {
            0
        }, a, b);
    }
    if waits_on_host(pollables.last()) {
        assert(all[earlier.len() as int] == last);
        if 0 <= b < earlier.len() {
            assert(all[b] == earlier[b]);
        }
        if 0 <= a < earlier.len() {
            assert(all[a] == earlier[a]);
        }
    }
    if earlier.contains(i as usize) {
        let k = choose|k: int| 0 <= k < earlier.len() && earlier[k] == i as usize;
        assert(all[k] == i as usize);
    }
    if all.contains(i as usize) {
        let k = choose|k: int| 0 <= k < all.len() && all[k] == i as usize;
        if k < earlier.len() {
            assert(earlier[k] == i as usize);
        }
    }
}

/// A look at an entry drains its queue once if that is empty; otherwise it
/// notes the position exactly if the entry is always ready, has datagrams, or
/// is the host's and fired, and moves on.
pub proof fn looks_note_what_is_ready(
    poll: Poll,
    queues: Seq<Seq<(u16, Seq<u8>)>>,
    position: usize,
    pollable: Inner,
    next: Poll,
    action: PollAction,
)
    requires
        looked_at(poll, queues, position, pollable, next, action),
        poll.at < usize::MAX,
    ensures
        action is Drain <==> !poll.drained && (pollable matches Inner::UdpIncoming(number)
            && queues[number as int].len() == 0),
        action matches PollAction::Drain(n) ==> pollable == Inner::UdpIncoming(n) && next == poll,
        action !is Drain ==> {
            let fired = pollable is Host && poll.phase == PollPhase::Fired;
            let queued = pollable matches Inner::UdpIncoming(number) && queues[number as int].len()
                > 0;
            &&& action is Continue
            &&& next.at == poll.at + 1
            &&& !next.drained
            &&& next.phase == poll.phase
            &&& next.pollables == poll.pollables
            &&& next.back == poll.back
            &&& next.fired == poll.fired
            &&& pollable is AlwaysReady || queued || fired ==> next.ready@ == poll.ready@.push(
                position as u32,
            )
            &&& !(pollable is AlwaysReady || queued || fired) ==> next.ready@ == poll.ready@
        },
{
}

/// A poll looks at its entries in order: at every pollable first, and after
/// the host has answered at those that it said.
pub proof fn polls_look_in_order(
    poll: Poll,
    queues: Seq<Seq<(u16, Seq<u8>)>>,
    next: Poll,
    action: PollAction,
)
    requires
        poll_stepped(poll, queues, next, action),
    ensures
        poll.phase == PollPhase::Local && poll.at < poll.pollables@.len() ==> looked_at(
            poll,
            queues,
            poll.at,
            poll.pollables@[poll.at as int],
            next,
            action,
        ),
        poll.phase == PollPhase::Fired && poll.at < poll.fired@.len() ==> looked_at(
            poll,
            queues,
            poll.back@[poll.fired@[poll.at as int] as int],
            poll.pollables@[poll.back@[poll.fired@[poll.at as int] as int] as int],
            next,
            action,
        ),
{
}

/// A poll that has looked at everything returns what it found, waits on the
/// host for its pollables if it found nothing, and starts over if the host's
/// answer came to nothing.
pub proof fn polls_return_wait_or_start_over(
    poll: Poll,
    queues: Seq<Seq<(u16, Seq<u8>)>>,
    next: Poll,
    action: PollAction,
    k: int,
)
    requires
        poll_stepped(poll, queues, next, action),
        poll.phase == PollPhase::Local ==> poll.at >= poll.pollables@.len(),
        poll.phase == PollPhase::Fired ==> poll.at >= poll.fired@.len(),
    ensures
        poll.phase == PollPhase::Wait ==> action is Continue && next == poll,
        poll.phase != PollPhase::Wait && poll.ready@.len() > 0 ==> {
            &&& action matches PollAction::Return(ready)
            &&& ready@ == poll.ready@
            &&& next.phase == PollPhase::Local
            &&& next.at == 0
            &&& !next.drained
            &&& next.ready@.len() == 0
            &&& next.pollables == poll.pollables
        },
        poll.phase == PollPhase::Fired && poll.ready@.len() == 0 ==> {
            &&& action is Continue
            &&& next.phase == PollPhase::Local
            &&& next.at == 0
            &&& next.pollables == poll.pollables
        },
        poll.phase == PollPhase::Local && poll.ready@.len() == 0 ==> {
            &&& action matches PollAction::WaitHost(list)
            &&& next.phase == PollPhase::Wait
            &&& next.pollables == poll.pollables
            &&& list@.len() == next.back@.len()
            &&& 0 <= k < list@.len() ==> list@[k] == poll.pollables@[next.back@[k] as int]
            &&& next.back@ == host_positions(poll.pollables@)
        },
{
}

} // verus!
