//! Driving an echo to its end: set up, drain, progress, wait, and on the way
//! out resolve what is still in flight.

use crate::addr::Id;
use crate::addr::SocketAddr;
use crate::echo::client_addr;
use crate::echo::finish_fits;
use crate::echo::has_passed;
use crate::echo::App;
use crate::echo::AppModel;
use crate::echo::Outcome;
use crate::echo::Role;
use crate::echo::DEADLINE_EXCEEDED;
use crate::echo::LINGER_NS;
use crate::echo::NEEDS_PEER;
use crate::echo::RUN_DEADLINE_NS;
use crate::text::concat;
use vstd::prelude::*;

verus! {

/// How a run begins.
pub enum Setup {
    /// Dial this peer.
    Dial(Id),
    /// Wait for a connection.
    Listen,
}

/// A client needs to know whom to dial; a server takes whoever connects.
pub fn setup(role: &Role, peer: Option<Id>) -> (setup: Result<Setup, String>)
    ensures
        match role {
            Role::Client { .. } => match peer {
                Some(id) => setup matches Ok(Setup::Dial(to)) && to == id,
                None => setup matches Err(text) && text@ == NEEDS_PEER@,
            },
            Role::Server => setup matches Ok(Setup::Listen),
        },
{
    match role {
        Role::Client { .. } => match peer {
            Some(id) => Ok(Setup::Dial(id)),
            None => Err(NEEDS_PEER.to_owned()),
        },
        Role::Server => Ok(Setup::Listen),
    }
}

/// Where setting up failed.
pub enum SetupFault {
    ClientTls(String),
    ServerTls(String),
    Random(String),
    Connect(String),
    Accept(String),
}

/// The text of a setup fault.
pub open spec fn setup_fault_text(fault: SetupFault) -> Seq<char> {
    match fault {
        SetupFault::ClientTls(detail) => "client tls config: "@ + detail@,
        SetupFault::ServerTls(detail) => "server tls config: "@ + detail@,
        SetupFault::Random(detail) => "getrandom: "@ + detail@,
        SetupFault::Connect(detail) => "connect: "@ + detail@,
        SetupFault::Accept(detail) => "accept: "@ + detail@,
    }
}

/// The text of a setup fault.
pub fn setup_fault_message(fault: SetupFault) -> (text: String)
    ensures
        text@ == setup_fault_text(fault),
{
    match fault {
        SetupFault::ClientTls(detail) => concat("client tls config: ", detail.as_str()),
        SetupFault::ServerTls(detail) => concat("server tls config: ", detail.as_str()),
        SetupFault::Random(detail) => concat("getrandom: ", detail.as_str()),
        SetupFault::Connect(detail) => concat("connect: ", detail.as_str()),
        SetupFault::Accept(detail) => concat("accept: ", detail.as_str()),
    }
}

/// The one connection of a run.
#[derive(Clone, Copy)]
pub struct ConnRef {
    pub handle: usize,
    pub remote: SocketAddr,
}

/// The address an inbound datagram is attributed to: the connection's peer,
/// or the client before there is a connection.
pub fn datagram_remote(connection: Option<ConnRef>) -> (remote: SocketAddr)
    ensures
        remote == (match connection {
            Some(conn) => conn.remote,
            None => SocketAddr::V4 { ip: 0x0a00_0001, port: 1111 },
        }),
{
    match connection {
        Some(conn) => conn.remote,
        None => client_addr(),
    }
}

/// What the QUIC endpoint made of a datagram.
#[derive(Clone, Copy, PartialEq, Eq, Structural)]
pub enum Handled {
    ConnectionEvent(usize),
    NewConnection,
    Response,
    Ignored,
}

/// What is to be done about it.
#[derive(Clone, Copy, PartialEq, Eq, Structural)]
pub enum DatagramTask {
    /// Hand the event to the connection.
    Deliver,
    /// Accept the connection.
    Accept,
    /// Send the response on the wire.
    Respond,
    Nothing,
}

/// Act on the QUIC endpoint's answer: events of the one connection are
/// delivered, a first connection is accepted, a response goes out.
pub fn handle_datagram(connection: Option<ConnRef>, answer: Handled) -> (task: DatagramTask)
    ensures
        task == (match answer {
            Handled::ConnectionEvent(handle) => if connection matches Some(conn) && conn.handle
                == handle {
                DatagramTask::Deliver
            } else {
                DatagramTask::Nothing
            },
            Handled::NewConnection => if connection is None {
                DatagramTask::Accept
            } else {
                DatagramTask::Nothing
            },
            Handled::Response => DatagramTask::Respond,
            Handled::Ignored => DatagramTask::Nothing,
        }),
{
    match answer {
        Handled::ConnectionEvent(handle) => match connection {
            Some(conn) => if conn.handle == handle {
                DatagramTask::Deliver
            } else {
                DatagramTask::Nothing
            },
            None => DatagramTask::Nothing,
        },
        Handled::NewConnection => if connection.is_none() {
            DatagramTask::Accept
        } else {
            DatagramTask::Nothing
        },
        Handled::Response => DatagramTask::Respond,
        Handled::Ignored => DatagramTask::Nothing,
    }
}

/// What is drained next of the connection.
#[derive(Clone, Copy, Debug, PartialEq, Eq, Structural)]
pub enum QuiescePhase {
    EndpointEvents,
    Events,
    Transmits,
    /// Nothing is left.
    Quiet,
    /// An event or a send failed: the rest is left where it is.
    Failed,
}

/// Where draining the connection stands.
#[derive(Clone, Copy, Debug, PartialEq, Eq, Structural)]
pub struct Quiesce {
    pub phase: QuiescePhase,
    /// Something came up since the current pass began.
    pub progressed: bool,
}

/// What the connection's driver does next.
#[derive(Clone, Copy, Debug, PartialEq, Eq, Structural)]
pub enum QuiesceRequest {
    /// Move one endpoint-bound event, and its answer, if there is one.
    EndpointEvent,
    /// Handle the next application event.
    Event,
    /// Send the next transmit on the wire.
    Transmit,
    Finished,
}

/// What came of a request.
#[derive(Clone, Copy, Debug, PartialEq, Eq, Structural)]
pub enum QuiesceReply {
    /// There was something, and it was dealt with.
    Something,
    Nothing,
    /// There was something, and dealing with it failed.
    Failed,
}

/// Where draining stands after `reply`: a source is asked until it has
/// nothing; a pass that brought anything is followed by another; a failure
/// ends it.
pub open spec fn quiesced(q: Quiesce, reply: QuiesceReply) -> Quiesce {
    match reply {
        QuiesceReply::Something => Quiesce { progressed: true, ..q },
        QuiesceReply::Failed => Quiesce { phase: QuiescePhase::Failed, ..q },
        QuiesceReply::Nothing => match q.phase {
            QuiescePhase::EndpointEvents => Quiesce { phase: QuiescePhase::Events, ..q },
            QuiescePhase::Events => Quiesce { phase: QuiescePhase::Transmits, ..q },
            _ => if q.progressed {
                Quiesce { phase: QuiescePhase::EndpointEvents, progressed: false }
            } else {
                Quiesce { phase: QuiescePhase::Quiet, ..q }
            },
        },
    }
}

impl Quiesce {
    /// Draining goes on.
    pub open spec fn is_open(self) -> bool {
        self.phase != QuiescePhase::Quiet && self.phase != QuiescePhase::Failed
    }

    /// A run's turn of draining; without a connection there is nothing to
    /// drain.
    pub fn new(connected: bool) -> (quiesce: Self)
        ensures
            quiesce == (Quiesce {
                phase: if connected {
                    QuiescePhase::EndpointEvents
                } else {
                    QuiescePhase::Quiet
                },
                progressed: false,
            }),
    {
        let phase: QuiescePhase = if connected {
            QuiescePhase::EndpointEvents
        } else {
            QuiescePhase::Quiet
        };
        Quiesce { phase, progressed: false }
    }

    /// What to do next.
    pub fn request(&self) -> (request: QuiesceRequest)
        ensures
            request == (match self.phase {
                QuiescePhase::EndpointEvents => QuiesceRequest::EndpointEvent,
                QuiescePhase::Events => QuiesceRequest::Event,
                QuiescePhase::Transmits => QuiesceRequest::Transmit,
                QuiescePhase::Quiet => QuiesceRequest::Finished,
                QuiescePhase::Failed => QuiesceRequest::Finished,
            }),
    {
        match self.phase {
            QuiescePhase::EndpointEvents => QuiesceRequest::EndpointEvent,
            QuiescePhase::Events => QuiesceRequest::Event,
            QuiescePhase::Transmits => QuiesceRequest::Transmit,
            QuiescePhase::Quiet => QuiesceRequest::Finished,
            QuiescePhase::Failed => QuiesceRequest::Finished,
        }
    }

    /// Take note of what came of the request.
    pub fn reply(&mut self, reply: QuiesceReply)
        requires
            old(self).is_open(),
        ensures
            *final(self) == quiesced(*old(self), reply),
    {
        match reply {
            QuiesceReply::Something => {
                self.progressed = true;
            },
            QuiesceReply::Failed => {
                self.phase = QuiescePhase::Failed;
            },
            QuiesceReply::Nothing => {
                match self.phase {
                    QuiescePhase::EndpointEvents => {
                        self.phase = QuiescePhase::Events;
                    },
                    QuiescePhase::Events => {
                        self.phase = QuiescePhase::Transmits;
                    },
                    _ => {
                        if self.progressed {
                            self.phase = QuiescePhase::EndpointEvents;
                            self.progressed = false;
                        } else {
                            self.phase = QuiescePhase::Quiet;
                        }
                    },
                }
            },
        }
    }
}

/// Where draining a connection stands after `replies`.
pub open spec fn quiesce_trace(replies: Seq<QuiesceReply>) -> Quiesce
    decreases replies.len(),
{
    if replies.len() == 0 {
        Quiesce { phase: QuiescePhase::EndpointEvents, progressed: false }
    } else {
        quiesced(quiesce_trace(replies.drop_last()), replies.last())
    }
}

/// Every reply came while draining went on.
pub open spec fn in_time(replies: Seq<QuiesceReply>) -> bool
    decreases replies.len(),
{
    replies.len() == 0 || (in_time(replies.drop_last()) && quiesce_trace(
        replies.drop_last(),
    ).is_open())
}

/// Draining without a failure ends only in quiescence: endpoint-bound events,
/// application events and transmits, asked in turn, each had nothing.
pub proof fn quiet_connections_are_quiescent(replies: Seq<QuiesceReply>)
    requires
        in_time(replies),
        quiesce_trace(replies).phase == QuiescePhase::Quiet,
    ensures
        replies.len() >= 3,
        ({
            let n = replies.len() as int;
            &&& quiesce_trace(replies.take(n - 3)).phase == QuiescePhase::EndpointEvents
            &&& quiesce_trace(replies.take(n - 2)).phase == QuiescePhase::Events
            &&& quiesce_trace(replies.take(n - 1)).phase == QuiescePhase::Transmits
            &&& replies[n - 3] == QuiesceReply::Nothing
            &&& replies[n - 2] == QuiesceReply::Nothing
            &&& replies[n - 1] == QuiesceReply::Nothing
        }),
{
    let n = replies.len() as int;
    let a = replies.drop_last();
    assert(a.len() == n - 1);
    assert(quiesce_trace(a).phase == QuiescePhase::Transmits);
    assert(!quiesce_trace(a).progressed);
    let b = a.drop_last();
    assert(quiesce_trace(b).phase == QuiescePhase::Events);
    assert(!quiesce_trace(b).progressed);
    let c = b.drop_last();
    assert(quiesce_trace(c).phase == QuiescePhase::EndpointEvents);
    assert(replies.take(n - 1) =~= a);
    assert(replies.take(n - 2) =~= b);
    assert(replies.take(n - 3) =~= c);
}

/// Where a run is.
#[derive(Clone, Copy, PartialEq, Eq, Structural)]
pub enum RunPhase {
    Check,
    Draining,
    Drive,
    Settle,
    Select,
    Close,
    AwaitReceive,
    AwaitTick,
    Done,
}

/// A run's schedule, and what it came to once it is over.
pub struct Run {
    pub phase: RunPhase,
    pub started: u64,
    /// The wire's receive is in flight.
    pub receive_pending: bool,
    /// The tick is in flight.
    pub tick_pending: bool,
    pub outcome: Option<Result<Outcome, String>>,
}

/// What a run's driver does next.
#[derive(Clone, Copy, PartialEq, Eq, Structural)]
pub enum RunAction {
    /// Nothing to do yet: ask again.
    Continue,
    /// Drain the connection, feeding the exchange and the wire, and report
    /// how that went.
    Drain,
    /// Close the connection as done, then ask again.
    CloseConnection,
    /// Wait for the next event and report it.
    Select,
    /// Close the wire, then ask again; its receive resolves.
    CloseWire,
    /// Everything is resolved: the outcome stands.
    Return,
}

/// What a run's driver reports.
pub enum RunEvent {
    /// How draining went.
    Drained(Result<(), String>),
    /// A message arrived, and how handling it went; or the wire's end.
    Received(Result<Result<(), String>, String>),
    Tick,
}

/// What a run has come to is settled exactly from its closing on.
pub open spec fn is_closing(phase: RunPhase) -> bool {
    phase == RunPhase::Close || phase == RunPhase::AwaitReceive || phase == RunPhase::AwaitTick
        || phase == RunPhase::Done
}

/// The outcome is a failure with this text.
pub open spec fn fails_with(outcome: Option<Result<Outcome, String>>, text: Seq<char>) -> bool {
    outcome matches Some(Err(reported)) && reported@ == text
}

/// The outcome is what finishing the exchange comes to.
pub open spec fn finishes(outcome: Option<Result<Outcome, String>>, app: AppModel) -> bool {
    outcome matches Some(out) && finish_fits(app, out)
}

impl Run {
    /// What holds between calls.
    pub open spec fn wf(&self) -> bool {
        &&& is_closing(self.phase) <==> self.outcome is Some
        &&& !is_closing(self.phase) ==> self.receive_pending
        &&& self.phase == RunPhase::AwaitTick || self.phase == RunPhase::Done
            ==> !self.receive_pending
        &&& self.phase == RunPhase::Done <==> !self.tick_pending
    }

    /// The event can happen now.
    pub open spec fn expects(&self, event: RunEvent) -> bool {
        match event {
            RunEvent::Drained(_) => self.phase == RunPhase::Draining,
            RunEvent::Received(_) => self.receive_pending && (self.phase == RunPhase::Select
                || self.phase == RunPhase::AwaitReceive),
            RunEvent::Tick => self.tick_pending && (self.phase == RunPhase::Select || self.phase
                == RunPhase::AwaitReceive || self.phase == RunPhase::AwaitTick),
        }
    }

    /// A run that begins at `started`, with its receive and tick in flight.
    pub fn new(started: u64) -> (run: Self)
        ensures
            run.wf(),
            run == (Run {
                phase: RunPhase::Check,
                started,
                receive_pending: true,
                tick_pending: true,
                outcome: None,
            }),
    {
        Run {
            phase: RunPhase::Check,
            started,
            receive_pending: true,
            tick_pending: true,
            outcome: None,
        }
    }

    /// Take one step at `now`: say what the driver does next. `connected`
    /// says that there is a connection, `drained` that QUIC has drained it.
    pub fn step(&mut self, app: &mut App, connected: bool, drained: bool, now: u64) -> (action:
        RunAction)
        requires
            old(self).wf(),
        ensures
            final(self).wf(),
            run_stepped(
                *old(self),
                old(app)@,
                connected,
                drained,
                now,
                *final(self),
                final(app)@,
                action,
            ),
    {
        match self.phase {
            RunPhase::Check => {
                if now >= self.started && now - self.started > RUN_DEADLINE_NS {
                    self.outcome = Some(Err(DEADLINE_EXCEEDED.to_owned()));
                    self.phase = RunPhase::Close;
                    return RunAction::Continue;
                }
                if connected {
                    self.phase = RunPhase::Draining;
                } else {
                    self.phase = RunPhase::Select;
                }
                RunAction::Continue
            },
            RunPhase::Draining => RunAction::Drain,
            RunPhase::Drive => {
                self.phase = RunPhase::Settle;
                if app.drive(now) {
                    RunAction::CloseConnection
                } else {
                    RunAction::Continue
                }
            },
            RunPhase::Settle => {
                let settled: bool = match app.done_at {
                    Some(at) => drained || (now >= at && now - at >= LINGER_NS),
                    None => false,
                };
                if settled {
                    self.outcome = Some(app.finish());
                    self.phase = RunPhase::Close;
                } else {
                    self.phase = RunPhase::Select;
                }
                RunAction::Continue
            },
            RunPhase::Select => RunAction::Select,
            RunPhase::Close => {
                self.phase = RunPhase::AwaitReceive;
                RunAction::CloseWire
            },
            RunPhase::AwaitReceive => {
                if self.receive_pending {
                    RunAction::Select
                } else {
                    self.phase = RunPhase::AwaitTick;
                    RunAction::Continue
                }
            },
            RunPhase::AwaitTick => RunAction::Select,
            RunPhase::Done => RunAction::Return,
        }
    }

    /// Take note of what happened at the driver. True if the receive (or the
    /// tick) that the event resolved is to be started once more.
    pub fn on_event(&mut self, app: &App, connected: bool, event: RunEvent) -> (rearm: bool)
        requires
            old(self).wf(),
            old(self).expects(event),
        ensures
            final(self).wf(),
            run_evented(*old(self), app@, connected, event, *final(self), rearm),
    {
        match event {
            RunEvent::Drained(result) => {
                match result {
                    Ok(()) => {
                        self.phase = RunPhase::Drive;
                    },
                    Err(text) => {
                        self.outcome = Some(Err(text));
                        self.phase = RunPhase::Close;
                    },
                }
                false
            },
            RunEvent::Received(received) => {
                if self.phase == RunPhase::AwaitReceive {
                    self.receive_pending = received.is_ok();
                    return self.receive_pending;
                }
                match received {
                    Ok(handled) => {
                        match handled {
                            Ok(()) => {
                                self.phase = RunPhase::Check;
                            },
                            Err(text) => {
                                self.outcome = Some(Err(text));
                                self.phase = RunPhase::Close;
                            },
                        }
                        true
                    },
                    Err(text) => {
                        self.receive_pending = false;
                        self.phase = RunPhase::Close;
                        if app.done_at.is_some() && connected {
                            self.outcome = Some(app.finish());
                        } else {
                            self.outcome = Some(Err(text));
                        }
                        false
                    },
                }
            },
            RunEvent::Tick => {
                match self.phase {
                    RunPhase::AwaitTick => {
                        self.tick_pending = false;
                        self.phase = RunPhase::Done;
                        false
                    },
                    RunPhase::AwaitReceive => true,
                    _ => {
                        self.phase = RunPhase::Check;
                        true
                    },
                }
            },
        }
    }
}

/// The run, the exchange and the action after one step.
pub open spec fn run_stepped(
    run: Run,
    app: AppModel,
    connected: bool,
    drained: bool,
    now: u64,
    next: Run,
    after: AppModel,
    action: RunAction,
) -> bool {
    let moved = |phase: RunPhase| Run { phase, ..run };
    match run.phase {
        RunPhase::Check => action == RunAction::Continue && after == app && if now - run.started
            > RUN_DEADLINE_NS {
            next == (Run { phase: RunPhase::Close, outcome: next.outcome, ..run }) && fails_with(
                next.outcome,
                DEADLINE_EXCEEDED@,
            )
        } else if connected {
            next == moved(RunPhase::Draining)
        } else {
            next == moved(RunPhase::Select)
        },
        RunPhase::Draining => action == RunAction::Drain && next == run && after == app,
        RunPhase::Drive => next == moved(RunPhase::Settle) && if app.message is Some
            && app.received is Some && !app.close_sent {
            action == RunAction::CloseConnection && after == (AppModel {
                close_sent: true,
                done_at: Some(now),
                ..app
            })
        } else {
            action == RunAction::Continue && after == app
        },
        RunPhase::Settle => action == RunAction::Continue && after == app && if app.done_at matches
            Some(at) && (drained || has_passed(at, now, LINGER_NS)) {
            next == (Run { phase: RunPhase::Close, outcome: next.outcome, ..run }) && finishes(
                next.outcome,
                app,
            )
        } else {
            next == moved(RunPhase::Select)
        },
        RunPhase::Select => action == RunAction::Select && next == run && after == app,
        RunPhase::Close => action == RunAction::CloseWire && next == moved(RunPhase::AwaitReceive)
            && after == app,
        RunPhase::AwaitReceive => after == app && if run.receive_pending {
            action == RunAction::Select && next == run
        } else {
            action == RunAction::Continue && next == moved(RunPhase::AwaitTick)
        },
        RunPhase::AwaitTick => action == RunAction::Select && next == run && after == app,
        RunPhase::Done => action == RunAction::Return && next == run && after == app,
    }
}

/// The run after an event, and whether what resolved is started once more.
pub open spec fn run_evented(
    run: Run,
    app: AppModel,
    connected: bool,
    event: RunEvent,
    next: Run,
    rearm: bool,
) -> bool {
    let closed = Run { phase: RunPhase::Close, outcome: next.outcome, ..run };
    match event {
        RunEvent::Drained(result) => !rearm && match result {
            Ok(()) => next == (Run { phase: RunPhase::Drive, ..run }),
            Err(text) => next == closed && fails_with(next.outcome, text@),
        },
        RunEvent::Received(received) => if run.phase == RunPhase::AwaitReceive {
            rearm == (received is Ok) && next == (Run { receive_pending: rearm, ..run })
        } else {
            match received {
                Ok(Ok(())) => rearm && next == (Run { phase: RunPhase::Check, ..run }),
                Ok(Err(text)) => rearm && next == closed && fails_with(next.outcome, text@),
                Err(text) => !rearm && next == (Run { receive_pending: false, ..closed }) && if
                app.done_at is Some && connected {
                    finishes(next.outcome, app)
                } else {
                    fails_with(next.outcome, text@)
                },
            }
        },
        RunEvent::Tick => if run.phase == RunPhase::AwaitTick {
            !rearm && next == (Run { phase: RunPhase::Done, tick_pending: false, ..run })
        } else if run.phase == RunPhase::AwaitReceive {
            rearm && next == run
        } else {
            rearm && next == (Run { phase: RunPhase::Check, ..run })
        },
    }
}

/// A run that returns has an outcome, and left neither its receive nor its
/// tick in flight.
pub proof fn returned_run_is_resolved(
    run: Run,
    app: AppModel,
    connected: bool,
    drained: bool,
    now: u64,
    next: Run,
    after: AppModel,
    action: RunAction,
)
    requires
        run.wf(),
        run_stepped(run, app, connected, drained, now, next, after, action),
        action == RunAction::Return,
    ensures
        run.outcome is Some,
        !run.receive_pending,
        !run.tick_pending,
{
}

/// What a run has come to never changes once it is settled.
pub proof fn outcome_is_final(
    run: Run,
    app: AppModel,
    connected: bool,
    drained: bool,
    now: u64,
    next: Run,
    after: AppModel,
    action: RunAction,
    event: RunEvent,
    later: Run,
    rearm: bool,
)
    requires
        run.wf(),
        run.outcome is Some,
        run_stepped(run, app, connected, drained, now, next, after, action),
        run.expects(event),
        run_evented(run, app, connected, event, later, rearm),
    ensures
        next.outcome == run.outcome,
        later.outcome == run.outcome,
{
}

/// A setup fault's text tells the stage, and its detail.
pub proof fn setup_faults_tell_the_stage(detail: String)
    ensures
        setup_fault_text(SetupFault::ClientTls(detail)) == "client tls config: "@ + detail@,
        setup_fault_text(SetupFault::ServerTls(detail)) == "server tls config: "@ + detail@,
        setup_fault_text(SetupFault::Random(detail)) == "getrandom: "@ + detail@,
        setup_fault_text(SetupFault::Connect(detail)) == "connect: "@ + detail@,
        setup_fault_text(SetupFault::Accept(detail)) == "accept: "@ + detail@,
{
}

/// A source is asked again while it has something; an empty one passes the
/// turn to the next, and the last one to a new pass if this one brought
/// anything; a failure ends draining at once.
pub proof fn draining_asks_in_turn(q: Quiesce, reply: QuiesceReply)
    requires
        q.is_open(),
    ensures
        ({
            let next = quiesced(q, reply);
            &&& reply == QuiesceReply::Something ==> next.phase == q.phase && next.progressed
            &&& reply == QuiesceReply::Failed ==> next.phase == QuiescePhase::Failed
            &&& reply == QuiesceReply::Nothing ==> match q.phase {
                QuiescePhase::EndpointEvents => next.phase == QuiescePhase::Events
                    && next.progressed == q.progressed,
                QuiescePhase::Events => next.phase == QuiescePhase::Transmits && next.progressed
                    == q.progressed,
                _ => if q.progressed {
                    next.phase == QuiescePhase::EndpointEvents && !next.progressed
                } else {
                    next.phase == QuiescePhase::Quiet
                },
            }
        }),
{
}

/// A run that is past thirty seconds fails at its next check; one that is not
/// goes on to drain its connection, or, without one, to wait.
pub proof fn runs_end_after_thirty_seconds(
    run: Run,
    app: AppModel,
    connected: bool,
    drained: bool,
    now: u64,
    next: Run,
    after: AppModel,
    action: RunAction,
)
    requires
        run.phase == RunPhase::Check,
        run_stepped(run, app, connected, drained, now, next, after, action),
    ensures
        action == RunAction::Continue,
        after == app,
        now > run.started + 30_000_000_000 ==> {
            &&& next.phase == RunPhase::Close
            &&& next.outcome matches Some(Err(text))
            &&& text@ == "run deadline exceeded"@
        },
        now <= run.started + 30_000_000_000 ==> {
            &&& next.outcome == run.outcome
            &&& next.phase == if connected {
                RunPhase::Draining
            } else {
                RunPhase::Select
            }
        },
        next.started == run.started,
        next.receive_pending == run.receive_pending,
        next.tick_pending == run.tick_pending,
{
}

/// A client that has its echo closes the connection, once, and is done from
/// that moment on.
pub proof fn clients_close_once_they_have_their_echo(
    run: Run,
    app: AppModel,
    connected: bool,
    drained: bool,
    now: u64,
    next: Run,
    after: AppModel,
    action: RunAction,
)
    requires
        run.phase == RunPhase::Drive,
        run_stepped(run, app, connected, drained, now, next, after, action),
    ensures
        next.phase == RunPhase::Settle,
        next.outcome == run.outcome,
        action == RunAction::CloseConnection <==> app.message is Some && app.received is Some
            && !app.close_sent,
        action == RunAction::CloseConnection || action == RunAction::Continue,
        action == RunAction::CloseConnection ==> after.close_sent && after.done_at == Some(now)
            && after == (AppModel { close_sent: true, done_at: after.done_at, ..app }),
        action == RunAction::Continue ==> after == app,
{
}

/// A side that is done leaves once its connection has drained, or half a
/// second later; until then it waits.
pub proof fn finished_sides_linger(
    run: Run,
    app: AppModel,
    connected: bool,
    drained: bool,
    now: u64,
    next: Run,
    after: AppModel,
    action: RunAction,
)
    requires
        run.phase == RunPhase::Settle,
        run_stepped(run, app, connected, drained, now, next, after, action),
    ensures
        after == app,
        action == RunAction::Continue,
        app.done_at is None ==> next.phase == RunPhase::Select && next.outcome == run.outcome,
        app.done_at matches Some(at) ==> if drained || now >= at + 500_000_000 {
            next.phase == RunPhase::Close && (next.outcome matches Some(outcome) && finish_fits(
                app,
                outcome,
            ))
        } else {
            next.phase == RunPhase::Select && next.outcome == run.outcome
        },
        next.receive_pending == run.receive_pending,
        next.tick_pending == run.tick_pending,
{
}

/// The steps that wait, and those that resolve what is in flight: the wire is
/// closed first, then its receive is awaited, then the tick, and then the run
/// returns; none of them changes the exchange or the outcome.
pub proof fn runs_resolve_what_is_in_flight(
    run: Run,
    app: AppModel,
    connected: bool,
    drained: bool,
    now: u64,
    next: Run,
    after: AppModel,
    action: RunAction,
)
    requires
        run.phase != RunPhase::Check,
        run.phase != RunPhase::Drive,
        run.phase != RunPhase::Settle,
        run_stepped(run, app, connected, drained, now, next, after, action),
    ensures
        after == app,
        next.outcome == run.outcome,
        next.receive_pending == run.receive_pending,
        next.tick_pending == run.tick_pending,
        run.phase == RunPhase::Draining ==> action == RunAction::Drain && next.phase == run.phase,
        run.phase == RunPhase::Select ==> action == RunAction::Select && next.phase == run.phase,
        run.phase == RunPhase::Close ==> action == RunAction::CloseWire && next.phase
            == RunPhase::AwaitReceive,
        run.phase == RunPhase::AwaitReceive && run.receive_pending ==> action == RunAction::Select
            && next.phase == run.phase,
        run.phase == RunPhase::AwaitReceive && !run.receive_pending ==> action
            == RunAction::Continue && next.phase == RunPhase::AwaitTick,
        run.phase == RunPhase::AwaitTick ==> action == RunAction::Select && next.phase
            == run.phase,
        run.phase == RunPhase::Done ==> action == RunAction::Return && next.phase == run.phase,
{
}

/// Draining that went well is followed by driving the exchange; one that
/// failed fails the run with its text.
pub proof fn drained_runs_are_driven(
    run: Run,
    app: AppModel,
    connected: bool,
    result: Result<(), String>,
    next: Run,
    rearm: bool,
)
    requires
        run_evented(run, app, connected, RunEvent::Drained(result), next, rearm),
    ensures
        !rearm,
        result is Ok ==> next.phase == RunPhase::Drive && next.outcome == run.outcome,
        result matches Err(text) ==> {
            &&& next.phase == RunPhase::Close
            &&& next.outcome matches Some(Err(reported))
            &&& reported@ == text@
        },
        next.receive_pending == run.receive_pending,
        next.tick_pending == run.tick_pending,
{
}

/// A received message that was handled starts the next turn, one that could
/// not be fails the run, and both receive anew; the wire's end ends the run,
/// well for a connected side that is done and as a failure otherwise.
pub proof fn received_messages_start_the_next_turn(
    run: Run,
    app: AppModel,
    connected: bool,
    received: Result<Result<(), String>, String>,
    next: Run,
    rearm: bool,
)
    requires
        run.phase == RunPhase::Select,
        run_evented(run, app, connected, RunEvent::Received(received), next, rearm),
    ensures
        next.tick_pending == run.tick_pending,
        rearm <==> received is Ok,
        received matches Ok(handled) ==> {
            &&& next.receive_pending == run.receive_pending
            &&& handled is Ok ==> next.phase == RunPhase::Check && next.outcome == run.outcome
            &&& handled matches Err(text) ==> next.phase == RunPhase::Close && (next.outcome
                matches Some(Err(reported)) && reported@ == text@)
        },
        received matches Err(text) ==> {
            &&& !next.receive_pending
            &&& next.phase == RunPhase::Close
            &&& if app.done_at is Some && connected {
                next.outcome matches Some(outcome) && finish_fits(app, outcome)
            } else {
                next.outcome matches Some(Err(reported)) && reported@ == text@
            }
        },
{
}

/// While a run closes, messages are received and dropped until the wire has
/// ended, and ticks are started anew until the last one is awaited.
pub proof fn closing_runs_keep_their_outcome(
    run: Run,
    app: AppModel,
    connected: bool,
    event: RunEvent,
    next: Run,
    rearm: bool,
)
    requires
        run.phase == RunPhase::AwaitReceive || run.phase == RunPhase::AwaitTick,
        run.expects(event),
        run_evented(run, app, connected, event, next, rearm),
    ensures
        next.outcome == run.outcome,
        event matches RunEvent::Received(received) ==> next.phase == run.phase && rearm
            == (received is Ok) && next.receive_pending == (received is Ok),
        event is Tick && run.phase == RunPhase::AwaitReceive ==> rearm && next == run,
        event is Tick && run.phase == RunPhase::AwaitTick ==> !rearm && next.phase
            == RunPhase::Done && !next.tick_pending,
{
}

/// A tick starts the next turn, and ticks on.
pub proof fn ticks_start_the_next_turn(
    run: Run,
    app: AppModel,
    connected: bool,
    next: Run,
    rearm: bool,
)
    requires
        run.phase == RunPhase::Select,
        run_evented(run, app, connected, RunEvent::Tick, next, rearm),
    ensures
        rearm,
        next == (Run { phase: RunPhase::Check, ..run }),
{
}

} // verus!
