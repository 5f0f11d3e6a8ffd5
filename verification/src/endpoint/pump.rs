//! The pump: the one task per endpoint that owns its I/O. Each turn it drains
//! QUIC, flushes what waits on every wire, arms receives for new channels,
//! and waits for the next event. On its way out it resolves every receive
//! that is still in flight.

use super::entry::EntryModel;
use super::error::ErrorModel;
use super::state::entry_list;
use super::state::failed_entry;
use super::state::Inbound;
use super::state::Model;
use super::state::State;
use super::state::INBOX_CAP;
use crate::addr::Id;
use crate::addr::SocketAddr;
use crate::assoc::assoc_at;
use crate::assoc::has_key;
use crate::assoc::position;
use crate::bytes::copy_range;
use vstd::prelude::*;

verus! {

/// The pump's tick in nanoseconds: QUIC's deadlines, and the bound on how
/// stale a resource-method mutation can go unflushed.
pub const TICK_NS: u64 = 10_000_000;

/// Resource methods' polling quantum in nanoseconds while waiting on pump
/// consequences.
pub const POLL_NS: u64 = 5_000_000;

/// Bounded window in nanoseconds for final packets after the endpoint closed.
pub const LINGER_NS: u64 = 500_000_000;

/// The first byte of a signaling datagram; never the first byte of a QUIC
/// packet, whose fixed bit is set.
pub const SIGNAL_PREFIX: u8 = 0x00;

/// Why the endpoint is dead when the relay takes no more datagrams.
pub const RELAY_SEND_FAILED: &'static str = "relay send failed";

/// Where the pump is in its turn, or in its teardown.
#[derive(Clone, Copy, Debug, PartialEq, Eq, Structural)]
pub enum PumpPhase {
    Drain,
    FlushRelay,
    FlushUdp,
    FlushChannels,
    Arm,
    Check,
    Select,
    CloseRelay,
    WakeUdp,
    CloseChannels,
    AwaitRelay,
    AwaitUdp,
    AwaitChannels,
    AwaitTick,
    Done,
}

/// The pump's schedule.
pub struct Pump {
    pub phase: PumpPhase,
    /// A UDP socket is bound.
    pub has_udp: bool,
    /// The relay receive is in flight.
    pub relay_pending: bool,
    /// The UDP receive is in flight.
    pub udp_pending: bool,
    /// The tick is in flight.
    pub tick_pending: bool,
    /// The channels whose receives are in flight.
    pub channel_pending: Vec<SocketAddr>,
}

/// The pump's schedule as mathematical values.
#[verifier::ext_equal]
pub struct PumpModel {
    pub phase: PumpPhase,
    pub has_udp: bool,
    pub relay_pending: bool,
    pub udp_pending: bool,
    pub tick_pending: bool,
    pub channel_pending: Seq<SocketAddr>,
}

impl View for Pump {
    type V = PumpModel;

    open spec fn view(&self) -> PumpModel {
        PumpModel {
            phase: self.phase,
            has_udp: self.has_udp,
            relay_pending: self.relay_pending,
            udp_pending: self.udp_pending,
            tick_pending: self.tick_pending,
            channel_pending: self.channel_pending@,
        }
    }
}

/// What the pump's driver does next.
pub enum PumpAction {
    /// Nothing to do yet: ask again.
    Continue,
    /// Drain QUIC, then ask again.
    Drain,
    /// Send through the relay, then report how it went.
    SendRelay { peer: Id, datagram: Vec<u8> },
    /// Send on the UDP socket, then ask again; a failure is datagram loss.
    SendUdp { remote: SocketAddr, datagram: Vec<u8> },
    /// Send on a channel, then ask again; a failure is datagram loss.
    SendChannel { addr: SocketAddr, datagram: Vec<u8> },
    /// Start a receive on a channel, then ask again.
    ReceiveOn(SocketAddr),
    /// Wait for the next event and report it.
    Select,
    /// Close the relay, then ask again; its receive resolves.
    CloseRelay,
    /// Send the UDP socket an empty datagram, then ask again; its receive
    /// resolves.
    WakeUdp,
    /// Close every channel, then ask again; their receives resolve.
    CloseChannels,
    /// Every receive is resolved.
    Stop,
}

/// What the pump's driver reports.
pub enum PumpEvent {
    /// Whether the relay took a datagram.
    RelaySent(bool),
    /// A relayed datagram, or why the relay died.
    RelayReceived(Result<(Id, Vec<u8>), String>),
    /// A datagram with its sender, or nothing from a dead socket.
    UdpReceived(Option<(Vec<u8>, SocketAddr)>),
    /// A channel's receive: a message (binary ones carry a datagram), or the
    /// channel's end.
    ChannelReceived { addr: SocketAddr, received: Result<Option<Vec<u8>>, String> },
    Tick,
}

/// What an event asks the driver to do.
pub struct Effect {
    /// Start the receive (or the tick) that the event resolved once more.
    pub rearm: bool,
    pub task: Task,
}

/// The work an event brings.
pub enum Task {
    Nothing,
    /// Hand the datagram to QUIC.
    Deliver(Inbound),
    /// Spawn an answerer session for this peer.
    SpawnAnswerer(Id),
    /// Run the QUIC timers that are due.
    HandleTimeouts,
}

/// The pump is past its turns.
pub open spec fn tearing_down(phase: PumpPhase) -> bool {
    match phase {
        PumpPhase::CloseRelay => true,
        PumpPhase::WakeUdp => true,
        PumpPhase::CloseChannels => true,
        PumpPhase::AwaitRelay => true,
        PumpPhase::AwaitUdp => true,
        PumpPhase::AwaitChannels => true,
        PumpPhase::AwaitTick => true,
        PumpPhase::Done => true,
        _ => false,
    }
}

/// `s` without its first `x`.
pub open spec fn without<A>(s: Seq<A>, x: A) -> Seq<A>
    decreases s.len(),
{
    if s.len() == 0 {
        s
    } else if s[0] == x {
        s.drop_first()
    } else {
        seq![s[0]] + without(s.drop_first(), x)
    }
}

impl PumpModel {
    /// What holds between calls: a pump in its turns has the relay receive
    /// and the tick in flight, and each step of the teardown leaves what it
    /// waited for resolved.
    pub open spec fn valid(self) -> bool {
        &&& self.udp_pending ==> self.has_udp
        &&& !tearing_down(self.phase) ==> self.relay_pending && self.tick_pending
        &&& self.phase == PumpPhase::AwaitUdp || self.phase == PumpPhase::AwaitChannels
            || self.phase == PumpPhase::AwaitTick || self.phase == PumpPhase::Done
            ==> !self.relay_pending
        &&& self.phase == PumpPhase::AwaitChannels || self.phase == PumpPhase::AwaitTick
            || self.phase == PumpPhase::Done ==> !self.udp_pending
        &&& self.phase == PumpPhase::AwaitTick || self.phase == PumpPhase::Done
            ==> self.channel_pending.len() == 0
        &&& self.phase == PumpPhase::Done <==> !self.tick_pending
    }

    /// No receive and no timer is in flight.
    pub open spec fn resolved(self) -> bool {
        !self.relay_pending && !self.udp_pending && !self.tick_pending
            && self.channel_pending.len() == 0
    }

    /// The event can happen now.
    pub open spec fn expects(self, event: PumpEvent) -> bool {
        match event {
            PumpEvent::RelaySent(_) => self.phase == PumpPhase::FlushRelay,
            PumpEvent::RelayReceived(_) => self.relay_pending && (self.phase == PumpPhase::Select
                || self.phase == PumpPhase::AwaitRelay),
            PumpEvent::UdpReceived(_) => self.udp_pending && (self.phase == PumpPhase::Select
                || self.phase == PumpPhase::AwaitRelay || self.phase == PumpPhase::AwaitUdp),
            PumpEvent::ChannelReceived { addr, .. } => self.channel_pending.contains(addr) && (
            self.phase == PumpPhase::Select || self.phase == PumpPhase::AwaitRelay || self.phase
                == PumpPhase::AwaitChannels),
            PumpEvent::Tick => self.tick_pending && (self.phase == PumpPhase::Select || self.phase
                == PumpPhase::AwaitRelay || self.phase == PumpPhase::AwaitTick),
        }
    }

    /// The schedule in another phase.
    pub open spec fn at(self, phase: PumpPhase) -> PumpModel {
        PumpModel { phase, ..self }
    }
}

/// The endpoint has lingered long enough after closing.
pub open spec fn lingered(m: Model, now: u64) -> bool {
    match m.closed_at {
        Some(at) => now - at >= LINGER_NS,
        None => true,
    }
}

/// Every connection has drained or failed.
pub open spec fn all_over(m: Model) -> bool {
    forall|h: usize| #[trigger] m.conns.dom().contains(h) ==> m.conns[h].over()
}

/// The pump has nothing left to do for the endpoint.
pub open spec fn is_finished(m: Model, now: u64) -> bool {
    m.dead is Some || (m.closed && (all_over(m) || lingered(m, now)))
}

/// The schedule, the endpoint and the action after one step.
pub open spec fn stepped(
    pump: PumpModel,
    m: Model,
    now: u64,
    next: PumpModel,
    after: Model,
    action: PumpAction,
) -> bool {
    match pump.phase {
        PumpPhase::Drain => action is Drain && next == pump.at(PumpPhase::FlushRelay) && after == m,
        PumpPhase::FlushRelay => if m.relay_outbound.len() > 0 {
            &&& action matches PumpAction::SendRelay { peer, datagram }
            &&& (peer, datagram@) == m.relay_outbound[0]
            &&& next == pump
            &&& after == (Model { relay_outbound: m.relay_outbound.drop_first(), ..m })
        } else {
            action is Continue && next == pump.at(PumpPhase::FlushUdp) && after == m
        },
        PumpPhase::FlushUdp => if m.udp_outbound.len() > 0 {
            &&& next == pump
            &&& after == (Model { udp_outbound: m.udp_outbound.drop_first(), ..m })
            &&& if pump.has_udp {
                &&& action matches PumpAction::SendUdp { remote, datagram }
                &&& (remote, datagram@) == m.udp_outbound[0]
            } else {
                action is Continue
            }
        } else {
            action is Continue && next == pump.at(PumpPhase::FlushChannels) && after == m
        },
        PumpPhase::FlushChannels => if m.channel_outbound.len() > 0 {
            &&& next == pump
            &&& after == (Model { channel_outbound: m.channel_outbound.drop_first(), ..m })
            &&& if m.channels.dom().contains(m.channel_outbound[0].0) {
                &&& action matches PumpAction::SendChannel { addr, datagram }
                &&& (addr, datagram@) == m.channel_outbound[0]
            } else {
                action is Continue
            }
        } else {
            action is Continue && next == pump.at(PumpPhase::Arm) && after == m
        },
        PumpPhase::Arm => if m.new_channels.len() > 0 {
            &&& action matches PumpAction::ReceiveOn(addr)
            &&& addr == m.new_channels[0]
            &&& next == (PumpModel { channel_pending: pump.channel_pending.push(addr), ..pump })
            &&& after == (Model { new_channels: m.new_channels.drop_first(), ..m })
        } else {
            action is Continue && next == pump.at(PumpPhase::Check) && after == m
        },
        PumpPhase::Check => action is Continue && after == m && next == pump.at(
            if is_finished(m, now) {
                PumpPhase::CloseRelay
            } else {
                PumpPhase::Select
            },
        ),
        PumpPhase::Select => action is Select && next == pump && after == m,
        PumpPhase::CloseRelay => action is CloseRelay && next == pump.at(PumpPhase::WakeUdp)
            && after == m,
        PumpPhase::WakeUdp => next == pump.at(PumpPhase::CloseChannels) && after == m
            && if pump.has_udp {
            action is WakeUdp
        } else {
            action is Continue
        },
        PumpPhase::CloseChannels => action is CloseChannels && next == pump.at(
            PumpPhase::AwaitRelay,
        ) && after == m,
        PumpPhase::AwaitRelay => after == m && if pump.relay_pending {
            action is Select && next == pump
        } else {
            action is Continue && next == pump.at(PumpPhase::AwaitUdp)
        },
        PumpPhase::AwaitUdp => after == m && if pump.udp_pending {
            action is Select && next == pump
        } else {
            action is Continue && next == pump.at(PumpPhase::AwaitChannels)
        },
        PumpPhase::AwaitChannels => after == m && if pump.channel_pending.len() > 0 {
            action is Select && next == pump
        } else {
            action is Continue && next == pump.at(PumpPhase::AwaitTick)
        },
        PumpPhase::AwaitTick => action is Select && next == pump && after == m,
        PumpPhase::Done => action is Stop && next == pump && after == m,
    }
}

/// The schedule after `event`.
pub open spec fn schedule_after(pump: PumpModel, m: Model, event: PumpEvent) -> PumpModel {
    let turning = !tearing_down(pump.phase);
    match event {
        PumpEvent::RelaySent(ok) => if ok {
            pump
        } else {
            pump.at(PumpPhase::CloseRelay)
        },
        PumpEvent::RelayReceived(received) => if turning {
            match received {
                Ok(_) => pump.at(PumpPhase::Drain),
                Err(_) => PumpModel {
                    relay_pending: false,
                    ..pump.at(PumpPhase::CloseRelay)
                },
            }
        } else {
            PumpModel { relay_pending: received is Ok, ..pump }
        },
        PumpEvent::UdpReceived(received) => if turning {
            PumpModel { udp_pending: received is Some, ..pump.at(PumpPhase::Drain) }
        } else {
            PumpModel { udp_pending: false, ..pump }
        },
        PumpEvent::ChannelReceived { addr, received } => {
            let rest = without(pump.channel_pending, addr);
            if turning {
                PumpModel {
                    channel_pending: if received is Ok && m.channels.dom().contains(addr) {
                        rest.push(addr)
                    } else {
                        rest
                    },
                    ..pump.at(PumpPhase::Drain)
                }
            } else {
                PumpModel { channel_pending: rest, ..pump }
            }
        },
        PumpEvent::Tick => if turning {
            pump.at(PumpPhase::Drain)
        } else if pump.phase == PumpPhase::AwaitTick {
            PumpModel { tick_pending: false, ..pump.at(PumpPhase::Done) }
        } else {
            pump
        },
    }
}

/// The endpoint after `event` in one of the pump's turns.
pub open spec fn endpoint_after(m: Model, event: PumpEvent) -> Model {
    match event {
        PumpEvent::RelaySent(false) => dead(m, RELAY_SEND_FAILED@),
        PumpEvent::RelayReceived(Err(reason)) => dead(m, reason@),
        PumpEvent::RelayReceived(Ok((source, payload))) => if is_signal(payload@) {
            signaled(m, source, payload@.drop_first())
        } else {
            m.with_peer(source)
        },
        PumpEvent::ChannelReceived { addr, received: Err(_) } => Model {
            channels: m.channels.remove(addr),
            ..m
        },
        _ => m,
    }
}

/// The endpoint after its relay died.
pub open spec fn dead(m: Model, reason: Seq<char>) -> Model {
    Model {
        dead: Some(reason),
        conns: m.conns.map_values(|e: EntryModel| failed_entry(e)),
        ..m
    }
}

/// The payload is a signaling datagram.
pub open spec fn is_signal(payload: Seq<u8>) -> bool {
    payload.len() > 0 && payload[0] == SIGNAL_PREFIX
}

/// The sender of a relayed datagram, where `event` is one, has a standin or
/// can get one.
pub open spec fn has_room(m: Model, event: PumpEvent) -> bool {
    match event {
        PumpEvent::RelayReceived(Ok((source, payload))) => is_signal(payload@) || m.room_for(source),
        _ => true,
    }
}

/// Signals are filed rather than discarded.
pub open spec fn takes_signals(m: Model) -> bool {
    m.webrtc_enabled && !m.closed_or_dead()
}

/// The endpoint after a signal from `source`.
pub open spec fn signaled(m: Model, source: Id, signal: Seq<u8>) -> Model {
    if takes_signals(m) {
        Model {
            signaling: m.signaling.insert(source),
            signal_inboxes: m.signal_inboxes.insert(
                source,
                if m.inbox(source).len() < INBOX_CAP {
                    m.inbox(source).push(signal)
                } else {
                    m.inbox(source)
                },
            ),
            ..m
        }
    } else {
        m
    }
}

/// What `event` asks of the driver in one of the pump's turns, from the
/// endpoint `m` before it.
pub open spec fn effect_fits(m: Model, event: PumpEvent, effect: Effect) -> bool {
    match event {
        PumpEvent::RelaySent(_) => !effect.rearm && effect.task is Nothing,
        PumpEvent::RelayReceived(Err(_)) => !effect.rearm && effect.task is Nothing,
        PumpEvent::RelayReceived(Ok((source, payload))) => effect.rearm && if is_signal(payload@) {
            if takes_signals(m) && !m.signaling.contains(source) {
                effect.task == Task::SpawnAnswerer(source)
            } else {
                effect.task is Nothing
            }
        } else {
            &&& effect.task matches Task::Deliver(inbound)
            &&& inbound.addr == m.with_peer(source).addr_of(source)
            &&& inbound.source == Some(source)
            &&& inbound.payload@ == payload@
        },
        PumpEvent::UdpReceived(None) => !effect.rearm && effect.task is Nothing,
        PumpEvent::UdpReceived(Some((payload, remote))) => {
            &&& effect.rearm
            &&& effect.task matches Task::Deliver(inbound)
            &&& inbound.addr == remote
            &&& inbound.source is None
            &&& inbound.payload@ == payload@
        },
        PumpEvent::ChannelReceived { received: Err(_), .. } => !effect.rearm && effect.task
            is Nothing,
        PumpEvent::ChannelReceived { addr, received: Ok(payload) } => {
            let open = m.channels.dom().contains(addr);
            &&& effect.rearm == open
            &&& if open && payload is Some {
                &&& effect.task matches Task::Deliver(inbound)
                &&& inbound.addr == addr
                &&& inbound.source == Some(m.channels[addr])
                &&& inbound.payload@ == payload->0@
            } else {
                effect.task is Nothing
            }
        },
        PumpEvent::Tick => effect.rearm && effect.task is HandleTimeouts,
    }
}

/// A stopped pump has left nothing in flight: the relay receive, the UDP
/// receive, every channel receive and the tick are resolved.
pub proof fn stopped_pump_is_resolved(
    pump: PumpModel,
    m: Model,
    now: u64,
    next: PumpModel,
    after: Model,
    action: PumpAction,
)
    requires
        pump.valid(),
        stepped(pump, m, now, next, after, action),
        action is Stop,
    ensures
        pump.resolved(),
        !pump.relay_pending,
        !pump.udp_pending,
        !pump.tick_pending,
        pump.channel_pending.len() == 0,
{
}

/// Once the teardown has begun, no further turn is taken and nothing more is
/// sent or handed to QUIC.
pub proof fn teardown_is_final(
    pump: PumpModel,
    m: Model,
    now: u64,
    next: PumpModel,
    after: Model,
    action: PumpAction,
    event: PumpEvent,
)
    requires
        tearing_down(pump.phase),
        stepped(pump, m, now, next, after, action),
    ensures
        tearing_down(next.phase),
        after == m,
        !(action is Drain || action is SendRelay || action is SendUdp || action is SendChannel
            || action is ReceiveOn),
        tearing_down(schedule_after(pump, m, event).phase),
{
}

/// A pump whose endpoint is dead, or closed with every connection over, goes
/// into its teardown at the next check.
pub proof fn finished_endpoint_stops_the_pump(
    pump: PumpModel,
    m: Model,
    now: u64,
    next: PumpModel,
    after: Model,
    action: PumpAction,
)
    requires
        pump.phase == PumpPhase::Check,
        m.dead is Some || (m.closed && all_over(m)),
        stepped(pump, m, now, next, after, action),
    ensures
        next.phase == PumpPhase::CloseRelay,
{
}

/// The pump and its endpoint at one time.
pub struct Moment {
    pub pump: PumpModel,
    pub endpoint: Model,
}

/// What happens from one moment to the next.
pub enum Happening {
    /// The pump takes a step.
    Step { now: u64, action: PumpAction },
    /// The driver reports an event.
    Event(PumpEvent),
    /// Another task, or QUIC, works on the endpoint.
    Elsewhere,
}

/// The happening leads from the one moment to the other. What works on the
/// endpoint beside the pump leaves it as dead or alive as it was.
pub open spec fn happens(before: Moment, what: Happening, after: Moment) -> bool {
    match what {
        Happening::Step { now, action } => stepped(
            before.pump,
            before.endpoint,
            now,
            after.pump,
            after.endpoint,
            action,
        ),
        Happening::Event(event) => {
            &&& before.pump.expects(event)
            &&& after.pump == schedule_after(before.pump, before.endpoint, event)
            &&& after.endpoint == (if tearing_down(before.pump.phase) {
                before.endpoint
            } else {
                endpoint_after(before.endpoint, event)
            })
        },
        Happening::Elsewhere => after.pump == before.pump && after.endpoint.dead
            == before.endpoint.dead,
    }
}

/// A run of the pump: `whats[i]` leads from `moments[i]` to the next.
pub open spec fn is_run(moments: Seq<Moment>, whats: Seq<Happening>) -> bool {
    &&& moments.len() == whats.len() + 1
    &&& forall|i: int|
        0 <= i < whats.len() ==> happens(moments[i], #[trigger] whats[i], moments[i + 1])
}

/// What the endpoint dies of: a relay send that failed, or a relay receive
/// that failed in one of the pump's turns.
pub open spec fn death(before: Moment, what: Happening) -> Option<Seq<char>> {
    match what {
        Happening::Event(PumpEvent::RelaySent(false)) => Some(RELAY_SEND_FAILED@),
        Happening::Event(PumpEvent::RelayReceived(Err(reason))) => if tearing_down(
            before.pump.phase,
        ) {
            None
        } else {
            Some(reason@)
        },
        _ => None,
    }
}

/// Over a run of the pump an endpoint that was alive dies exactly if a relay
/// send or a relay receive failed, and of that failure, which is the only
/// one. Nothing on the UDP socket or a channel is deadly.
pub proof fn only_the_relay_is_deadly(moments: Seq<Moment>, whats: Seq<Happening>)
    requires
        is_run(moments, whats),
        moments[0].endpoint.dead is None,
    ensures
        moments.last().endpoint.dead is Some <==> exists|i: int|
            0 <= i < whats.len() && death(moments[i], #[trigger] whats[i]) is Some,
        forall|i: int|
            0 <= i < whats.len() && death(moments[i], #[trigger] whats[i]) is Some
                ==> moments.last().endpoint.dead == death(moments[i], whats[i]),
{
    dies_at_most_once(moments, whats);
}

/// A run up to its last moment: how the endpoint stands, and that one that
/// died is being torn down.
proof fn dies_at_most_once(moments: Seq<Moment>, whats: Seq<Happening>)
    requires
        is_run(moments, whats),
        moments[0].endpoint.dead is None,
    ensures
        moments.last().endpoint.dead is Some <==> exists|i: int|
            0 <= i < whats.len() && death(moments[i], #[trigger] whats[i]) is Some,
        forall|i: int|
            0 <= i < whats.len() && death(moments[i], #[trigger] whats[i]) is Some
                ==> moments.last().endpoint.dead == death(moments[i], whats[i]),
        moments.last().endpoint.dead is Some ==> tearing_down(moments.last().pump.phase),
    decreases whats.len(),
{
    if whats.len() > 0 {
        let n = whats.len() - 1;
        let ms = moments.drop_last();
        let ws = whats.drop_last();
        assert forall|i: int| 0 <= i < ws.len() implies happens(
            ms[i],
            #[trigger] ws[i],
            ms[i + 1],
        ) by {
            assert(happens(moments[i], whats[i], moments[i + 1]));
        }
        dies_at_most_once(ms, ws);
        assert(happens(moments[n], whats[n], moments[n + 1]));
        assert(ms.last() == moments[n]);
        assert(moments.last() == moments[n + 1]);
        assert forall|i: int| 0 <= i < n implies death(moments[i], #[trigger] whats[i]) == death(
            ms[i],
            ws[i],
        ) by {}
        if exists|i: int| 0 <= i < n && death(moments[i], #[trigger] whats[i]) is Some {
            let i = choose|i: int| 0 <= i < n && death(moments[i], #[trigger] whats[i]) is Some;
            assert(death(ms[i], ws[i]) is Some);
        }
        if exists|i: int| 0 <= i < ws.len() && death(ms[i], #[trigger] ws[i]) is Some {
            let i = choose|i: int| 0 <= i < ws.len() && death(ms[i], #[trigger] ws[i]) is Some;
            assert(death(moments[i], whats[i]) is Some);
        }
        if death(moments[n], whats[n]) is Some {
            assert(!tearing_down(moments[n].pump.phase));
        }
    }
}

/// Every connection's entry is over exactly if every connection is.
proof fn all_over_by_position(st: State)
    requires
        st.wf(),
    ensures
        all_over(st@) <==> forall|i: int|
            0 <= i < st.conns@.len() ==> #[trigger] st.conns@[i]@.over(),
{
    let list = entry_list(st.conns@);
    if forall|i: int| 0 <= i < st.conns@.len() ==> #[trigger] st.conns@[i]@.over() {
        assert forall|h: usize| #[trigger] st@.conns.dom().contains(h) implies st@.conns[h].over() by {
            assert(has_key(list, h));
            let p = position(list, h);
            assert(list[p].0 == h);
            assoc_at(list, p);
            assert(st.conns@[p]@.over());
        }
    }
    if all_over(st@) {
        assert forall|i: int| 0 <= i < st.conns@.len() implies #[trigger] st.conns@[i]@.over() by {
            assoc_at(list, i);
            assert(st@.conns.dom().contains(list[i].0));
        }
    }
}

/// Whether every connection has drained or failed.
fn all_drained(st: &State) -> (over: bool)
    requires
        st.wf(),
    ensures
        over == all_over(st@),
{
    proof {
        all_over_by_position(*st);
    }
    let mut i: usize = 0;
    while i < st.conns.len()
        invariant
            i <= st.conns@.len(),
            all_over(st@) <==> forall|i: int|
                0 <= i < st.conns@.len() ==> #[trigger] st.conns@[i]@.over(),
            forall|j: int| 0 <= j < i ==> #[trigger] st.conns@[j]@.over(),
        decreases st.conns@.len() - i,
    {
        if !st.conns[i].drained && st.conns[i].error.is_none() {
            assert(!st.conns@[i as int]@.over());
            return false;
        }
        i = i + 1;
    }
    true
}

impl Pump {
    /// A pump about to take its first turn, with its receives in flight.
    pub fn new(has_udp: bool) -> (pump: Self)
        ensures
            pump@.valid(),
            pump@ == (PumpModel {
                phase: PumpPhase::Drain,
                has_udp,
                relay_pending: true,
                udp_pending: has_udp,
                tick_pending: true,
                channel_pending: Seq::empty(),
            }),
    {
        Pump {
            phase: PumpPhase::Drain,
            has_udp,
            relay_pending: true,
            udp_pending: has_udp,
            tick_pending: true,
            channel_pending: Vec::new(),
        }
    }

    /// Whether the endpoint leaves the pump nothing to do at `now`.
    fn check(st: &State, now: u64) -> (finished: bool)
        requires
            st.wf(),
        ensures
            finished == is_finished(st@, now),
    {
        if st.dead.is_some() {
            return true;
        }
        if !st.closed {
            return false;
        }
        let lingered: bool = match st.closed_at {
            Some(at) => now >= at && now - at >= LINGER_NS,
            None => true,
        };
        lingered || all_drained(st)
    }

    /// Take one step: say what the driver does next.
    pub fn step(&mut self, st: &mut State, now: u64) -> (action: PumpAction)
        requires
            old(self)@.valid(),
            old(st).wf(),
        ensures
            final(self)@.valid(),
            final(st).wf(),
            stepped(old(self)@, old(st)@, now, final(self)@, final(st)@, action),
    {
        match self.phase {
            PumpPhase::Drain => {
                self.phase = PumpPhase::FlushRelay;
                PumpAction::Drain
            },
            PumpPhase::FlushRelay => {
                match st.pop_relay() {
                    Some((peer, datagram)) => PumpAction::SendRelay { peer, datagram },
                    None => {
                        self.phase = PumpPhase::FlushUdp;
                        PumpAction::Continue
                    },
                }
            },
            PumpPhase::FlushUdp => {
                match st.pop_udp() {
                    Some((remote, datagram)) => if self.has_udp {
                        PumpAction::SendUdp { remote, datagram }
                    } else {
                        PumpAction::Continue
                    },
                    None => {
                        self.phase = PumpPhase::FlushChannels;
                        PumpAction::Continue
                    },
                }
            },
            PumpPhase::FlushChannels => {
                match st.pop_channel() {
                    Some((addr, datagram)) => if st.has_channel(addr) {
                        PumpAction::SendChannel { addr, datagram }
                    } else {
                        PumpAction::Continue
                    },
                    None => {
                        self.phase = PumpPhase::Arm;
                        PumpAction::Continue
                    },
                }
            },
            PumpPhase::Arm => {
                match st.pop_new_channel() {
                    Some(addr) => {
                        self.channel_pending.push(addr);
                        PumpAction::ReceiveOn(addr)
                    },
                    None => {
                        self.phase = PumpPhase::Check;
                        PumpAction::Continue
                    },
                }
            },
            PumpPhase::Check => {
                self.phase = if Self::check(st, now) {
                    PumpPhase::CloseRelay
                } else {
                    PumpPhase::Select
                };
                PumpAction::Continue
            },
            PumpPhase::Select => PumpAction::Select,
            PumpPhase::CloseRelay => {
                self.phase = PumpPhase::WakeUdp;
                PumpAction::CloseRelay
            },
            PumpPhase::WakeUdp => {
                self.phase = PumpPhase::CloseChannels;
                if self.has_udp {
                    PumpAction::WakeUdp
                } else {
                    PumpAction::Continue
                }
            },
            PumpPhase::CloseChannels => {
                self.phase = PumpPhase::AwaitRelay;
                PumpAction::CloseChannels
            },
            PumpPhase::AwaitRelay => {
                if self.relay_pending {
                    PumpAction::Select
                } else {
                    self.phase = PumpPhase::AwaitUdp;
                    PumpAction::Continue
                }
            },
            PumpPhase::AwaitUdp => {
                if self.udp_pending {
                    PumpAction::Select
                } else {
                    self.phase = PumpPhase::AwaitChannels;
                    PumpAction::Continue
                }
            },
            PumpPhase::AwaitChannels => {
                if self.channel_pending.len() > 0 {
                    PumpAction::Select
                } else {
                    self.phase = PumpPhase::AwaitTick;
                    PumpAction::Continue
                }
            },
            PumpPhase::AwaitTick => PumpAction::Select,
            PumpPhase::Done => PumpAction::Stop,
        }
    }

    /// Strike one receive on `addr` off the list.
    fn resolve_channel(&mut self, addr: SocketAddr)
        ensures
            final(self)@ == (PumpModel {
                channel_pending: without(old(self)@.channel_pending, addr),
                ..old(self)@
            }),
    {
        let mut i: usize = 0;
        while i < self.channel_pending.len()
            invariant
                i <= self.channel_pending@.len(),
                *self == *old(self),
                forall|j: int| 0 <= j < i ==> self.channel_pending@[j] != addr,
            decreases self.channel_pending@.len() - i,
        {
            if self.channel_pending[i] == addr {
                self.channel_pending.remove(i);
                proof {
                    without_first(old(self).channel_pending@, addr, i as int);
                }
                return ;
            }
            i = i + 1;
        }
        proof {
            without_absent(self.channel_pending@, addr);
        }
    }

    /// Take note of an event in one of the pump's turns.
    fn turn(&mut self, st: &mut State, event: PumpEvent) -> (effect: Effect)
        requires
            old(self)@.valid(),
            old(st).wf(),
            old(self)@.expects(event),
            !tearing_down(old(self)@.phase),
            has_room(old(st)@, event),
        ensures
            final(self)@.valid(),
            final(st).wf(),
            final(self)@ == schedule_after(old(self)@, old(st)@, event),
            final(st)@ == endpoint_after(old(st)@, event),
            effect_fits(old(st)@, event, effect),
    {
        match event {
            PumpEvent::RelaySent(ok) => {
                if !ok {
                    st.mark_dead(RELAY_SEND_FAILED);
                    self.phase = PumpPhase::CloseRelay;
                }
                Effect { rearm: false, task: Task::Nothing }
            },
            PumpEvent::RelayReceived(received) => {
                match received {
                    Ok((source, payload)) => {
                        self.phase = PumpPhase::Drain;
                        if payload.len() > 0 && payload[0] == SIGNAL_PREFIX {
                            let signal: Vec<u8> = copy_range(payload.as_slice(), 1, payload.len());
                            assert(signal@ =~= payload@.drop_first());
                            let spawn: bool = st.handle_signal(source, signal.as_slice());
                            let task: Task = if spawn {
                                Task::SpawnAnswerer(source)
                            } else {
                                Task::Nothing
                            };
                            Effect { rearm: true, task }
                        } else {
                            let inbound: Inbound = st.handle_relay_datagram(source, payload);
                            Effect { rearm: true, task: Task::Deliver(inbound) }
                        }
                    },
                    Err(reason) => {
                        st.mark_dead(reason.as_str());
                        self.relay_pending = false;
                        self.phase = PumpPhase::CloseRelay;
                        Effect { rearm: false, task: Task::Nothing }
                    },
                }
            },
            PumpEvent::UdpReceived(received) => {
                self.phase = PumpPhase::Drain;
                match received {
                    Some((payload, remote)) => {
                        let inbound: Inbound = st.handle_udp_datagram(remote, payload);
                        Effect { rearm: true, task: Task::Deliver(inbound) }
                    },
                    None => {
                        self.udp_pending = false;
                        Effect { rearm: false, task: Task::Nothing }
                    },
                }
            },
            PumpEvent::ChannelReceived { addr, received } => {
                self.resolve_channel(addr);
                self.phase = PumpPhase::Drain;
                match received {
                    Ok(payload) => {
                        let open: bool = st.has_channel(addr);
                        if open {
                            self.channel_pending.push(addr);
                        }
                        let task: Task = match payload {
                            Some(datagram) => match st.handle_channel_datagram(addr, datagram) {
                                Some(inbound) => Task::Deliver(inbound),
                                None => Task::Nothing,
                            },
                            None => Task::Nothing,
                        };
                        Effect { rearm: open, task }
                    },
                    Err(_) => {
                        st.remove_channel(addr);
                        Effect { rearm: false, task: Task::Nothing }
                    },
                }
            },
            PumpEvent::Tick => {
                self.phase = PumpPhase::Drain;
                Effect { rearm: true, task: Task::HandleTimeouts }
            },
        }
    }

    /// Take note of an event during the teardown: what arrives is discarded,
    /// and only the relay receive and the tick are started again, while the
    /// relay has not reported its end.
    fn wind_down(&mut self, event: PumpEvent) -> (effect: Effect)
        requires
            old(self)@.valid(),
            old(self)@.expects(event),
            tearing_down(old(self)@.phase),
        ensures
            final(self)@.valid(),
            forall|m: Model| final(self)@ == #[trigger] schedule_after(old(self)@, m, event),
            effect.task is Nothing,
            effect.rearm == (event matches PumpEvent::RelayReceived(Ok(_)) || (event is Tick && old(
                self,
            )@.phase == PumpPhase::AwaitRelay)),
    {
        let mut rearm: bool = false;
        match event {
            PumpEvent::RelaySent(_) => {},
            PumpEvent::RelayReceived(received) => {
                rearm = received.is_ok();
                self.relay_pending = rearm;
            },
            PumpEvent::UdpReceived(_) => {
                self.udp_pending = false;
            },
            PumpEvent::ChannelReceived { addr, .. } => {
                self.resolve_channel(addr);
            },
            PumpEvent::Tick => {
                if self.phase == PumpPhase::AwaitTick {
                    self.tick_pending = false;
                    self.phase = PumpPhase::Done;
                } else {
                    rearm = true;
                }
            },
        }
        Effect { rearm, task: Task::Nothing }
    }

    /// Take note of what happened, and say what it asks of the driver.
    pub fn on_event(&mut self, st: &mut State, event: PumpEvent) -> (effect: Effect)
        requires
            old(self)@.valid(),
            old(st).wf(),
            old(self)@.expects(event),
            has_room(old(st)@, event),
        ensures
            final(self)@.valid(),
            final(st).wf(),
            final(self)@ == schedule_after(old(self)@, old(st)@, event),
            if tearing_down(old(self)@.phase) {
                &&& final(st)@ == old(st)@
                &&& effect.task is Nothing
                &&& effect.rearm == (event matches PumpEvent::RelayReceived(Ok(_)) || (event is Tick
                    && old(self)@.phase == PumpPhase::AwaitRelay))
            } else {
                &&& final(st)@ == endpoint_after(old(st)@, event)
                &&& effect_fits(old(st)@, event, effect)
            },
    {
        let turning: bool = match self.phase {
            PumpPhase::Drain => true,
            PumpPhase::FlushRelay => true,
            PumpPhase::FlushUdp => true,
            PumpPhase::FlushChannels => true,
            PumpPhase::Arm => true,
            PumpPhase::Check => true,
            PumpPhase::Select => true,
            _ => false,
        };
        if turning {
            self.turn(st, event)
        } else {
            self.wind_down(event)
        }
    }
}

/// What `without` does where `x` occurs first at `i`.
proof fn without_first<A>(s: Seq<A>, x: A, i: int)
    requires
        0 <= i < s.len(),
        s[i] == x,
        forall|j: int| 0 <= j < i ==> s[j] != x,
    ensures
        without(s, x) == s.remove(i),
    decreases s.len(),
{
    if i > 0 {
        let rest = s.drop_first();
        assert forall|j: int| 0 <= j < i - 1 implies rest[j] != x by {
            assert(rest[j] == s[j + 1]);
        }
        without_first(rest, x, i - 1);
        assert(seq![s[0]] + rest.remove(i - 1) =~= s.remove(i));
    } else {
        assert(s.drop_first() =~= s.remove(0));
    }
}

/// What `without` does where `x` does not occur.
proof fn without_absent<A>(s: Seq<A>, x: A)
    requires
        forall|j: int| 0 <= j < s.len() ==> s[j] != x,
    ensures
        without(s, x) == s,
    decreases s.len(),
{
    if s.len() > 0 {
        let rest = s.drop_first();
        assert forall|j: int| 0 <= j < rest.len() implies rest[j] != x by {
            assert(rest[j] == s[j + 1]);
        }
        without_absent(rest, x);
        assert(seq![s[0]] + rest =~= s);
    }
}

/// A signal is filed whole: where the relay delivers the prefix byte and then
/// a signal of any length, an endpoint that takes signals and whose inbox of
/// the sender has room finds exactly that signal at the inbox's end. What
/// waited there, and every other inbox, stays.
pub proof fn signals_are_filed_whole(m: Model, source: Id, payload: Vec<u8>, other: Id)
    requires
        payload@.len() > 0,
        payload@[0] == 0x00,
        m.webrtc_enabled,
        !m.closed,
        m.dead is None,
        m.signal_inboxes.dom().contains(source) ==> m.signal_inboxes[source].len() < 64,
    ensures
        ({
            let after = endpoint_after(m, PumpEvent::RelayReceived(Ok((source, payload))));
            let n = if m.signal_inboxes.dom().contains(source) {
                m.signal_inboxes[source].len() as int
            } else {
                0
            };
            &&& after.signal_inboxes.dom().contains(source)
            &&& after.signal_inboxes[source].len() == n + 1
            &&& forall|k: int|
                0 <= k < n ==> after.signal_inboxes[source][k] == m.signal_inboxes[source][k]
            &&& after.signal_inboxes[source][n].len() == payload@.len() - 1
            &&& forall|i: int|
                0 <= i < payload@.len() - 1 ==> after.signal_inboxes[source][n][i] == payload@[i
                    + 1]
            &&& other != source ==> (after.signal_inboxes.dom().contains(other)
                <==> m.signal_inboxes.dom().contains(other)) && after.signal_inboxes[other]
                == m.signal_inboxes[other]
            &&& forall|p: Id|
                after.signaling.contains(p) <==> m.signaling.contains(p) || p == source
            &&& after == Model {
                signal_inboxes: after.signal_inboxes,
                signaling: after.signaling,
                ..m
            }
        }),
{
}

/// A signal is dropped where the inbox is full, and an endpoint that does not
/// use WebRTC or is over drops every signal.
pub proof fn unwanted_signals_are_dropped(m: Model, source: Id, payload: Vec<u8>)
    requires
        payload@.len() > 0,
        payload@[0] == 0x00,
    ensures
        ({
            let after = endpoint_after(m, PumpEvent::RelayReceived(Ok((source, payload))));
            &&& !m.webrtc_enabled || m.closed || m.dead is Some ==> after == m
            &&& m.signal_inboxes.dom().contains(source) && m.signal_inboxes[source].len() >= 64
                ==> after.signal_inboxes =~= m.signal_inboxes
        }),
{
}

/// A signal spawns an answerer exactly for a peer without a session, and is
/// never handed to QUIC.
pub proof fn signals_spawn_one_answerer(m: Model, source: Id, payload: Vec<u8>, effect: Effect)
    requires
        payload@.len() > 0,
        payload@[0] == 0x00,
        effect_fits(m, PumpEvent::RelayReceived(Ok((source, payload))), effect),
    ensures
        effect.rearm,
        m.webrtc_enabled && !m.closed && m.dead is None && !m.signaling.contains(source)
            ==> effect.task == Task::SpawnAnswerer(source),
        !m.webrtc_enabled || m.closed || m.dead is Some || m.signaling.contains(source)
            ==> effect.task is Nothing,
{
}

/// Datagrams reach QUIC whole, and as coming from where they came from: from
/// the relay under the sender's standin, from the socket under the sender's
/// address, from a channel under the channel's.
pub proof fn datagrams_reach_quic_whole(
    m: Model,
    source: Id,
    remote: SocketAddr,
    payload: Vec<u8>,
    relayed: Effect,
    direct: Effect,
    channeled: Effect,
)
    requires
        payload@.len() == 0 || payload@[0] != 0x00,
        effect_fits(m, PumpEvent::RelayReceived(Ok((source, payload))), relayed),
        effect_fits(m, PumpEvent::UdpReceived(Some((payload, remote))), direct),
        effect_fits(
            m,
            PumpEvent::ChannelReceived { addr: remote, received: Ok(Some(payload)) },
            channeled,
        ),
    ensures
        relayed.rearm && direct.rearm,
        relayed.task matches Task::Deliver(inbound) && inbound.payload@ == payload@
            && inbound.source == Some(source) && inbound.addr == m.with_peer(source).addr_of(source),
        direct.task matches Task::Deliver(inbound) && inbound.payload@ == payload@
            && inbound.source is None && inbound.addr == remote,
        m.channels.dom().contains(remote) ==> channeled.rearm && (
        channeled.task matches Task::Deliver(inbound) && inbound.payload@ == payload@
            && inbound.source == Some(m.channels[remote]) && inbound.addr == remote),
        !m.channels.dom().contains(remote) ==> !channeled.rearm && channeled.task is Nothing,
{
}

/// A relayed datagram that is no signal changes nothing but that its sender
/// is met; one from the socket or a channel changes nothing; a channel that
/// ends is retired, and no other with it.
pub proof fn datagrams_leave_the_endpoint_alone(
    m: Model,
    source: Id,
    remote: SocketAddr,
    payload: Vec<u8>,
    reason: String,
    other: SocketAddr,
)
    requires
        payload@.len() == 0 || payload@[0] != 0x00,
    ensures
        endpoint_after(m, PumpEvent::RelayReceived(Ok((source, payload)))) == m.with_peer(source),
        endpoint_after(m, PumpEvent::UdpReceived(Some((payload, remote)))) == m,
        endpoint_after(m, PumpEvent::UdpReceived(None)) == m,
        endpoint_after(
            m,
            PumpEvent::ChannelReceived { addr: remote, received: Ok(Some(payload)) },
        ) == m,
        endpoint_after(m, PumpEvent::Tick) == m,
        endpoint_after(m, PumpEvent::RelaySent(true)) == m,
        ({
            let after = endpoint_after(
                m,
                PumpEvent::ChannelReceived { addr: remote, received: Err(reason) },
            );
            &&& !after.channels.dom().contains(remote)
            &&& other != remote ==> (after.channels.dom().contains(other)
                <==> m.channels.dom().contains(other)) && after.channels[other] == m.channels[other]
            &&& after == Model { channels: after.channels, ..m }
        }),
{
}

/// A relay that dies fails every connection that had no error as closed, and
/// leaves the others their errors and everything else as it was.
pub proof fn a_dead_relay_fails_the_connections(m: Model, reason: String, handle: usize)
    requires
        m.conns.dom().contains(handle),
    ensures
        ({
            let after = endpoint_after(m, PumpEvent::RelayReceived(Err(reason)));
            let unsent = endpoint_after(m, PumpEvent::RelaySent(false));
            &&& after.dead == Some(reason@)
            &&& unsent.dead == Some("relay send failed"@)
            &&& after.conns.dom() =~= m.conns.dom()
            &&& after.conns[handle] == (EntryModel {
                error: if m.conns[handle].error is Some {
                    m.conns[handle].error
                } else {
                    Some(ErrorModel::Closed)
                },
                ..m.conns[handle]
            })
            &&& after == Model { dead: after.dead, conns: after.conns, ..m }
            &&& unsent == Model { dead: unsent.dead, conns: after.conns, ..m }
        }),
{
}

/// What waits for a wire is sent in order, one datagram a step, and whole:
/// the step sends the first and leaves the others as they were.
pub proof fn wires_are_flushed_in_order(
    pump: PumpModel,
    m: Model,
    now: u64,
    next: PumpModel,
    after: Model,
    action: PumpAction,
)
    requires
        stepped(pump, m, now, next, after, action),
    ensures
        pump.phase == PumpPhase::FlushRelay && m.relay_outbound.len() > 0 ==> {
            &&& action matches PumpAction::SendRelay { peer, datagram } && peer
                == m.relay_outbound[0].0 && datagram@ == m.relay_outbound[0].1
            &&& after.relay_outbound.len() == m.relay_outbound.len() - 1
            &&& forall|i: int|
                0 <= i < after.relay_outbound.len() ==> after.relay_outbound[i]
                    == m.relay_outbound[i + 1]
            &&& after == Model { relay_outbound: after.relay_outbound, ..m }
            &&& next == pump
        },
        pump.phase == PumpPhase::FlushUdp && m.udp_outbound.len() > 0 ==> {
            &&& pump.has_udp ==> (action matches PumpAction::SendUdp { remote, datagram } && remote
                == m.udp_outbound[0].0 && datagram@ == m.udp_outbound[0].1)
            &&& !pump.has_udp ==> action is Continue
            &&& after.udp_outbound.len() == m.udp_outbound.len() - 1
            &&& forall|i: int|
                0 <= i < after.udp_outbound.len() ==> after.udp_outbound[i] == m.udp_outbound[i + 1]
            &&& after == Model { udp_outbound: after.udp_outbound, ..m }
            &&& next == pump
        },
        pump.phase == PumpPhase::FlushChannels && m.channel_outbound.len() > 0 ==> {
            let (to, contents) = m.channel_outbound[0];
            &&& m.channels.dom().contains(to) ==> (action matches PumpAction::SendChannel {
                addr,
                datagram,
            } && addr == to && datagram@ == contents)
            &&& !m.channels.dom().contains(to) ==> action is Continue
            &&& after.channel_outbound.len() == m.channel_outbound.len() - 1
            &&& forall|i: int|
                0 <= i < after.channel_outbound.len() ==> after.channel_outbound[i]
                    == m.channel_outbound[i + 1]
            &&& after == Model { channel_outbound: after.channel_outbound, ..m }
            &&& next == pump
        },
        pump.phase == PumpPhase::Arm && m.new_channels.len() > 0 ==> {
            &&& action == PumpAction::ReceiveOn(m.new_channels[0])
            &&& after.new_channels.len() == m.new_channels.len() - 1
            &&& next.channel_pending.len() == pump.channel_pending.len() + 1
            &&& next.channel_pending.last() == m.new_channels[0]
            &&& after == Model { new_channels: after.new_channels, ..m }
        },
{
}

/// A turn drains QUIC, flushes the relay, the socket and the channels, arms
/// new channels, and checks for the end, in this order, each to exhaustion,
/// before the pump waits.
pub proof fn turns_take_their_stages_in_order(
    pump: PumpModel,
    m: Model,
    now: u64,
    next: PumpModel,
    after: Model,
    action: PumpAction,
)
    requires
        stepped(pump, m, now, next, after, action),
    ensures
        pump.phase == PumpPhase::Drain ==> action is Drain && next.phase == PumpPhase::FlushRelay
            && after == m,
        pump.phase == PumpPhase::FlushRelay && m.relay_outbound.len() == 0 ==> next
            == (PumpModel { phase: PumpPhase::FlushUdp, ..pump }) && after == m && action
            is Continue,
        pump.phase == PumpPhase::FlushUdp && m.udp_outbound.len() == 0 ==> next == (PumpModel {
            phase: PumpPhase::FlushChannels,
            ..pump
        }) && after == m && action is Continue,
        pump.phase == PumpPhase::FlushChannels && m.channel_outbound.len() == 0 ==> next
            == (PumpModel { phase: PumpPhase::Arm, ..pump }) && after == m && action is Continue,
        pump.phase == PumpPhase::Arm && m.new_channels.len() == 0 ==> next == (PumpModel {
            phase: PumpPhase::Check,
            ..pump
        }) && after == m && action is Continue,
        pump.phase == PumpPhase::FlushRelay && next.phase != pump.phase ==> next.phase
            == PumpPhase::FlushUdp && m.relay_outbound.len() == 0,
        pump.phase == PumpPhase::FlushUdp && next.phase != pump.phase ==> next.phase
            == PumpPhase::FlushChannels && m.udp_outbound.len() == 0,
        pump.phase == PumpPhase::FlushChannels && next.phase != pump.phase ==> next.phase
            == PumpPhase::Arm && m.channel_outbound.len() == 0,
        pump.phase == PumpPhase::Arm && next.phase != pump.phase ==> next.phase == PumpPhase::Check
            && m.new_channels.len() == 0,
        pump.phase == PumpPhase::Select ==> action is Select && next == pump && after == m,
{
}

/// The pump ends for a dead endpoint, and for a closed one whose connections
/// have all drained or failed, or that was closed at least half a second ago;
/// for no other.
pub proof fn pumps_end_with_their_endpoint(
    pump: PumpModel,
    m: Model,
    now: u64,
    next: PumpModel,
    after: Model,
    action: PumpAction,
)
    requires
        pump.phase == PumpPhase::Check,
        stepped(pump, m, now, next, after, action),
    ensures
        after == m,
        ({
            let ends = m.dead is Some || (m.closed && ((forall|h: usize| #[trigger]
                m.conns.dom().contains(h) ==> m.conns[h].drained || m.conns[h].error is Some)
                || m.closed_at is None || (m.closed_at matches Some(at) && now - at
                >= 500_000_000)));
            &&& ends ==> next.phase == PumpPhase::CloseRelay
            &&& !ends ==> next.phase == PumpPhase::Select
        }),
{
    if forall|h: usize| #[trigger]
        m.conns.dom().contains(h) ==> m.conns[h].drained || m.conns[h].error is Some {
        assert(all_over(m));
    }
}

/// The teardown closes the relay, wakes the socket, closes the channels, and
/// then waits for the relay, the socket, the channels and the tick, in this
/// order.
pub proof fn teardowns_take_their_stages_in_order(
    pump: PumpModel,
    m: Model,
    now: u64,
    next: PumpModel,
    after: Model,
    action: PumpAction,
)
    requires
        stepped(pump, m, now, next, after, action),
    ensures
        pump.phase == PumpPhase::CloseRelay ==> action is CloseRelay && next.phase
            == PumpPhase::WakeUdp,
        pump.phase == PumpPhase::WakeUdp ==> next.phase == PumpPhase::CloseChannels && (
        pump.has_udp <==> action is WakeUdp),
        pump.phase == PumpPhase::CloseChannels ==> action is CloseChannels && next.phase
            == PumpPhase::AwaitRelay,
        pump.phase == PumpPhase::AwaitRelay && pump.relay_pending ==> action is Select && next
            == pump,
        pump.phase == PumpPhase::AwaitUdp && pump.udp_pending ==> action is Select && next == pump,
        pump.phase == PumpPhase::AwaitChannels && pump.channel_pending.len() > 0 ==> action
            is Select && next == pump,
        pump.phase == PumpPhase::AwaitTick ==> action is Select && next == pump,
        pump.phase == PumpPhase::AwaitRelay && !pump.relay_pending ==> action is Continue && next
            == (PumpModel { phase: PumpPhase::AwaitUdp, ..pump }),
        pump.phase == PumpPhase::AwaitUdp && !pump.udp_pending ==> action is Continue && next
            == (PumpModel { phase: PumpPhase::AwaitChannels, ..pump }),
        pump.phase == PumpPhase::AwaitChannels && pump.channel_pending.len() == 0 ==> action
            is Continue && next == (PumpModel { phase: PumpPhase::AwaitTick, ..pump }),
        pump.phase == PumpPhase::Done <==> action is Stop,
        tearing_down(pump.phase) ==> after == m && next.relay_pending == pump.relay_pending
            && next.udp_pending == pump.udp_pending && next.tick_pending == pump.tick_pending
            && next.channel_pending == pump.channel_pending,
{
}

/// After an event the pump takes its next turn from the start; a relay that
/// fails ends its turns; a socket that fails is not read again.
pub proof fn events_start_the_next_turn(
    pump: PumpModel,
    m: Model,
    source: Id,
    remote: SocketAddr,
    payload: Vec<u8>,
    reason: String,
)
    requires
        pump.phase == PumpPhase::Select,
    ensures
        schedule_after(pump, m, PumpEvent::RelayReceived(Ok((source, payload)))) == (PumpModel {
            phase: PumpPhase::Drain,
            ..pump
        }),
        schedule_after(pump, m, PumpEvent::UdpReceived(Some((payload, remote)))) == (PumpModel {
            phase: PumpPhase::Drain,
            udp_pending: true,
            ..pump
        }),
        schedule_after(pump, m, PumpEvent::UdpReceived(None)) == (PumpModel {
            phase: PumpPhase::Drain,
            udp_pending: false,
            ..pump
        }),
        schedule_after(pump, m, PumpEvent::Tick) == (PumpModel {
            phase: PumpPhase::Drain,
            ..pump
        }),
        schedule_after(pump, m, PumpEvent::RelayReceived(Err(reason))) == (PumpModel {
            phase: PumpPhase::CloseRelay,
            relay_pending: false,
            ..pump
        }),
        schedule_after(
            pump,
            m,
            PumpEvent::ChannelReceived { addr: remote, received: Err(reason) },
        ).phase == PumpPhase::Drain,
{
}

/// A receive that a channel resolved is struck off once, and is in flight
/// again exactly while the channel is open and delivers.
pub proof fn channel_receives_are_counted(
    pump: PumpModel,
    m: Model,
    addr: SocketAddr,
    payload: Option<Vec<u8>>,
    reason: String,
)
    requires
        pump.phase == PumpPhase::Select,
        pump.channel_pending.contains(addr),
    ensures
        ({
            let event = PumpEvent::ChannelReceived { addr, received: Ok(payload) };
            let after = schedule_after(pump, m, event).channel_pending;
            m.channels.dom().contains(addr) ==> after.len() == pump.channel_pending.len()
                && after.last() == addr
        }),
        ({
            let event = PumpEvent::ChannelReceived { addr, received: Ok(payload) };
            let after = schedule_after(pump, m, event).channel_pending;
            !m.channels.dom().contains(addr) ==> after.len() == pump.channel_pending.len() - 1
        }),
        schedule_after(
            pump,
            m,
            PumpEvent::ChannelReceived { addr, received: Err(reason) },
        ).channel_pending.len() == pump.channel_pending.len() - 1,
{
    without_takes_one(pump.channel_pending, addr);
}

/// Striking off an item that is there leaves one less.
proof fn without_takes_one<A>(s: Seq<A>, x: A)
    requires
        s.contains(x),
    ensures
        without(s, x).len() == s.len() - 1,
    decreases s.len(),
{
    if s[0] != x {
        let i = choose|i: int| 0 <= i < s.len() && s[i] == x;
        assert(s.drop_first()[i - 1] == x);
        without_takes_one(s.drop_first(), x);
    }
}

/// While a pump tears down, an event does nothing but strike off what it
/// resolved: the relay's receive once it fails, the socket's, a channel's, and
/// the tick once it is awaited.
pub proof fn teardowns_strike_off_what_resolves(
    pump: PumpModel,
    m: Model,
    received: Result<(Id, Vec<u8>), String>,
    datagram: Option<(Vec<u8>, SocketAddr)>,
)
    requires
        pump.phase == PumpPhase::AwaitRelay || pump.phase == PumpPhase::AwaitUdp || pump.phase
            == PumpPhase::AwaitChannels || pump.phase == PumpPhase::AwaitTick,
    ensures
        schedule_after(pump, m, PumpEvent::RelayReceived(received)) == (PumpModel {
            relay_pending: received is Ok,
            ..pump
        }),
        schedule_after(pump, m, PumpEvent::UdpReceived(datagram)) == (PumpModel {
            udp_pending: false,
            ..pump
        }),
        schedule_after(pump, m, PumpEvent::Tick) == (if pump.phase == PumpPhase::AwaitTick {
            PumpModel { phase: PumpPhase::Done, tick_pending: false, ..pump }
        } else {
            pump
        }),
{
}

/// A channel's receive is struck off at its first place, and everything else
/// in flight stays, in order.
pub proof fn channel_receives_are_struck_off_in_place(
    pump: PumpModel,
    m: Model,
    addr: SocketAddr,
    reason: String,
    i: int,
)
    requires
        0 <= i < pump.channel_pending.len(),
        pump.channel_pending[i] == addr,
        forall|j: int| 0 <= j < i ==> #[trigger] pump.channel_pending[j] != addr,
    ensures
        ({
            let after = schedule_after(
                pump,
                m,
                PumpEvent::ChannelReceived { addr, received: Err(reason) },
            );
            &&& after.channel_pending =~= pump.channel_pending.take(i) + pump.channel_pending.skip(
                i + 1,
            )
            &&& after.relay_pending == pump.relay_pending
            &&& after.udp_pending == pump.udp_pending
            &&& after.tick_pending == pump.tick_pending
            &&& after.has_udp == pump.has_udp
        }),
{
    without_first(pump.channel_pending, addr, i);
}

/// A datagram that the relay did not take ends the pump's turns; one that it
/// took changes nothing.
pub proof fn unsent_datagrams_end_the_turns(pump: PumpModel, m: Model)
    ensures
        schedule_after(pump, m, PumpEvent::RelaySent(true)) == pump,
        schedule_after(pump, m, PumpEvent::RelaySent(false)) == (PumpModel {
            phase: PumpPhase::CloseRelay,
            ..pump
        }),
{
}

/// A tick runs the timers that are due, and ticks on; what has failed, and a
/// channel's text, brings no work.
pub proof fn ticks_run_the_timers(
    m: Model,
    sent: bool,
    reason: String,
    addr: SocketAddr,
    ticked: Effect,
    flushed: Effect,
    lost: Effect,
    deaf: Effect,
    ended: Effect,
    text: Effect,
)
    requires
        effect_fits(m, PumpEvent::Tick, ticked),
        effect_fits(m, PumpEvent::RelaySent(sent), flushed),
        effect_fits(m, PumpEvent::RelayReceived(Err(reason)), lost),
        effect_fits(m, PumpEvent::UdpReceived(None), deaf),
        effect_fits(m, PumpEvent::ChannelReceived { addr, received: Err(reason) }, ended),
        effect_fits(m, PumpEvent::ChannelReceived { addr, received: Ok(None) }, text),
    ensures
        ticked.rearm && ticked.task is HandleTimeouts,
        !flushed.rearm && flushed.task is Nothing,
        !lost.rearm && lost.task is Nothing,
        !deaf.rearm && deaf.task is Nothing,
        !ended.rearm && ended.task is Nothing,
        text.task is Nothing && (text.rearm <==> m.channels.dom().contains(addr)),
{
}

/// The pump's schedule is seen whole.
pub proof fn schedules_are_seen_whole(pump: Pump)
    ensures
        pump@.phase == pump.phase,
        pump@.has_udp == pump.has_udp,
        pump@.relay_pending == pump.relay_pending,
        pump@.udp_pending == pump.udp_pending,
        pump@.tick_pending == pump.tick_pending,
        pump@.channel_pending == pump.channel_pending@,
{
}

/// The pump's times: a tick of ten milliseconds, and half a second to linger.
pub proof fn times_of_the_pump()
    ensures
        TICK_NS == 10_000_000,
        POLL_NS == 5_000_000,
        LINGER_NS == 500_000_000,
{
}

/// Nothing is in flight exactly if neither the relay's receive, the socket's,
/// a channel's, nor the tick is.
pub proof fn resolved_pumps_have_nothing_in_flight(pump: PumpModel)
    ensures
        pump.resolved() <==> !(pump.relay_pending || pump.udp_pending || pump.tick_pending
            || pump.channel_pending.len() > 0),
{
}

} // verus!
