//! One echo over one QUIC connection on one wire: a client sends a message
//! and expects it back, a server reads one message and answers it in upper
//! case.

use crate::addr::same_id;
use crate::addr::Id;
use crate::addr::SocketAddr;
use crate::bytes::append_chunks;
use crate::bytes::contents;
use crate::bytes::copy_bytes;
use crate::bytes::flattened;
use crate::text::concat;
use crate::text::lossy_string;
use crate::text::lossy_text;
use crate::text::uppercase_string;
use crate::text::uppercase_text;
use crate::tls::ed25519_spki;
use crate::tls::endpoint_id_from_spki;
use crate::tls::spki_names_one_identity;
use vstd::prelude::*;
use vstd::utf8::encode_utf8;

verus! {

/// Timer tick in nanoseconds servicing QUIC's deadlines.
pub const TICK_NS: u64 = 50_000_000;

/// The window in nanoseconds that final packets get to reach the wire.
pub const LINGER_NS: u64 = 500_000_000;

/// Hard cap in nanoseconds on one run, so that a wedged run fails rather than
/// hangs.
pub const RUN_DEADLINE_NS: u64 = 30_000_000_000;

/// The application close code and reason of a client that has its echo.
pub const DONE_CODE: u32 = 0;

pub const DONE_REASON: &'static str = "done";

pub const NO_PEER_YET: &'static str = "relay wire has no peer yet";

pub const NEEDS_PEER: &'static str = "client role requires the peer's endpoint id";

pub const DEADLINE_EXCEEDED: &'static str = "run deadline exceeded";

pub const NO_IDENTITY: &'static str = "peer presented no identity";

pub const IDENTITY_TYPE: &'static str = "unexpected peer identity type";

pub const NO_CERTIFICATE: &'static str = "empty peer certificate list";

pub const NOT_ED25519: &'static str = "peer key is not Ed25519";

pub const NO_CREDIT: &'static str = "no bidirectional stream credit";

pub const MESSAGE_TOO_LONG: &'static str = "demo message did not fit the stream window";

pub const ECHO_TOO_LONG: &'static str = "echo did not fit the stream window";

pub const NO_PEER_IDENTITY: &'static str = "finished without a peer identity";

pub const NO_HANDSHAKE: &'static str = "finished without a handshake";

pub const NO_PAYLOAD: &'static str = "finished without a payload";

/// The client's synthetic address, 10.0.0.1:1111: the wire carries no
/// addresses, but QUIC wants distinct, stable ones per side.
pub fn client_addr() -> (addr: SocketAddr)
    ensures
        addr == (SocketAddr::V4 { ip: 0x0a00_0001, port: 1111 }),
{
    SocketAddr::V4 { ip: 0x0a00_0001, port: 1111 }
}

/// The server's synthetic address, 10.0.0.2:4433.
pub fn server_addr() -> (addr: SocketAddr)
    ensures
        addr == (SocketAddr::V4 { ip: 0x0a00_0002, port: 4433 }),
{
    SocketAddr::V4 { ip: 0x0a00_0002, port: 4433 }
}

// The wire.

/// The datagram wire QUIC runs over: one datagram per binary message on
/// either carrier.
#[derive(Clone, Copy)]
pub enum Wire {
    /// An unreliable, unordered data channel.
    Channel,
    /// The relay connection: datagrams addressed by endpoint ID. A client
    /// sets the peer up front; a server learns it from the first datagram's
    /// relay-authenticated source, and the wire is bound to that peer from
    /// then on.
    Relay { peer: Option<Id> },
}

/// What arrived on a wire.
pub enum WireMessage {
    Binary(Vec<u8>),
    Text,
    Relayed { source: Id, payload: Vec<u8> },
}

/// The message can arrive on the wire.
pub open spec fn carried_by(wire: Wire, message: WireMessage) -> bool {
    match wire {
        Wire::Channel => !(message is Relayed),
        Wire::Relay { .. } => message is Relayed,
    }
}

impl Wire {
    /// The next inbound datagram, or nothing for a message that is not one:
    /// text, or a relayed datagram from some other peer.
    pub fn receive(&mut self, message: WireMessage) -> (datagram: Option<Vec<u8>>)
        requires
            carried_by(*old(self), message),
        ensures
            match message {
                WireMessage::Binary(payload) => {
                    &&& *final(self) == *old(self)
                    &&& datagram matches Some(bytes)
                    &&& bytes@ == payload@
                },
                WireMessage::Text => *final(self) == *old(self) && datagram is None,
                WireMessage::Relayed { source, payload } => {
                    &&& *final(self) == (Wire::Relay {
                        peer: match old(self)->peer {
                            Some(bound) => Some(bound),
                            None => Some(source),
                        },
                    })
                    &&& if final(self)->peer == Some(source) {
                        datagram matches Some(bytes) && bytes@ == payload@
                    } else {
                        datagram is None
                    }
                },
            },
    {
        match message {
            WireMessage::Binary(payload) => Some(payload),
            WireMessage::Text => None,
            WireMessage::Relayed { source, payload } => {
                match *self {
                    Wire::Channel => None,
                    Wire::Relay { peer: Some(expected) } => {
                        if same_id(&expected, &source) {
                            Some(payload)
                        } else {
                            None
                        }
                    },
                    Wire::Relay { peer: None } => {
                        *self = Wire::Relay { peer: Some(source) };
                        Some(payload)
                    },
                }
            },
        }
    }

    /// Whom a datagram is sent to: nobody in particular on a channel, the
    /// bound peer on the relay.
    pub fn send(&self) -> (to: Result<Option<Id>, String>)
        ensures
            match (*self, to) {
                (Wire::Channel, Ok(to)) => to is None,
                (Wire::Relay { peer: Some(peer) }, Ok(to)) => to == Some(peer),
                (Wire::Relay { peer: None }, Err(text)) => text@ == NO_PEER_YET@,
                _ => false,
            },
    {
        match self {
            Wire::Channel => Ok(None),
            Wire::Relay { peer } => match peer {
                Some(peer) => Ok(Some(*peer)),
                None => Err(NO_PEER_YET.to_owned()),
            },
        }
    }

    /// The peer this wire ended up bound to.
    pub fn peer(&self) -> (peer: Option<Id>)
        ensures
            peer == (match *self {
                Wire::Channel => None,
                Wire::Relay { peer } => peer,
            }),
    {
        match self {
            Wire::Channel => None,
            Wire::Relay { peer } => *peer,
        }
    }
}

// The application.

/// What one side observed.
pub struct Outcome {
    pub peer_id: Id,
    pub handshake_ms: u64,
    pub roundtrip_ms: u64,
    pub received: String,
}

/// Which half of the exchange this endpoint drives.
pub enum Role {
    /// Connect, send `message`, expect it echoed back.
    Client { message: String },
    /// Accept, read one message, echo it back in upper case.
    Server,
}

/// What the QUIC session presents as the peer's identity.
pub enum PeerIdentity {
    Missing,
    UnexpectedType,
    /// The certificate chain: for a raw public key, one
    /// `SubjectPublicKeyInfo`.
    Certificates(Vec<Vec<u8>>),
}

/// Why `identity` names no endpoint, if it does not.
pub open spec fn identity_refusal(identity: PeerIdentity) -> Option<Seq<char>> {
    match identity {
        PeerIdentity::Missing => Some(NO_IDENTITY@),
        PeerIdentity::UnexpectedType => Some(IDENTITY_TYPE@),
        PeerIdentity::Certificates(chain) => if chain@.len() == 0 {
            Some(NO_CERTIFICATE@)
        } else if exists|id: Id| chain@[0]@ == #[trigger] ed25519_spki(id@) {
            None
        } else {
            Some(NOT_ED25519@)
        },
    }
}

/// The authenticated peer identity: the Ed25519 key inside the first
/// certificate.
pub fn peer_endpoint_id(identity: &PeerIdentity) -> (id: Result<Id, String>)
    ensures
        match id {
            Ok(id) => identity_refusal(*identity) is None && (*identity)->0@[0]@ == ed25519_spki(
                id@,
            ),
            Err(text) => identity_refusal(*identity) == Some(text@),
        },
{
    match identity {
        PeerIdentity::Missing => Err(NO_IDENTITY.to_owned()),
        PeerIdentity::UnexpectedType => Err(IDENTITY_TYPE.to_owned()),
        PeerIdentity::Certificates(chain) => {
            if chain.len() == 0 {
                return Err(NO_CERTIFICATE.to_owned());
            }
            match endpoint_id_from_spki(chain[0].as_slice()) {
                Some(id) => {
                    assert(chain@[0]@ == ed25519_spki(id@));
                    Ok(id)
                },
                None => Err(NOT_ED25519.to_owned()),
            }
        },
    }
}

/// The milliseconds from `start` to `now`; none if the clock has not moved.
pub open spec fn millis_between(start: u64, now: u64) -> u64 {
    if now >= start {
        ((now - start) / 1_000_000) as u64
    } else {
        0
    }
}

fn millis(start: u64, now: u64) -> (ms: u64)
    ensures
        ms == millis_between(start, now),
{
    if now >= start {
        (now - start) / 1_000_000
    } else {
        0
    }
}

/// At least `span` has passed from `start` to `now`.
pub open spec fn has_passed(start: u64, now: u64, span: u64) -> bool {
    now - start >= span
}

/// The exchange's state, advanced by connection events.
pub struct App {
    pub role: Role,
    pub handshake_ms: Option<u64>,
    pub peer_id: Option<Id>,
    pub stream: Option<u64>,
    pub inbound: Vec<u8>,
    /// Client: when the message was sent. Server: unused.
    pub sent_at: Option<u64>,
    pub roundtrip_ms: u64,
    pub received: Option<String>,
    /// Set when this side has nothing left to do but flush and leave.
    pub done_at: Option<u64>,
    pub close_sent: bool,
}

/// The exchange's state as mathematical values.
#[verifier::ext_equal]
pub struct AppModel {
    /// The client's message; `None` on the server.
    pub message: Option<Seq<char>>,
    pub handshake_ms: Option<u64>,
    pub peer_id: Option<Id>,
    pub stream: Option<u64>,
    pub inbound: Seq<u8>,
    pub sent_at: Option<u64>,
    pub roundtrip_ms: u64,
    pub received: Option<Seq<char>>,
    pub done_at: Option<u64>,
    pub close_sent: bool,
}

/// The message of a role that has one.
pub open spec fn role_message(role: Role) -> Option<Seq<char>> {
    match role {
        Role::Client { message } => Some(message@),
        Role::Server => None,
    }
}

impl View for App {
    type V = AppModel;

    open spec fn view(&self) -> AppModel {
        AppModel {
            message: role_message(self.role),
            handshake_ms: self.handshake_ms,
            peer_id: self.peer_id,
            stream: self.stream,
            inbound: self.inbound@,
            sent_at: self.sent_at,
            roundtrip_ms: self.roundtrip_ms,
            received: match self.received {
                Some(text) => Some(text@),
                None => None,
            },
            done_at: self.done_at,
            close_sent: self.close_sent,
        }
    }
}

/// What the QUIC state machine reports of the connection.
pub enum AppEvent {
    HandshakeDataReady,
    Connected { identity: PeerIdentity },
    BidirectionalOpened,
    Readable { id: u64 },
    OtherStream,
    Datagrams,
    ConnectionLost { application_closed: bool, detail: String },
}

/// What an event asks the driver to do.
pub enum AppAction {
    Nothing,
    /// Send this: do what it requests and report the outcome, until it
    /// requests nothing.
    Send(Sending),
    /// Accept a bidirectional stream and report it.
    AcceptStream,
    /// Read the stream and report what came.
    Read(u64),
}

/// What is sent: the client's message, or the server's echo.
#[derive(Clone, Copy, Debug, PartialEq, Eq, Structural)]
pub enum SendKind {
    Message,
    Echo,
}

/// How far a sending is.
#[derive(Clone, Copy, Debug, PartialEq, Eq, Structural)]
pub enum SendStage {
    /// A stream is to be opened.
    Opening,
    /// The bytes are to be written to this stream, all at once.
    Writing(u64),
    /// This stream is to be finished.
    Finishing(u64),
    Sent,
    Failed,
}

/// Bytes on their way into a stream: it is opened unless it is there already,
/// then written, then finished.
#[derive(Debug)]
pub struct Sending {
    pub kind: SendKind,
    pub bytes: Vec<u8>,
    pub stage: SendStage,
}

/// What a sending requests of its driver.
#[derive(Clone, Copy, Debug, PartialEq, Eq, Structural)]
pub enum SendRequest {
    /// Open a bidirectional stream.
    Open,
    /// Write the bytes to this stream, once.
    Write(u64),
    /// Finish this stream.
    Finish(u64),
    Nothing,
}

/// What came of a request.
pub enum SendOutcome {
    /// The stream, where there was credit for one.
    Opened(Option<u64>),
    /// How many bytes the stream took, or why it took none.
    Wrote(Result<usize, String>),
    Finished(Result<(), String>),
}

/// The outcome answers what is requested at the stage.
pub open spec fn answers(stage: SendStage, outcome: SendOutcome) -> bool {
    match stage {
        SendStage::Opening => outcome is Opened,
        SendStage::Writing(_) => outcome is Wrote,
        SendStage::Finishing(_) => outcome is Finished,
        _ => false,
    }
}

/// The stage after an outcome, where `len` bytes are sent: an opened stream
/// is written, a stream that took every byte is finished, and anything else
/// fails.
pub open spec fn stage_after(stage: SendStage, len: nat, outcome: SendOutcome) -> SendStage {
    match outcome {
        SendOutcome::Opened(Some(id)) => SendStage::Writing(id),
        SendOutcome::Wrote(Ok(n)) => if n == len && stage is Writing {
            SendStage::Finishing(stage->Writing_0)
        } else {
            SendStage::Failed
        },
        SendOutcome::Finished(Ok(())) => SendStage::Sent,
        _ => SendStage::Failed,
    }
}

/// Why an outcome fails a sending.
pub open spec fn send_fault(kind: SendKind, outcome: SendOutcome) -> Seq<char> {
    match outcome {
        SendOutcome::Opened(_) => NO_CREDIT@,
        SendOutcome::Wrote(Ok(_)) => match kind {
            SendKind::Message => MESSAGE_TOO_LONG@,
            SendKind::Echo => ECHO_TOO_LONG@,
        },
        SendOutcome::Wrote(Err(detail)) => match kind {
            SendKind::Message => "stream write: "@ + detail@,
            SendKind::Echo => "echo write: "@ + detail@,
        },
        SendOutcome::Finished(Err(detail)) => match kind {
            SendKind::Message => "stream finish: "@ + detail@,
            SendKind::Echo => "echo finish: "@ + detail@,
        },
        SendOutcome::Finished(Ok(())) => Seq::empty(),
    }
}

/// The exchange after an outcome: the stream that was opened, and the time at
/// which the client's message was sent.
pub open spec fn app_after(app: AppModel, kind: SendKind, outcome: SendOutcome, now: u64) -> AppModel {
    match outcome {
        SendOutcome::Opened(Some(id)) => AppModel { stream: Some(id), ..app },
        SendOutcome::Finished(Ok(())) => if kind == SendKind::Message {
            AppModel { sent_at: Some(now), ..app }
        } else {
            app
        },
        _ => app,
    }
}

/// A sending of `bytes` that is at `stage`.
pub open spec fn begins(sending: Sending, kind: SendKind, stage: SendStage, bytes: Seq<u8>) -> bool {
    sending.kind == kind && sending.stage == stage && sending.bytes@ == bytes
}

impl Sending {
    /// What to do next.
    pub fn request(&self) -> (request: SendRequest)
        ensures
            request == (match self.stage {
                SendStage::Opening => SendRequest::Open,
                SendStage::Writing(id) => SendRequest::Write(id),
                SendStage::Finishing(id) => SendRequest::Finish(id),
                SendStage::Sent => SendRequest::Nothing,
                SendStage::Failed => SendRequest::Nothing,
            }),
    {
        match self.stage {
            SendStage::Opening => SendRequest::Open,
            SendStage::Writing(id) => SendRequest::Write(id),
            SendStage::Finishing(id) => SendRequest::Finish(id),
            SendStage::Sent => SendRequest::Nothing,
            SendStage::Failed => SendRequest::Nothing,
        }
    }
}

/// How far a sending of `len` bytes is after `outcomes`, from `stage` on.
pub open spec fn send_trace(stage: SendStage, len: nat, outcomes: Seq<SendOutcome>) -> SendStage
    decreases outcomes.len(),
{
    if outcomes.len() == 0 {
        stage
    } else {
        send_trace(stage_after(stage, len, outcomes[0]), len, outcomes.drop_first())
    }
}

/// Every outcome answers what was requested at its turn.
pub open spec fn all_answer(stage: SendStage, len: nat, outcomes: Seq<SendOutcome>) -> bool
    decreases outcomes.len(),
{
    outcomes.len() == 0 || (answers(stage, outcomes[0]) && all_answer(
        stage_after(stage, len, outcomes[0]),
        len,
        outcomes.drop_first(),
    ))
}

/// The stream took all `len` bytes.
pub open spec fn wrote_all(outcome: SendOutcome, len: nat) -> bool {
    outcome matches SendOutcome::Wrote(Ok(n)) && n == len
}

/// A message is sent exactly by opening a stream, writing all of it there, and
/// finishing the stream, in this order.
pub proof fn messages_are_sent_in_order(len: nat, outcomes: Seq<SendOutcome>)
    requires
        all_answer(SendStage::Opening, len, outcomes),
    ensures
        send_trace(SendStage::Opening, len, outcomes) == SendStage::Sent <==> {
            &&& outcomes.len() == 3
            &&& outcomes[0] matches SendOutcome::Opened(id) && id is Some
            &&& wrote_all(outcomes[1], len)
            &&& outcomes[2] matches SendOutcome::Finished(finished) && finished is Ok
        },
{
    reveal_with_fuel(all_answer, 4);
    reveal_with_fuel(send_trace, 4);
    if outcomes.len() > 0 {
        let next = stage_after(SendStage::Opening, len, outcomes[0]);
        let rest = outcomes.drop_first();
        if let SendOutcome::Opened(Some(id)) = outcomes[0] {
            echoes_are_sent_in_order(id, len, rest);
            if rest.len() == 2 {
                assert(rest[0] == outcomes[1] && rest[1] == outcomes[2]);
            }
        } else {
            assert(next == SendStage::Failed);
            assert(rest.len() == 0);
        }
    }
}

/// An echo is sent exactly by writing all of it to the stream that it
/// answers, and finishing the stream, in this order.
pub proof fn echoes_are_sent_in_order(id: u64, len: nat, outcomes: Seq<SendOutcome>)
    requires
        all_answer(SendStage::Writing(id), len, outcomes),
    ensures
        send_trace(SendStage::Writing(id), len, outcomes) == SendStage::Sent <==> {
            &&& outcomes.len() == 2
            &&& wrote_all(outcomes[0], len)
            &&& outcomes[1] matches SendOutcome::Finished(finished) && finished is Ok
        },
{
    reveal_with_fuel(all_answer, 4);
    reveal_with_fuel(send_trace, 4);
    if outcomes.len() > 0 {
        let next = stage_after(SendStage::Writing(id), len, outcomes[0]);
        let rest = outcomes.drop_first();
        if wrote_all(outcomes[0], len) {
            assert(next == SendStage::Finishing(id));
            if rest.len() > 0 {
                assert(rest[0] == outcomes[1]);
                let last = stage_after(next, len, rest[0]);
                assert(last == SendStage::Sent || last == SendStage::Failed);
                assert(rest.drop_first().len() == 0);
                assert(send_trace(next, len, rest) == last) by {
                    assert(send_trace(last, len, rest.drop_first()) == last);
                }
            }
        } else {
            assert(next == SendStage::Failed);
            assert(rest.len() == 0);
        }
    }
}

/// What a reading turn brought: the chunks in order, and how it ended.
pub struct ReadTurn {
    pub chunks: Vec<Vec<u8>>,
    pub end: ReadEnd,
}

/// How a reading turn ended.
pub enum ReadEnd {
    /// The peer finished the stream.
    Finished,
    /// There is nothing more to read yet.
    Blocked,
    Failed(String),
}

impl AppModel {
    /// The exchange after its stream was read to the end at `now`: the bytes
    /// read as text, and the client's clock stopped.
    pub open spec fn completed(self, inbound: Seq<u8>, now: u64) -> AppModel {
        AppModel {
            inbound,
            received: Some(lossy_text(inbound)),
            roundtrip_ms: if self.message is Some {
                match self.sent_at {
                    Some(at) => millis_between(at, now),
                    None => 0,
                }
            } else {
                self.roundtrip_ms
            },
            ..self
        }
    }

    /// The side observed everything it has to.
    pub open spec fn complete(self) -> bool {
        self.peer_id is Some && self.handshake_ms is Some && self.received is Some
    }
}

/// The text about a lost connection.
pub open spec fn lost_text(detail: Seq<char>) -> Seq<char> {
    "connection lost: "@ + detail
}

/// How a connection event changes the exchange, and what it asks for or why
/// it fails the run.
pub open spec fn event_fits(
    app: AppModel,
    event: AppEvent,
    started: u64,
    now: u64,
    after: AppModel,
    out: Result<AppAction, String>,
) -> bool {
    match event {
        AppEvent::Connected { identity } => {
            let timed = AppModel { handshake_ms: Some(millis_between(started, now)), ..app };
            match identity_refusal(identity) {
                Some(reason) => {
                    &&& after == timed
                    &&& out matches Err(text)
                    &&& text@ == reason
                },
                None => {
                    &&& after.peer_id matches Some(id)
                    &&& identity->0@[0]@ == ed25519_spki(id@)
                    &&& after == AppModel { peer_id: after.peer_id, ..timed }
                    &&& match app.message {
                        Some(message) => out matches Ok(AppAction::Send(sending)) && begins(
                            sending,
                            SendKind::Message,
                            SendStage::Opening,
                            encode_utf8(message),
                        ),
                        None => out matches Ok(AppAction::Nothing),
                    }
                },
            }
        },
        AppEvent::BidirectionalOpened => after == app && if app.message is None && app.stream
            is None {
            out matches Ok(AppAction::AcceptStream)
        } else {
            out matches Ok(AppAction::Nothing)
        },
        AppEvent::Readable { id } => after == app && if app.stream == Some(id) {
            out matches Ok(AppAction::Read(stream)) && stream == id
        } else {
            out matches Ok(AppAction::Nothing)
        },
        AppEvent::ConnectionLost { application_closed, detail } => if application_closed
            && app.received is Some {
            &&& out matches Ok(AppAction::Nothing)
            &&& after == AppModel {
                done_at: Some(
                    match app.done_at {
                        Some(at) => at,
                        None => now,
                    },
                ),
                ..app
            }
        } else {
            &&& after == app
            &&& out matches Err(text)
            &&& text@ == lost_text(detail@)
        },
        _ => after == app && out matches Ok(AppAction::Nothing),
    }
}

impl App {
    pub fn new(role: Role) -> (app: Self)
        ensures
            app@ == (AppModel {
                message: role_message(role),
                handshake_ms: None,
                peer_id: None,
                stream: None,
                inbound: Seq::empty(),
                sent_at: None,
                roundtrip_ms: 0,
                received: None,
                done_at: None,
                close_sent: false,
            }),
    {
        App {
            role,
            handshake_ms: None,
            peer_id: None,
            stream: None,
            inbound: Vec::new(),
            sent_at: None,
            roundtrip_ms: 0,
            received: None,
            done_at: None,
            close_sent: false,
        }
    }

    /// Advance the exchange by a connection event at `now`, in a run that
    /// began at `started`.
    pub fn handle_event(&mut self, event: AppEvent, started: u64, now: u64) -> (out: Result<
        AppAction,
        String,
    >)
        ensures
            event_fits(old(self)@, event, started, now, final(self)@, out),
    {
        match event {
            AppEvent::HandshakeDataReady => Ok(AppAction::Nothing),
            AppEvent::Connected { identity } => {
                self.handshake_ms = Some(millis(started, now));
                let id: Result<Id, String> = peer_endpoint_id(&identity);
                match id {
                    Err(text) => Err(text),
                    Ok(id) => {
                        self.peer_id = Some(id);
                        match &self.role {
                            Role::Client { message } => {
                                let bytes: Vec<u8> = copy_bytes(message.as_str().as_bytes());
                                Ok(
                                    AppAction::Send(
                                        Sending {
                                            kind: SendKind::Message,
                                            bytes,
                                            stage: SendStage::Opening,
                                        },
                                    ),
                                )
                            },
                            Role::Server => Ok(AppAction::Nothing),
                        }
                    },
                }
            },
            AppEvent::BidirectionalOpened => {
                let server: bool = match &self.role {
                    Role::Client { .. } => false,
                    Role::Server => true,
                };
                if server && self.stream.is_none() {
                    Ok(AppAction::AcceptStream)
                } else {
                    Ok(AppAction::Nothing)
                }
            },
            AppEvent::Readable { id } => {
                match self.stream {
                    Some(stream) => if stream == id {
                        Ok(AppAction::Read(id))
                    } else {
                        Ok(AppAction::Nothing)
                    },
                    None => Ok(AppAction::Nothing),
                }
            },
            AppEvent::OtherStream => Ok(AppAction::Nothing),
            AppEvent::Datagrams => Ok(AppAction::Nothing),
            AppEvent::ConnectionLost { application_closed, detail } => {
                if application_closed && self.received.is_some() {
                    if self.done_at.is_none() {
                        self.done_at = Some(now);
                    }
                    Ok(AppAction::Nothing)
                } else {
                    Err(concat("connection lost: ", detail.as_str()))
                }
            },
        }
    }

    /// Take a sending one stage further, from what came of the request at
    /// `now`: the client's stream is noted when it opens, and the time when
    /// its message is sent.
    pub fn send_step(&mut self, sending: &mut Sending, outcome: SendOutcome, now: u64) -> (out:
        Result<(), String>)
        requires
            answers(old(sending).stage, outcome),
        ensures
            final(sending).kind == old(sending).kind,
            final(sending).bytes@ == old(sending).bytes@,
            final(sending).stage == stage_after(
                old(sending).stage,
                old(sending).bytes@.len(),
                outcome,
            ),
            final(self)@ == app_after(old(self)@, old(sending).kind, outcome, now),
            match out {
                Ok(()) => final(sending).stage != SendStage::Failed,
                Err(text) => final(sending).stage == SendStage::Failed && text@ == send_fault(
                    old(sending).kind,
                    outcome,
                ),
            },
    {
        let message: bool = sending.kind == SendKind::Message;
        match outcome {
            SendOutcome::Opened(id) => match id {
                Some(id) => {
                    sending.stage = SendStage::Writing(id);
                    self.stream = Some(id);
                    Ok(())
                },
                None => {
                    sending.stage = SendStage::Failed;
                    Err(NO_CREDIT.to_owned())
                },
            },
            SendOutcome::Wrote(wrote) => {
                let id: u64 = match sending.stage {
                    SendStage::Writing(id) => id,
                    _ => 0,
                };
                match wrote {
                    Ok(n) => if n == sending.bytes.len() {
                        sending.stage = SendStage::Finishing(id);
                        Ok(())
                    } else {
                        sending.stage = SendStage::Failed;
                        if message {
                            Err(MESSAGE_TOO_LONG.to_owned())
                        } else {
                            Err(ECHO_TOO_LONG.to_owned())
                        }
                    },
                    Err(detail) => {
                        sending.stage = SendStage::Failed;
                        if message {
                            Err(concat("stream write: ", detail.as_str()))
                        } else {
                            Err(concat("echo write: ", detail.as_str()))
                        }
                    },
                }
            },
            SendOutcome::Finished(finished) => match finished {
                Ok(()) => {
                    sending.stage = SendStage::Sent;
                    if message {
                        self.sent_at = Some(now);
                    }
                    Ok(())
                },
                Err(detail) => {
                    sending.stage = SendStage::Failed;
                    if message {
                        Err(concat("stream finish: ", detail.as_str()))
                    } else {
                        Err(concat("echo finish: ", detail.as_str()))
                    }
                },
            },
        }
    }

    /// The server accepted a stream, or there was none. Data that arrived
    /// before the accept raises no event, so the first read is on this side.
    pub fn stream_accepted(&mut self, id: Option<u64>) -> (action: AppAction)
        ensures
            final(self)@ == (AppModel { stream: id, ..old(self)@ }),
            match id {
                Some(id) => action matches AppAction::Read(stream) && stream == id,
                None => action is Nothing,
            },
    {
        self.stream = id;
        match id {
            Some(id) => AppAction::Read(id),
            None => AppAction::Nothing,
        }
    }

    /// Take a reading turn on the stream `id` at `now`; `None` for a stream
    /// that was already reset or fully read. At the stream's end this side's
    /// half of the exchange completes, and the server is handed the echo to
    /// send back on the stream.
    pub fn read_stream(&mut self, id: u64, turn: Option<ReadTurn>, now: u64) -> (out: Result<
        Option<Sending>,
        String,
    >)
        ensures
            match turn {
                None => out matches Ok(None) && final(self)@ == old(self)@,
                Some(turn) => {
                    let inbound = old(self)@.inbound + flattened(contents(turn.chunks@));
                    match turn.end {
                        ReadEnd::Blocked => out matches Ok(None) && final(self)@ == (AppModel {
                            inbound,
                            ..old(self)@
                        }),
                        ReadEnd::Failed(detail) => {
                            &&& out matches Err(text)
                            &&& text@ == "stream read: "@ + detail@
                            &&& final(self)@ == (AppModel { inbound, ..old(self)@ })
                        },
                        ReadEnd::Finished => {
                            &&& final(self)@ == old(self)@.completed(inbound, now)
                            &&& if old(self)@.message is Some {
                                out matches Ok(None)
                            } else {
                                out matches Ok(Some(sending)) && begins(
                                    sending,
                                    SendKind::Echo,
                                    SendStage::Writing(id),
                                    encode_utf8(uppercase_text(lossy_text(inbound))),
                                )
                            }
                        },
                    }
                },
            },
    {
        let turn: ReadTurn = match turn {
            None => {
                return Ok(None);
            },
            Some(turn) => turn,
        };
        append_chunks(&mut self.inbound, &turn.chunks);
        match turn.end {
            ReadEnd::Blocked => Ok(None),
            ReadEnd::Failed(detail) => Err(concat("stream read: ", detail.as_str())),
            ReadEnd::Finished => {
                let text: String = lossy_string(self.inbound.as_slice());
                let upper: String = uppercase_string(text.as_str());
                self.received = Some(text);
                let client: bool = match &self.role {
                    Role::Client { .. } => true,
                    Role::Server => false,
                };
                if client {
                    self.roundtrip_ms = match self.sent_at {
                        Some(at) => millis(at, now),
                        None => 0,
                    };
                    Ok(None)
                } else {
                    let bytes: Vec<u8> = copy_bytes(upper.as_str().as_bytes());
                    Ok(
                        Some(
                            Sending {
                                kind: SendKind::Echo,
                                bytes,
                                stage: SendStage::Writing(id),
                            },
                        ),
                    )
                }
            },
        }
    }

    /// Progress that no event drives: the client closes the connection, once,
    /// when it has its echo. True if the connection is to be closed.
    pub fn drive(&mut self, now: u64) -> (close: bool)
        ensures
            close == (old(self)@.message is Some && old(self)@.received is Some && !old(
                self,
            )@.close_sent),
            final(self)@ == (if close {
                AppModel { close_sent: true, done_at: Some(now), ..old(self)@ }
            } else {
                old(self)@
            }),
    {
        let client: bool = match &self.role {
            Role::Client { .. } => true,
            Role::Server => false,
        };
        if client && self.received.is_some() && !self.close_sent {
            self.close_sent = true;
            self.done_at = Some(now);
            true
        } else {
            false
        }
    }

    /// What this side observed: the peer, then the handshake, then the
    /// payload have to be there.
    pub fn finish(&self) -> (outcome: Result<Outcome, String>)
        ensures
            finish_fits(self@, outcome),
    {
        match (&self.peer_id, &self.handshake_ms, &self.received) {
            (None, _, _) => Err(NO_PEER_IDENTITY.to_owned()),
            (Some(_), None, _) => Err(NO_HANDSHAKE.to_owned()),
            (Some(_), Some(_), None) => Err(NO_PAYLOAD.to_owned()),
            (Some(peer_id), Some(handshake_ms), Some(received)) => Ok(
                Outcome {
                    peer_id: *peer_id,
                    handshake_ms: *handshake_ms,
                    roundtrip_ms: self.roundtrip_ms,
                    received: received.clone(),
                },
            ),
        }
    }
}

/// What finishing comes to.
pub open spec fn finish_fits(app: AppModel, outcome: Result<Outcome, String>) -> bool {
    match outcome {
        Ok(outcome) => app.peer_id == Some(outcome.peer_id) && app.handshake_ms == Some(
            outcome.handshake_ms,
        ) && outcome.roundtrip_ms == app.roundtrip_ms && app.received == Some(outcome.received@),
        Err(text) => if app.peer_id is None {
            text@ == NO_PEER_IDENTITY@
        } else if app.handshake_ms is None {
            text@ == NO_HANDSHAKE@
        } else {
            app.received is None && text@ == NO_PAYLOAD@
        },
    }
}

/// A reported outcome names an identity that the handshake authenticated: the
/// peer is recorded by nothing but a handshake that proved its key.
pub proof fn only_handshakes_name_the_peer(
    app: AppModel,
    event: AppEvent,
    started: u64,
    now: u64,
    after: AppModel,
    out: Result<AppAction, String>,
)
    requires
        event_fits(app, event, started, now, after, out),
        after.peer_id != app.peer_id,
    ensures
        event matches AppEvent::Connected { identity } && identity_refusal(identity) is None
            && identity->0@[0]@ == ed25519_spki(after.peer_id->0@),
{
}

/// A wire takes relayed datagrams exactly if it is the relay.
pub proof fn wires_take_their_own_messages(
    peer: Option<Id>,
    source: Id,
    payload: Vec<u8>,
)
    ensures
        carried_by(Wire::Relay { peer }, WireMessage::Relayed { source, payload }),
        !carried_by(Wire::Channel, WireMessage::Relayed { source, payload }),
        carried_by(Wire::Channel, WireMessage::Binary(payload)),
        carried_by(Wire::Channel, WireMessage::Text),
        !carried_by(Wire::Relay { peer }, WireMessage::Binary(payload)),
        !carried_by(Wire::Relay { peer }, WireMessage::Text),
{
}

/// An identity is taken from the first certificate, whatever follows it, if
/// that is an Ed25519 key; every other one is refused for its own reason.
pub proof fn identities_are_first_certificates(identity: PeerIdentity, id: Id)
    ensures
        identity is Missing ==> identity_refusal(identity) == Some("peer presented no identity"@),
        identity is UnexpectedType ==> identity_refusal(identity) == Some(
            "unexpected peer identity type"@,
        ),
        identity matches PeerIdentity::Certificates(chain) ==> {
            &&& chain@.len() == 0 ==> identity_refusal(identity) == Some(
                "empty peer certificate list"@,
            )
            &&& chain@.len() > 0 && chain@[0]@ == ed25519_spki(id@) ==> identity_refusal(identity)
                is None
            &&& chain@.len() > 0 && chain@[0]@.len() != 44 ==> identity_refusal(identity) == Some(
                "peer key is not Ed25519"@,
            )
            &&& identity_refusal(identity) is None ==> chain@.len() > 0 && exists|key: Id|
                chain@[0]@ == #[trigger] ed25519_spki(key@)
        },
{
}

/// Milliseconds are whole ones that have passed; none have if the clock has
/// not moved on.
pub proof fn milliseconds_are_whole(start: u64, now: u64)
    ensures
        now >= start ==> 1_000_000 * millis_between(start, now) <= now - start < 1_000_000 * (
        millis_between(start, now) + 1),
        now < start ==> millis_between(start, now) == 0,
{
}

/// A span has passed once the clock is that far behind the start.
pub proof fn spans_pass_with_the_clock(start: u64, now: u64, span: u64)
    ensures
        has_passed(start, now, span) <==> now >= start + span,
{
}

/// A finished stream's bytes become the received text; a client's roundtrip is
/// the time since its message was sent, a server's stays what it was, and
/// nothing else changes.
pub proof fn finished_streams_complete_the_exchange(app: AppModel, inbound: Seq<u8>, now: u64)
    ensures
        ({
            let after = app.completed(inbound, now);
            &&& after.inbound == inbound
            &&& after.received == Some(lossy_text(inbound))
            &&& app.message is None ==> after.roundtrip_ms == app.roundtrip_ms
            &&& app.message is Some && app.sent_at is None ==> after.roundtrip_ms == 0
            &&& app.message is Some ==> (app.sent_at matches Some(at) ==> (now >= at ==> 1_000_000
                * after.roundtrip_ms <= now - at < 1_000_000 * (after.roundtrip_ms + 1)))
            &&& after.message == app.message
            &&& after.handshake_ms == app.handshake_ms
            &&& after.peer_id == app.peer_id
            &&& after.stream == app.stream
            &&& after.sent_at == app.sent_at
            &&& after.done_at == app.done_at
            &&& after.close_sent == app.close_sent
        }),
{
}

/// A sending writes to the stream that was opened for it, finishes the stream
/// that it wrote to, and fails at everything but success.
pub proof fn sendings_stay_on_their_stream(
    stage: SendStage,
    len: nat,
    outcome: SendOutcome,
    id: u64,
)
    requires
        answers(stage, outcome),
    ensures
        outcome == SendOutcome::Opened(Some(id)) ==> stage_after(stage, len, outcome)
            == SendStage::Writing(id),
        outcome == SendOutcome::Opened(None) ==> stage_after(stage, len, outcome)
            == SendStage::Failed,
        stage == SendStage::Writing(id) && (outcome matches SendOutcome::Wrote(wrote) && wrote
            matches Ok(m) && m == len) ==> stage_after(stage, len, outcome)
            == SendStage::Finishing(id),
        outcome matches SendOutcome::Wrote(wrote) && (wrote matches Ok(m) ==> m != len)
            ==> stage_after(stage, len, outcome) == SendStage::Failed,
        outcome matches SendOutcome::Finished(finished) ==> stage_after(stage, len, outcome)
            == if finished is Ok {
            SendStage::Sent
        } else {
            SendStage::Failed
        },
{
}

/// The outcome of a request answers it, and no other stage's.
pub proof fn outcomes_answer_their_request(stage: SendStage, outcome: SendOutcome)
    requires
        answers(stage, outcome),
    ensures
        outcome is Opened <==> stage is Opening,
        outcome is Wrote <==> stage is Writing,
        outcome is Finished <==> stage is Finishing,
        stage !is Sent,
        stage !is Failed,
{
}

/// A failed sending tells what failed: the credit, the window, the write or
/// the finish, of the message or of the echo.
pub proof fn failed_sendings_tell_what_failed(detail: String, n: usize)
    ensures
        forall|kind: SendKind|
            #[trigger] send_fault(kind, SendOutcome::Opened(None))
                == "no bidirectional stream credit"@,
        send_fault(SendKind::Message, SendOutcome::Wrote(Ok(n)))
            == "demo message did not fit the stream window"@,
        send_fault(SendKind::Echo, SendOutcome::Wrote(Ok(n)))
            == "echo did not fit the stream window"@,
        send_fault(SendKind::Message, SendOutcome::Wrote(Err(detail))) == "stream write: "@
            + detail@,
        send_fault(SendKind::Echo, SendOutcome::Wrote(Err(detail))) == "echo write: "@ + detail@,
        send_fault(SendKind::Message, SendOutcome::Finished(Err(detail))) == "stream finish: "@
            + detail@,
        send_fault(SendKind::Echo, SendOutcome::Finished(Err(detail))) == "echo finish: "@
            + detail@,
{
}

/// An opened stream becomes the exchange's; the client's clock starts when its
/// message's stream is finished, and at nothing else; nothing else changes.
pub proof fn sendings_note_stream_and_time(
    app: AppModel,
    kind: SendKind,
    outcome: SendOutcome,
    now: u64,
)
    ensures
        ({
            let after = app_after(app, kind, outcome, now);
            let sent = kind == SendKind::Message && (outcome matches SendOutcome::Finished(r)
                && r is Ok);
            &&& after.sent_at == if sent {
                Some(now)
            } else {
                app.sent_at
            }
            &&& after.stream == if outcome matches SendOutcome::Opened(id) && id is Some {
                outcome->Opened_0
            } else {
                app.stream
            }
            &&& after == AppModel { sent_at: after.sent_at, stream: after.stream, ..app }
        }),
{
}

/// A client that meets its peer sends its message, every byte of it, on a
/// stream that is yet to be opened; a server waits. The handshake's time is
/// noted either way.
pub proof fn connected_clients_send_their_message(
    app: AppModel,
    identity: PeerIdentity,
    id: Id,
    started: u64,
    now: u64,
    after: AppModel,
    out: Result<AppAction, String>,
)
    requires
        identity matches PeerIdentity::Certificates(chain) && chain@.len() > 0 && chain@[0]@
            == ed25519_spki(id@),
        event_fits(app, AppEvent::Connected { identity }, started, now, after, out),
    ensures
        after.peer_id == Some(id),
        after.handshake_ms matches Some(ms) && (now >= started ==> 1_000_000 * ms <= now - started
            < 1_000_000 * (ms + 1)) && (now < started ==> ms == 0),
        after == (AppModel {
            peer_id: after.peer_id,
            handshake_ms: after.handshake_ms,
            ..app
        }),
        match app.message {
            Some(message) => {
                &&& out matches Ok(AppAction::Send(sending))
                &&& sending.kind == SendKind::Message
                &&& sending.stage == SendStage::Opening
                &&& sending.bytes@ == encode_utf8(message)
            },
            None => out matches Ok(action) && action is Nothing,
        },
{
    spki_names_one_identity(after.peer_id->0, id);
}

/// An unproven peer fails the run with its refusal, and is not recorded.
pub proof fn unproven_peers_fail_the_run(
    app: AppModel,
    identity: PeerIdentity,
    started: u64,
    now: u64,
    after: AppModel,
    out: Result<AppAction, String>,
)
    requires
        identity matches PeerIdentity::Certificates(chain) ==> chain@.len() == 0 || forall|id: Id|
            chain@[0]@ != #[trigger] ed25519_spki(id@),
        event_fits(app, AppEvent::Connected { identity }, started, now, after, out),
    ensures
        after.peer_id == app.peer_id,
        out matches Err(text) && identity_refusal(identity) == Some(text@),
{
}

/// A server without a stream accepts the one that was opened; a client, and a
/// server that has one, do not.
pub proof fn servers_accept_one_stream(
    app: AppModel,
    started: u64,
    now: u64,
    after: AppModel,
    out: Result<AppAction, String>,
)
    requires
        event_fits(app, AppEvent::BidirectionalOpened, started, now, after, out),
    ensures
        after == app,
        out matches Ok(action) && if app.message is None && app.stream is None {
            action is AcceptStream
        } else {
            action is Nothing
        },
{
}

/// Only the exchange's own stream is read, when it is readable.
pub proof fn only_the_own_stream_is_read(
    app: AppModel,
    id: u64,
    started: u64,
    now: u64,
    after: AppModel,
    out: Result<AppAction, String>,
)
    requires
        event_fits(app, AppEvent::Readable { id }, started, now, after, out),
    ensures
        after == app,
        app.stream == Some(id) ==> (out matches Ok(AppAction::Read(stream)) && stream == id),
        app.stream != Some(id) ==> (out matches Ok(action) && action is Nothing),
{
}

/// A connection that the application closed after the payload arrived is done,
/// from that moment or from an earlier one; any other loss fails the run with
/// its detail.
pub proof fn losses_end_or_fail_the_run(
    app: AppModel,
    application_closed: bool,
    detail: String,
    started: u64,
    now: u64,
    after: AppModel,
    out: Result<AppAction, String>,
)
    requires
        event_fits(
            app,
            AppEvent::ConnectionLost { application_closed, detail },
            started,
            now,
            after,
            out,
        ),
    ensures
        application_closed && app.received is Some ==> {
            &&& out matches Ok(action)
            &&& action is Nothing
            &&& after.done_at == if app.done_at is Some {
                app.done_at
            } else {
                Some(now)
            }
            &&& after == AppModel { done_at: after.done_at, ..app }
        },
        !(application_closed && app.received is Some) ==> {
            &&& after == app
            &&& out matches Err(text)
            &&& text@ == "connection lost: "@ + detail@
        },
{
}

/// Handshake data, other streams and datagrams change nothing.
pub proof fn other_events_change_nothing(
    app: AppModel,
    event: AppEvent,
    started: u64,
    now: u64,
    after: AppModel,
    out: Result<AppAction, String>,
)
    requires
        event is HandshakeDataReady || event is OtherStream || event is Datagrams,
        event_fits(app, event, started, now, after, out),
    ensures
        after == app,
        out matches Ok(action) && action is Nothing,
{
}

/// A sending begins with its kind, its stage and every byte.
pub proof fn sendings_begin_whole(sending: Sending, kind: SendKind, stage: SendStage, bytes: Seq<u8>)
    requires
        begins(sending, kind, stage, bytes),
    ensures
        sending.kind == kind,
        sending.stage == stage,
        sending.bytes@ == bytes,
{
}

/// An exchange has an outcome exactly if the peer, the handshake and the
/// payload are there; the outcome holds what was observed. Otherwise the first
/// of them that is missing is told.
pub proof fn outcomes_hold_what_was_observed(app: AppModel, outcome: Result<Outcome, String>)
    requires
        finish_fits(app, outcome),
    ensures
        outcome is Ok <==> app.peer_id is Some && app.handshake_ms is Some && app.received is Some,
        app.complete() <==> outcome is Ok,
        outcome matches Ok(seen) ==> {
            &&& app.peer_id == Some(seen.peer_id)
            &&& app.handshake_ms == Some(seen.handshake_ms)
            &&& app.roundtrip_ms == seen.roundtrip_ms
            &&& app.received == Some(seen.received@)
        },
        outcome matches Err(text) ==> text@ == (if app.peer_id is None {
            "finished without a peer identity"@
        } else if app.handshake_ms is None {
            "finished without a handshake"@
        } else {
            "finished without a payload"@
        }),
{
}

/// The exchange's times, its close, and the texts of its refusals.
pub proof fn times_and_texts_of_the_exchange()
    ensures
        TICK_NS == 50_000_000,
        LINGER_NS == 500_000_000,
        RUN_DEADLINE_NS == 30_000_000_000,
        DONE_CODE == 0,
        DONE_REASON@ == "done"@,
        NO_PEER_YET@ == "relay wire has no peer yet"@,
        NEEDS_PEER@ == "client role requires the peer's endpoint id"@,
{
}

} // verus!
