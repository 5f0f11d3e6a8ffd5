//! One connection's bookkeeping: who it must be, who it turned out to be,
//! and what the application has yet to pick up.

use super::error::error_model;
use super::error::Error;
use super::error::ErrorModel;
use crate::addr::same_id;
use crate::addr::Id;
use crate::tls::ed25519_spki;
use crate::tls::endpoint_id_from_spki;
use crate::tls::spki_names_one_identity;
use std::collections::VecDeque;
use vstd::prelude::*;
use vstd::string::*;

verus! {

/// The application close code for an identity mismatch.
pub const IDENTITY_MISMATCH_CODE: u32 = 1;

/// The close reason for an identity mismatch.
pub const IDENTITY_MISMATCH_REASON: &'static str = "identity mismatch";

/// What the connecting side is told about an identity mismatch.
pub const IDENTITY_MISMATCH_DETAIL: &'static str =
    "authenticated key differs from the addressed peer";

/// Per-connection state beside the QUIC state machine.
pub struct ConnEntry {
    /// The QUIC connection this entry belongs to.
    pub handle: usize,
    /// The identity this connection must authenticate as, when one is known
    /// up front: the dialed identity on the client side, the
    /// relay-authenticated datagram source on relay-accepted connections.
    /// `None` on direct-path accepted connections, whose identity has no
    /// out-of-band claim: the TLS-authenticated key is adopted instead.
    pub expected_peer: Option<Id>,
    /// The authenticated peer identity, set once connected.
    pub peer: Option<Id>,
    pub accepted_side: bool,
    pub connected: bool,
    pub alpn: Vec<u8>,
    pub error: Option<Error>,
    pub drained: bool,
    pub bi_queue: VecDeque<u64>,
    pub uni_queue: VecDeque<u64>,
}

/// A connection entry with its contents as mathematical values.
#[verifier::ext_equal]
pub struct EntryModel {
    pub expected_peer: Option<Id>,
    pub peer: Option<Id>,
    pub accepted_side: bool,
    pub connected: bool,
    pub alpn: Seq<u8>,
    pub error: Option<ErrorModel>,
    pub drained: bool,
    pub bi_queue: Seq<u64>,
    pub uni_queue: Seq<u64>,
}

impl EntryModel {
    /// A connected entry names a peer, and the one it was meant for where
    /// one was known.
    pub open spec fn authenticated(self) -> bool {
        self.connected ==> self.peer is Some && (self.expected_peer is Some ==> self.peer
            == self.expected_peer)
    }

    /// No operation can succeed on the connection anymore.
    pub open spec fn over(self) -> bool {
        self.drained || self.error is Some
    }
}

/// A fresh entry.
pub open spec fn fresh_entry(expected_peer: Option<Id>, accepted_side: bool) -> EntryModel {
    EntryModel {
        expected_peer,
        peer: None,
        accepted_side,
        connected: false,
        alpn: Seq::empty(),
        error: None,
        drained: false,
        bi_queue: Seq::empty(),
        uni_queue: Seq::empty(),
    }
}

impl View for ConnEntry {
    type V = EntryModel;

    open spec fn view(&self) -> EntryModel {
        EntryModel {
            expected_peer: self.expected_peer,
            peer: self.peer,
            accepted_side: self.accepted_side,
            connected: self.connected,
            alpn: self.alpn@,
            error: error_model(self.error),
            drained: self.drained,
            bi_queue: self.bi_queue@,
            uni_queue: self.uni_queue@,
        }
    }
}

/// Why a connection was lost.
pub enum LossReason {
    /// The peer's application closed it.
    ApplicationClosed,
    /// This side closed it.
    LocallyClosed,
    /// Anything else, described.
    Failed(String),
}

/// What the QUIC state machine reports of a connection.
pub enum ConnEvent {
    HandshakeDataReady,
    /// The handshake finished. `handshake` is the negotiated protocol where
    /// handshake data is available; `certificate` is the peer's first
    /// certificate, where it presented one.
    Connected { handshake: Option<Option<Vec<u8>>>, certificate: Option<Vec<u8>> },
    /// The peer opened streams; these were waiting to be accepted.
    StreamsOpened { bidirectional: Vec<u64>, unidirectional: Vec<u64> },
    /// A stream became readable, writable or available.
    StreamProgress,
    Datagrams,
    ConnectionLost { reason: LossReason },
}

/// What has to be done to the QUIC connection after an event.
pub enum Reaction {
    Nothing,
    /// Close it with this application code and reason.
    Close { code: u32, reason: String },
}

/// The connection is to be closed for an identity mismatch.
pub open spec fn closes_for_mismatch(reaction: Reaction) -> bool {
    reaction matches Reaction::Close { code, reason } && code == IDENTITY_MISMATCH_CODE && reason@
        == IDENTITY_MISMATCH_REASON@
}

/// `certificate` proves the identity `id`, and `expected` allows it.
pub open spec fn accepts_identity(
    certificate: Option<Vec<u8>>,
    expected: Option<Id>,
    id: Id,
) -> bool {
    certificate is Some && certificate->0@ == ed25519_spki(id@) && (expected is Some ==> expected
        == Some(id))
}

/// The negotiated protocol after a handshake.
pub open spec fn negotiated(old_alpn: Seq<u8>, handshake: Option<Option<Vec<u8>>>) -> Seq<u8> {
    match handshake {
        Some(Some(protocol)) => protocol@,
        Some(None) => Seq::empty(),
        None => old_alpn,
    }
}

/// The error that a lost connection leaves behind.
pub open spec fn loss_error(reason: LossReason) -> ErrorModel {
    match reason {
        LossReason::ApplicationClosed => ErrorModel::Closed,
        LossReason::LocallyClosed => ErrorModel::Closed,
        LossReason::Failed(detail) => ErrorModel::Other("connection lost: "@ + detail@),
    }
}

/// The entry after `event`, on the side that proved `id` where it connected.
pub open spec fn entry_after(entry: EntryModel, event: ConnEvent) -> EntryModel {
    match event {
        ConnEvent::Connected { handshake, certificate } => {
            let alpn = negotiated(entry.alpn, handshake);
            if exists|id: Id| #[trigger] accepts_identity(certificate, entry.expected_peer, id) {
                let id = choose|id: Id| #[trigger]
                    accepts_identity(certificate, entry.expected_peer, id);
                EntryModel { alpn, peer: Some(id), connected: true, ..entry }
            } else {
                EntryModel {
                    alpn,
                    error: Some(ErrorModel::ConnectFailed(IDENTITY_MISMATCH_DETAIL@)),
                    ..entry
                }
            }
        },
        ConnEvent::StreamsOpened { bidirectional, unidirectional } => EntryModel {
            bi_queue: entry.bi_queue + bidirectional@,
            uni_queue: entry.uni_queue + unidirectional@,
            ..entry
        },
        ConnEvent::ConnectionLost { reason } => EntryModel {
            error: Some(loss_error(reason)),
            ..entry
        },
        _ => entry,
    }
}

/// The event is a handshake that proved the right identity.
pub open spec fn authenticates(entry: EntryModel, event: ConnEvent) -> bool {
    event matches ConnEvent::Connected { certificate, .. } && exists|id: Id| #[trigger]
        accepts_identity(certificate, entry.expected_peer, id)
}

/// The event is a handshake that proved another identity, or none.
pub open spec fn mismatches(entry: EntryModel, event: ConnEvent) -> bool {
    event is Connected && !authenticates(entry, event)
}

impl ConnEntry {
    pub fn new(handle: usize, expected_peer: Option<Id>, accepted_side: bool) -> (entry: Self)
        ensures
            entry.handle == handle,
            entry@ == fresh_entry(expected_peer, accepted_side),
    {
        ConnEntry {
            handle,
            expected_peer,
            peer: None,
            accepted_side,
            connected: false,
            alpn: Vec::new(),
            error: None,
            drained: false,
            bi_queue: VecDeque::new(),
            uni_queue: VecDeque::new(),
        }
    }
}

/// Append every item of `ids` to `queue`, in order.
fn enqueue_all(queue: &mut VecDeque<u64>, ids: &Vec<u64>)
    ensures
        final(queue)@ == old(queue)@ + ids@,
{
    let mut i: usize = 0;
    assert(queue@ =~= queue@ + ids@.take(0));
    while i < ids.len()
        invariant
            i <= ids@.len(),
            queue@ == old(queue)@ + ids@.take(i as int),
        decreases ids@.len() - i,
    {
        queue.push_back(ids[i]);
        i = i + 1;
        assert(ids@.take(i as int) =~= ids@.take(i - 1).push(ids@[i - 1]));
        assert(queue@ =~= old(queue)@ + ids@.take(i as int));
    }
    assert(ids@.take(ids@.len() as int) =~= ids@);
}

/// Record what the QUIC state machine reported of `entry`'s connection. A
/// connection that authenticated on the accepting side joins `accept_queue`;
/// one that authenticated a key other than the addressed one is failed and
/// closed, and never surfaces.
pub fn on_event(
    entry: &mut ConnEntry,
    event: ConnEvent,
    accept_queue: &mut VecDeque<usize>,
) -> (reaction: Reaction)
    ensures
        final(entry).handle == old(entry).handle,
        final(entry)@ == entry_after(old(entry)@, event),
        final(accept_queue)@ == (if authenticates(old(entry)@, event) && old(entry)@.accepted_side {
            old(accept_queue)@.push(old(entry).handle)
        } else {
            old(accept_queue)@
        }),
        if mismatches(old(entry)@, event) {
            closes_for_mismatch(reaction)
        } else {
            reaction is Nothing
        },
{
    let ghost reported = event;
    let mut surfaces: bool = false;
    let reaction: Reaction = match event {
        ConnEvent::HandshakeDataReady => Reaction::Nothing,
        ConnEvent::Connected { handshake, certificate } => {
            match handshake {
                Some(Some(protocol)) => {
                    entry.alpn = protocol;
                },
                Some(None) => {
                    entry.alpn = Vec::new();
                },
                None => {},
            }
            let tls_peer: Option<Id> = match &certificate {
                Some(spki) => endpoint_id_from_spki(spki.as_slice()),
                None => None,
            };
            let allowed: bool = match (&tls_peer, &entry.expected_peer) {
                (Some(id), Some(expected)) => same_id(id, expected),
                (Some(_), None) => true,
                (None, _) => false,
            };
            proof {
                if allowed {
                    assert(accepts_identity(certificate, entry.expected_peer, tls_peer->0));
                    let id = choose|id: Id| #[trigger]
                        accepts_identity(certificate, entry.expected_peer, id);
                    spki_names_one_identity(id, tls_peer->0);
                    assert(authenticates(old(entry)@, reported));
                } else {
                    assert forall|id: Id| !#[trigger]
                        accepts_identity(certificate, entry.expected_peer, id) by {
                        if certificate is Some && certificate->0@ == ed25519_spki(id@) {
                            spki_names_one_identity(id, tls_peer->0);
                        }
                    }
                }
            }
            match tls_peer {
                Some(id) if allowed => {
                    entry.peer = Some(id);
                    entry.connected = true;
                    surfaces = entry.accepted_side;
                    Reaction::Nothing
                },
                _ => {
                    entry.error = Some(Error::ConnectFailed(IDENTITY_MISMATCH_DETAIL.to_owned()));
                    Reaction::Close {
                        code: IDENTITY_MISMATCH_CODE,
                        reason: IDENTITY_MISMATCH_REASON.to_owned(),
                    }
                },
            }
        },
        ConnEvent::StreamsOpened { bidirectional, unidirectional } => {
            enqueue_all(&mut entry.bi_queue, &bidirectional);
            enqueue_all(&mut entry.uni_queue, &unidirectional);
            Reaction::Nothing
        },
        ConnEvent::StreamProgress => Reaction::Nothing,
        ConnEvent::Datagrams => Reaction::Nothing,
        ConnEvent::ConnectionLost { reason } => {
            entry.error = Some(
                match reason {
                    LossReason::ApplicationClosed => Error::Closed,
                    LossReason::LocallyClosed => Error::Closed,
                    LossReason::Failed(detail) => {
                        let mut text: String = "connection lost: ".to_owned();
                        text.append(detail.as_str());
                        Error::Other(text)
                    },
                },
            );
            Reaction::Nothing
        },
    };
    if surfaces {
        accept_queue.push_back(entry.handle);
    }
    reaction
}

/// Whatever happens to a connection, it never counts as connected to a peer
/// other than the one it was meant for, and once it is over it stays over.
pub proof fn events_keep_authentication(entry: EntryModel, event: ConnEvent)
    requires
        entry.authenticated(),
    ensures
        entry_after(entry, event).authenticated(),
        entry_after(entry, event).expected_peer == entry.expected_peer,
        entry.over() ==> entry_after(entry, event).over(),
{
}

/// A handshake that proves `id` connects to `id`, where the connection was
/// meant for that peer or for nobody in particular: the negotiated protocol is
/// taken over, and the accepting side surfaces the connection.
pub proof fn proven_peers_are_connected(
    entry: EntryModel,
    handshake: Option<Option<Vec<u8>>>,
    certificate: Vec<u8>,
    id: Id,
)
    requires
        certificate@ == ed25519_spki(id@),
        entry.expected_peer is None || entry.expected_peer == Some(id),
    ensures
        ({
            let event = ConnEvent::Connected { handshake, certificate: Some(certificate) };
            let after = entry_after(entry, event);
            &&& after.connected
            &&& after.peer == Some(id)
            &&& handshake matches Some(Some(protocol)) ==> after.alpn == protocol@
            &&& handshake matches Some(None) ==> after.alpn.len() == 0
            &&& handshake is None ==> after.alpn == entry.alpn
            &&& after == EntryModel { connected: true, peer: Some(id), alpn: after.alpn, ..entry }
            &&& authenticates(entry, event)
            &&& !mismatches(entry, event)
        }),
{
    assert(accepts_identity(Some(certificate), entry.expected_peer, id));
    let chosen = choose|other: Id| #[trigger]
        accepts_identity(Some(certificate), entry.expected_peer, other);
    spki_names_one_identity(chosen, id);
}

/// A handshake that proves another key than the one the connection was meant
/// for, or that presents no certificate, fails the connection and never
/// surfaces it.
pub proof fn other_peers_are_refused(
    entry: EntryModel,
    handshake: Option<Option<Vec<u8>>>,
    certificate: Option<Vec<u8>>,
    expected: Id,
)
    requires
        entry.expected_peer == Some(expected),
        certificate is Some ==> certificate->0@ != ed25519_spki(expected@),
    ensures
        ({
            let event = ConnEvent::Connected { handshake, certificate };
            let after = entry_after(entry, event);
            &&& after.connected == entry.connected
            &&& after.peer == entry.peer
            &&& after.error == Some(
                ErrorModel::ConnectFailed("authenticated key differs from the addressed peer"@),
            )
            &&& !authenticates(entry, event)
            &&& mismatches(entry, event)
        }),
{
    assert forall|id: Id| !#[trigger] accepts_identity(certificate, entry.expected_peer, id) by {
        if accepts_identity(certificate, entry.expected_peer, id) {
            assert(id == expected);
        }
    }
}

/// A connection that is closed for a mismatch is closed with code 1.
pub proof fn mismatches_are_closed_with_their_reason(reaction: Reaction)
    requires
        closes_for_mismatch(reaction),
    ensures
        reaction matches Reaction::Close { code, reason } && code == 1 && reason@
            == "identity mismatch"@,
{
}

/// Streams that the peer opened join the back of their own queue, in the order
/// reported: what waited keeps its place, and nothing else changes.
pub proof fn opened_streams_join_the_back(
    entry: EntryModel,
    bidirectional: Vec<u64>,
    unidirectional: Vec<u64>,
)
    ensures
        ({
            let after = entry_after(entry, ConnEvent::StreamsOpened { bidirectional, unidirectional });
            let bi = entry.bi_queue.len();
            let uni = entry.uni_queue.len();
            &&& after.bi_queue.len() == bi + bidirectional@.len()
            &&& forall|i: int| 0 <= i < bi ==> after.bi_queue[i] == entry.bi_queue[i]
            &&& forall|i: int|
                0 <= i < bidirectional@.len() ==> after.bi_queue[bi + i] == #[trigger]
                    bidirectional@[i]
            &&& after.uni_queue.len() == uni + unidirectional@.len()
            &&& forall|i: int| 0 <= i < uni ==> after.uni_queue[i] == entry.uni_queue[i]
            &&& forall|i: int|
                0 <= i < unidirectional@.len() ==> after.uni_queue[uni + i] == #[trigger]
                    unidirectional@[i]
            &&& after == EntryModel {
                bi_queue: after.bi_queue,
                uni_queue: after.uni_queue,
                ..entry
            }
        }),
{
}

/// A lost connection leaves its error: closed where either side closed it,
/// what was reported otherwise; and everything else stays.
pub proof fn losses_leave_their_error(entry: EntryModel, detail: String)
    ensures
        entry_after(
            entry,
            ConnEvent::ConnectionLost { reason: LossReason::ApplicationClosed },
        ) == (EntryModel { error: Some(ErrorModel::Closed), ..entry }),
        entry_after(entry, ConnEvent::ConnectionLost { reason: LossReason::LocallyClosed }) == (
        EntryModel { error: Some(ErrorModel::Closed), ..entry }),
        entry_after(
            entry,
            ConnEvent::ConnectionLost { reason: LossReason::Failed(detail) },
        ) == (EntryModel {
            error: Some(ErrorModel::Other("connection lost: "@ + detail@)),
            ..entry
        }),
        entry_after(entry, ConnEvent::HandshakeDataReady) == entry,
        entry_after(entry, ConnEvent::StreamProgress) == entry,
        entry_after(entry, ConnEvent::Datagrams) == entry,
{
}

/// A fresh connection knows whom it is meant for and nothing else.
pub proof fn fresh_connections_are_pending(expected_peer: Option<Id>, accepted_side: bool)
    ensures
        ({
            let e = fresh_entry(expected_peer, accepted_side);
            &&& e.expected_peer == expected_peer
            &&& e.accepted_side == accepted_side
            &&& e.peer is None
            &&& !e.connected
            &&& e.error is None
            &&& !e.drained
            &&& e.alpn.len() == 0
            &&& e.bi_queue.len() == 0
            &&& e.uni_queue.len() == 0
        }),
{
}

/// A connection entry is seen whole.
pub proof fn entries_are_seen_whole(entry: ConnEntry)
    ensures
        entry@.expected_peer == entry.expected_peer,
        entry@.peer == entry.peer,
        entry@.accepted_side == entry.accepted_side,
        entry@.connected == entry.connected,
        entry@.alpn == entry.alpn@,
        entry@.error is Some <==> entry.error is Some,
        entry.error matches Some(error) ==> entry@.error == Some(error@),
        entry@.drained == entry.drained,
        entry@.bi_queue == entry.bi_queue@,
        entry@.uni_queue == entry.uni_queue@,
{
}

} // verus!
