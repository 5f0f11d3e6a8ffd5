//! The echo demo: pair two endpoints by identity through a relay, carry
//! WebRTC signaling as relay datagrams, run the echo, and hold the
//! authenticated peer against the one that was addressed.

use crate::addr::same_id;
use crate::addr::Id;
use crate::bytes::append_range;
use crate::bytes::array_at;
use crate::bytes::copy_range;
use crate::echo;
use crate::echo::Outcome;
use crate::echo::Wire;
use crate::hexadecimal::first_bad;
use crate::hexadecimal::hex_decode;
use crate::hexadecimal::hex_encode;
use crate::hexadecimal::hex_error_text;
use crate::hexadecimal::hex_text;
use crate::hexadecimal::hex_value;
use crate::hexadecimal::spells;
use crate::hexadecimal::HexError;
use crate::text::concat;
use crate::hexadecimal::digits_spell_pair_by_pair;
use crate::hexadecimal::first_bad_digits_are_unique;
use crate::hexadecimal::debug_char_text;
use crate::text::decimal;
use vstd::prelude::*;
use vstd::utf8::encode_utf8;

verus! {

/// The first byte of a signaling datagram; never the first byte of a QUIC
/// packet, whose fixed bit is set.
pub const SIGNAL_PREFIX: u8 = 0x00;

pub const ID_LENGTH: &'static str = "endpoint id is not 32 bytes";

pub const CLIENT_NEEDS_PEER: &'static str =
    "the client role requires the server's endpoint id (peer)";

pub const NO_SIGNALING_PEER: &'static str = "no signaling peer yet";

pub const UNPAIRED: &'static str = "signaling completed without a peer";

pub const SECOND_OFFER: &'static str = "unexpected second offer";

pub const CLOSED_EARLY: &'static str = "data channel closed before opening";

pub const NO_CHANNEL: &'static str = "no incoming data channel";

pub const NO_EXPECTED_PEER: &'static str = "finished without an expected peer identity";

pub const PEER_DIFFERS: &'static str =
    "authenticated peer key differs from the relay-authenticated one";

/// The text about an endpoint ID that is not hexadecimal.
pub open spec fn bad_id_text(error: HexError) -> Seq<char> {
    "bad endpoint id: "@ + hex_error_text(error)
}

/// `message` says why `text` is no endpoint ID: an odd number of digits, the
/// first character that is no digit, or a wrong length.
pub open spec fn is_id_refusal(text: Seq<char>, message: Seq<char>) -> bool {
    let digits = encode_utf8(text);
    ||| digits.len() % 2 == 1 && message == bad_id_text(HexError::OddLength)
    ||| digits.len() % 2 == 0 && exists|i: usize, c: char| #[trigger]
        first_bad(digits, i as int) && c as int == digits[i as int] && message
            == #[trigger] bad_id_text(HexError::InvalidCharacter { c, index: i })
    ||| digits.len() != 64 && (exists|bytes: Seq<u8>| #[trigger] spells(digits, bytes)) && message
        == ID_LENGTH@
}

/// The endpoint ID in a hexadecimal text.
pub fn parse_endpoint_id(text: &str) -> (id: Result<Id, String>)
    ensures
        match id {
            Ok(id) => encode_utf8(text@).len() == 64 && spells(encode_utf8(text@), id@),
            Err(message) => is_id_refusal(text@, message@),
        },
{
    match hex_decode(text) {
        Err(error) => {
            let detail: String = error.message();
            let message: String = concat("bad endpoint id: ", detail.as_str());
            assert(message@ == bad_id_text(error));
            Err(message)
        },
        Ok(bytes) => {
            if bytes.len() != 32 {
                assert(spells(encode_utf8(text@), bytes@));
                return Err(ID_LENGTH.to_owned());
            }
            let id: Id = array_at::<32>(bytes.as_slice(), 0);
            assert(id@ =~= bytes@);
            Ok(id)
        },
    }
}

/// A failure of the WebRTC host, described.
pub fn rtc(detail: &str) -> (text: String)
    ensures
        text@ == "webrtc: "@ + detail@,
{
    concat("webrtc: ", detail)
}

/// How a data channel is set up.
pub struct DataChannelOptions {
    pub label: String,
    pub ordered: bool,
    pub max_retransmits: Option<u16>,
}

/// The channel configuration QUIC needs from the wire: a datagram carrier.
/// Unordered, zero retransmissions; losses and reordering are QUIC's to
/// handle.
pub fn quic_channel_options() -> (options: DataChannelOptions)
    ensures
        options.label@ == "quic"@,
        !options.ordered,
        options.max_retransmits == Some(0u16),
{
    DataChannelOptions { label: "quic".to_owned(), ordered: false, max_retransmits: Some(0) }
}

/// One message of the signaling exchange. Identities travel in none: the
/// relay authenticates each datagram's source.
pub enum Signal {
    Offer { sdp: String },
    Answer { sdp: String },
    Candidate(Candidate),
    EndOfCandidates,
    /// The end of one side's signals.
    Done,
}

/// An ICE candidate.
pub struct Candidate {
    pub candidate: String,
    pub sdp_mid: Option<String>,
    pub sdp_mline_index: Option<u16>,
}

/// WebRTC signaling carried as relay datagrams: one JSON signal per
/// datagram, marked by a leading zero byte, addressed to, and filtered by,
/// the relay-authenticated peer.
#[derive(Clone, Copy)]
pub struct Signaling {
    /// The signaling peer: preset on the client, learned from the first
    /// datagram's source on the server.
    pub peer: Option<Id>,
}

/// The peer that signaling is bound to after a datagram from `source`.
pub open spec fn bound_peer(peer: Option<Id>, source: Id) -> Option<Id> {
    match peer {
        Some(bound) => Some(bound),
        None => Some(source),
    }
}

/// The datagram that carries a signal: the prefix, then the JSON.
pub open spec fn signal_datagram(json: Seq<u8>) -> Seq<u8> {
    seq![SIGNAL_PREFIX] + json
}

/// The JSON in a datagram from `source`, to a side whose peer is `peer`:
/// nothing where it is from somebody else, or has no prefix.
pub open spec fn signal_in(peer: Option<Id>, source: Id, payload: Seq<u8>) -> Option<Seq<u8>> {
    if peer == Some(source) && payload.len() > 0 && payload[0] == SIGNAL_PREFIX {
        Some(payload.drop_first())
    } else {
        None
    }
}

impl Signaling {
    /// Whom a signal goes to, and its datagram: the prefix, then the JSON.
    pub fn publish(&self, json: &[u8]) -> (datagram: Result<(Id, Vec<u8>), String>)
        ensures
            match datagram {
                Ok((to, payload)) => self.peer == Some(to) && payload@ == signal_datagram(json@),
                Err(text) => self.peer is None && text@ == NO_SIGNALING_PEER@,
            },
    {
        match self.peer {
            None => Err(NO_SIGNALING_PEER.to_owned()),
            Some(peer) => {
                let mut payload: Vec<u8> = Vec::new();
                payload.push(SIGNAL_PREFIX);
                append_range(&mut payload, json, 0, json.len());
                assert(payload@ =~= signal_datagram(json@));
                Ok((peer, payload))
            },
        }
    }

    /// The JSON of a signal from the peer, or nothing for a datagram that is
    /// none: from somebody else, or without the prefix. The first datagram
    /// binds the peer.
    pub fn recv(&mut self, source: Id, payload: &[u8]) -> (json: Option<Vec<u8>>)
        ensures
            final(self).peer == bound_peer(old(self).peer, source),
            match json {
                Some(json) => signal_in(final(self).peer, source, payload@) == Some(json@),
                None => signal_in(final(self).peer, source, payload@) is None,
            },
    {
        match self.peer {
            None => {
                self.peer = Some(source);
            },
            Some(expected) => {
                if !same_id(&expected, &source) {
                    return None;
                }
            },
        }
        if payload.len() == 0 || payload[0] != SIGNAL_PREFIX {
            return None;
        }
        let json: Vec<u8> = copy_range(payload, 1, payload.len());
        assert(json@ =~= payload@.drop_first());
        Some(json)
    }
}

/// A published signal is received as the same JSON by a side that is bound to
/// its sender or to nobody yet, and by no other.
pub proof fn signals_arrive(peer: Option<Id>, source: Id, json: Seq<u8>)
    ensures
        signal_in(bound_peer(peer, source), source, signal_datagram(json)) == (if peer is None
            || peer == Some(source) {
            Some(json)
        } else {
            None
        }),
{
    assert(signal_datagram(json).drop_first() =~= json);
}

/// What a received signal asks of the side that is consuming signals.
pub enum Consumed {
    /// Apply the answer.
    SetAnswer(String),
    AddCandidate(Candidate),
    Nothing,
    /// The peer has said everything.
    End,
    /// A second offer: the exchange fails.
    Failed(String),
}

/// Take one of the peer's signals.
pub fn consume_signal(signal: Signal) -> (consumed: Consumed)
    ensures
        match signal {
            Signal::Answer { sdp } => consumed matches Consumed::SetAnswer(text) && text@ == sdp@,
            Signal::Offer { .. } => consumed matches Consumed::Failed(text) && text@
                == SECOND_OFFER@,
            Signal::Candidate(candidate) => consumed == Consumed::AddCandidate(candidate),
            Signal::EndOfCandidates => consumed is Nothing,
            Signal::Done => consumed is End,
        },
{
    match signal {
        Signal::Answer { sdp } => Consumed::SetAnswer(sdp),
        Signal::Offer { .. } => Consumed::Failed(SECOND_OFFER.to_owned()),
        Signal::Candidate(candidate) => Consumed::AddCandidate(candidate),
        Signal::EndOfCandidates => Consumed::Nothing,
        Signal::Done => Consumed::End,
    }
}

/// The offer that an answerer waits for; `None` stands for the peer having
/// said everything, and `shown` renders what came instead.
pub fn expect_offer(signal: Option<Signal>, shown: &str) -> (sdp: Result<String, String>)
    ensures
        match signal {
            Some(Signal::Offer { sdp: offered }) => sdp matches Ok(text) && text@ == offered@,
            _ => sdp matches Err(text) && text@ == "expected offer, got "@ + shown@,
        },
{
    match signal {
        Some(Signal::Offer { sdp }) => Ok(sdp),
        _ => Err(concat("expected offer, got ", shown)),
    }
}

/// The signals that carry a side's candidates: each one, then the end mark.
pub fn publish_candidates(candidates: Vec<Candidate>) -> (signals: Vec<Signal>)
    ensures
        signals@.len() == candidates@.len() + 1,
        forall|i: int|
            0 <= i < candidates@.len() ==> #[trigger] signals@[i] == Signal::Candidate(
                candidates@[i],
            ),
        signals@[candidates@.len() as int] is EndOfCandidates,
{
    let ghost whole = candidates@;
    let mut rest: Vec<Candidate> = candidates;
    let mut reversed: Vec<Candidate> = Vec::new();
    while rest.len() > 0
        invariant
            rest@.len() + reversed@.len() == whole.len(),
            rest@ == whole.take(rest@.len() as int),
            forall|i: int|
                0 <= i < reversed@.len() ==> #[trigger] reversed@[i] == whole[whole.len() - 1 - i],
        decreases rest@.len(),
    {
        match rest.pop() {
            Some(candidate) => {
                reversed.push(candidate);
            },
            None => {},
        }
        assert(rest@ =~= whole.take(rest@.len() as int));
    }
    let mut signals: Vec<Signal> = Vec::new();
    while reversed.len() > 0
        invariant
            signals@.len() + reversed@.len() == whole.len(),
            forall|i: int|
                0 <= i < reversed@.len() ==> #[trigger] reversed@[i] == whole[whole.len() - 1 - i],
            forall|i: int|
                0 <= i < signals@.len() ==> #[trigger] signals@[i] == Signal::Candidate(whole[i]),
        decreases reversed@.len(),
    {
        match reversed.pop() {
            Some(candidate) => {
                signals.push(Signal::Candidate(candidate));
            },
            None => {},
        }
    }
    signals.push(Signal::EndOfCandidates);
    signals
}

/// A data channel's state.
#[derive(Clone, Copy, PartialEq, Eq, Structural)]
pub enum ChannelState {
    Connecting,
    Open,
    Closing,
    Closed,
}

/// Whether a channel that is being waited for is open, is lost, or still
/// neither.
pub enum ChannelWait {
    Open,
    Failed(String),
    Again,
}

fn saw(batch: &Vec<ChannelState>, state: ChannelState) -> (seen: bool)
    ensures
        seen == batch@.contains(state),
{
    let mut i: usize = 0;
    while i < batch.len()
        invariant
            i <= batch@.len(),
            forall|j: int| 0 <= j < i ==> batch@[j] != state,
        decreases batch@.len() - i,
    {
        if batch[i] == state {
            assert(batch@[i as int] == state);
            return true;
        }
        i = i + 1;
    }
    false
}

/// The first flight must not race the answerer's still-forming channel, so
/// the offerer waits for the channel to open. `ended` says that no further
/// states will be reported.
pub fn wait_open(batch: &Vec<ChannelState>, ended: bool) -> (wait: ChannelWait)
    ensures
        if batch@.contains(ChannelState::Open) {
            wait is Open
        } else if batch@.contains(ChannelState::Closed) || ended {
            wait matches ChannelWait::Failed(text) && text@ == CLOSED_EARLY@
        } else {
            wait is Again
        },
{
    if saw(batch, ChannelState::Open) {
        ChannelWait::Open
    } else if saw(batch, ChannelState::Closed) || ended {
        ChannelWait::Failed(CLOSED_EARLY.to_owned())
    } else {
        ChannelWait::Again
    }
}

/// The answerer takes the first channel that the offerer created.
pub fn take_channel(incoming: usize) -> (taken: Result<usize, String>)
    ensures
        match taken {
            Ok(index) => incoming > 0 && index == 0,
            Err(text) => incoming == 0 && text@ == NO_CHANNEL@,
        },
{
    if incoming == 0 {
        Err(NO_CHANNEL.to_owned())
    } else {
        Ok(0)
    }
}

// The run.

/// Which side of the demo to drive.
#[derive(Clone, Copy, Debug, PartialEq, Eq, Structural)]
pub enum DemoRole {
    Client,
    Server,
}

/// Which wire to run QUIC over.
#[derive(Clone, Copy, Debug, PartialEq, Eq, Structural)]
pub enum Transport {
    Webrtc,
    Relay,
}

/// What a run was asked to do.
pub struct RunConfig {
    pub role: DemoRole,
    pub transport: Transport,
    pub server: String,
    /// The peer's endpoint ID in hexadecimal.
    pub peer: Option<String>,
    pub message: String,
}

/// What a run reports.
pub struct RunReport {
    pub endpoint_id: String,
    pub peer_id: String,
    pub handshake_ms: u64,
    pub roundtrip_ms: u64,
    pub received: String,
}

/// The demo.
pub struct Component;

/// `text` spells the identity `id`.
pub open spec fn is_id_text(text: Seq<char>, id: Id) -> bool {
    encode_utf8(text).len() == 64 && spells(encode_utf8(text), id@)
}

/// The identity the finished connection has to have: the one dialed, or the
/// one signaled with, or the one the wire was bound to.
pub open spec fn expected_peer(
    dialed: Option<Id>,
    signaled: Option<Id>,
    bound: Option<Id>,
) -> Option<Id> {
    if dialed is Some {
        dialed
    } else if signaled is Some {
        signaled
    } else {
        bound
    }
}

impl Component {
    /// The peer a run was given: a client needs one.
    pub fn check_config(config: &RunConfig) -> (peer: Result<Option<Id>, String>)
        ensures
            match peer {
                Ok(None) => config.peer is None && config.role == DemoRole::Server,
                Ok(Some(id)) => config.peer matches Some(text) && is_id_text(text@, id),
                Err(message) => match config.peer {
                    None => config.role == DemoRole::Client && message@ == CLIENT_NEEDS_PEER@,
                    Some(text) => is_id_refusal(text@, message@) && forall|id: Id|
                        !#[trigger] is_id_text(text@, id),
                },
            },
    {
        match &config.peer {
            Some(text) => {
                let parsed: Result<Id, String> = parse_endpoint_id(text.as_str());
                match parsed {
                    Ok(id) => Ok(Some(id)),
                    Err(message) => {
                        proof {
                            unparsable(text@);
                        }
                        Err(message)
                    },
                }
            },
            None => {
                if config.role == DemoRole::Client {
                    Err(CLIENT_NEEDS_PEER.to_owned())
                } else {
                    Ok(None)
                }
            },
        }
    }

    /// The peer that completed signaling.
    pub fn signaled_peer(signaling: &Signaling) -> (peer: Result<Id, String>)
        ensures
            match peer {
                Ok(id) => signaling.peer == Some(id),
                Err(text) => signaling.peer is None && text@ == UNPAIRED@,
            },
    {
        match signaling.peer {
            Some(id) => Ok(id),
            None => Err(UNPAIRED.to_owned()),
        }
    }

    /// The wire to run QUIC over.
    pub fn wire(config: &RunConfig, peer: Option<Id>) -> (wire: Wire)
        ensures
            wire == (match config.transport {
                Transport::Webrtc => Wire::Channel,
                Transport::Relay => Wire::Relay { peer },
            }),
    {
        match config.transport {
            Transport::Webrtc => Wire::Channel,
            Transport::Relay => Wire::Relay { peer },
        }
    }

    /// The half of the echo to drive.
    pub fn endpoint_role(config: &RunConfig) -> (role: echo::Role)
        ensures
            match config.role {
                DemoRole::Client => role matches echo::Role::Client { message } && message@
                    == config.message@,
                DemoRole::Server => role is Server,
            },
    {
        match config.role {
            DemoRole::Client => echo::Role::Client { message: config.message.clone() },
            DemoRole::Server => echo::Role::Server,
        }
    }

    /// Conclude a run: the handshake authenticated the peer's key, the relay
    /// only authenticated who relayed frames. They must agree.
    pub fn run(
        own_id: &Id,
        dialed: Option<Id>,
        signaled: Option<Id>,
        bound: Option<Id>,
        outcome: Outcome,
    ) -> (report: Result<RunReport, String>)
        ensures
            match report {
                Ok(report) => {
                    &&& expected_peer(dialed, signaled, bound) == Some(outcome.peer_id)
                    &&& report.endpoint_id@ == hex_text(own_id@)
                    &&& report.peer_id@ == hex_text(outcome.peer_id@)
                    &&& report.handshake_ms == outcome.handshake_ms
                    &&& report.roundtrip_ms == outcome.roundtrip_ms
                    &&& report.received@ == outcome.received@
                },
                Err(text) => if expected_peer(dialed, signaled, bound) is None {
                    text@ == NO_EXPECTED_PEER@
                } else {
                    expected_peer(dialed, signaled, bound) != Some(outcome.peer_id) && text@
                        == PEER_DIFFERS@
                },
            },
    {
        let expected: Option<Id> = if dialed.is_some() {
            dialed
        } else if signaled.is_some() {
            signaled
        } else {
            bound
        };
        let expected: Id = match expected {
            Some(id) => id,
            None => {
                return Err(NO_EXPECTED_PEER.to_owned());
            },
        };
        if !same_id(&outcome.peer_id, &expected) {
            return Err(PEER_DIFFERS.to_owned());
        }
        Ok(
            RunReport {
                endpoint_id: hex_encode(own_id.as_slice()),
                peer_id: hex_encode(outcome.peer_id.as_slice()),
                handshake_ms: outcome.handshake_ms,
                roundtrip_ms: outcome.roundtrip_ms,
                received: outcome.received,
            },
        )
    }
}

/// A text that was refused spells no identity.
proof fn unparsable(text: Seq<char>)
    requires
        ({
            let digits = encode_utf8(text);
            ||| digits.len() != 64
            ||| exists|i: usize| #[trigger] first_bad(digits, i as int)
        }),
    ensures
        forall|id: Id| !#[trigger] is_id_text(text, id),
{
    let digits = encode_utf8(text);
    assert forall|id: Id| !#[trigger] is_id_text(text, id) by {
        if is_id_text(text, id) {
            let i = choose|i: usize| #[trigger] first_bad(digits, i as int);
            let k = (i as int) / 2;
            let byte = id@[k];
            assert(hex_value(digits[2 * k]) is Some && hex_value(digits[2 * k + 1]) is Some);
            assert(2 * k == i || 2 * k + 1 == i);
        }
    }
}

/// A refusal tells why: an odd number of digits first, then the first
/// character that is no digit, then the length.
pub proof fn refusals_tell_why(text: Seq<char>, message: Seq<char>, i: usize, c: char)
    requires
        is_id_refusal(text, message),
    ensures
        ({
            let digits = encode_utf8(text);
            &&& digits.len() % 2 == 1 ==> message == "bad endpoint id: "@
                + "Odd number of digits"@
            &&& digits.len() % 2 == 0 && first_bad(digits, i as int) && c as int
                == digits[i as int] ==> message == "bad endpoint id: "@ + ("Invalid character "@
                + debug_char_text(c) + " at position "@ + decimal(i as nat))
            &&& digits.len() % 2 == 0 && (forall|j: int| !#[trigger] first_bad(digits, j))
                ==> digits.len() != 64 && message == "endpoint id is not 32 bytes"@
        }),
{
    let digits = encode_utf8(text);
    if digits.len() % 2 == 0 && first_bad(digits, i as int) && c as int == digits[i as int] {
        if exists|bytes: Seq<u8>| #[trigger] spells(digits, bytes) {
            let bytes = choose|bytes: Seq<u8>| #[trigger] spells(digits, bytes);
            digits_spell_pair_by_pair(digits, bytes, i as int / 2);
        }
        let (j, d) = choose|j: usize, d: char| #[trigger]
            first_bad(digits, j as int) && d as int == digits[j as int] && message
                == #[trigger] bad_id_text(HexError::InvalidCharacter { c: d, index: j });
        first_bad_digits_are_unique(digits, i as int, j as int);
    }
    if exists|bytes: Seq<u8>| #[trigger] spells(digits, bytes) {
        let bytes = choose|bytes: Seq<u8>| #[trigger] spells(digits, bytes);
        assert(digits.len() == 2 * bytes.len());
    }
}

/// An identity's text holds 64 digits, two for each byte, the higher half
/// first.
pub proof fn identities_are_spelled_in_pairs(text: Seq<char>, id: Id, i: int)
    requires
        is_id_text(text, id),
        0 <= i < 32,
    ensures
        ({
            let digits = encode_utf8(text);
            &&& digits.len() == 64
            &&& hex_value(digits[2 * i]) is Some
            &&& hex_value(digits[2 * i + 1]) is Some
            &&& id@[i] == 16 * hex_value(digits[2 * i])->0 + hex_value(digits[2 * i + 1])->0
        }),
{
    digits_spell_pair_by_pair(encode_utf8(text), id@, i);
}

/// Signaling stays with the first peer it met.
pub proof fn signaling_stays_with_its_first_peer(peer: Id, source: Id)
    ensures
        bound_peer(None, source) == Some(source),
        bound_peer(Some(peer), source) == Some(peer),
{
}

/// A signal's datagram, byte by byte: a zero, then the JSON.
pub proof fn signal_datagrams_byte_by_byte(json: Seq<u8>, i: int)
    ensures
        signal_datagram(json).len() == json.len() + 1,
        signal_datagram(json)[0] == 0x00,
        0 <= i < json.len() ==> signal_datagram(json)[1 + i] == json[i],
{
}

/// A datagram holds a signal exactly if it is from the peer and begins with a
/// zero; the signal is every byte behind that.
pub proof fn signals_are_the_peers_marked_datagrams(
    peer: Option<Id>,
    source: Id,
    payload: Seq<u8>,
    i: int,
)
    ensures
        signal_in(peer, source, payload) is Some <==> peer == Some(source) && payload.len() > 0
            && payload[0] == 0x00,
        signal_in(peer, source, payload) matches Some(json) ==> {
            &&& json.len() == payload.len() - 1
            &&& 0 <= i < json.len() ==> json[i] == payload[1 + i]
        },
{
}

/// The peer that was dialed has to be met; failing that, the one that was
/// signaled with; failing that, the one that the wire was bound to.
pub proof fn expected_peers_take_precedence(signaled: Option<Id>, bound: Option<Id>, id: Id)
    ensures
        expected_peer(Some(id), signaled, bound) == Some(id),
        expected_peer(None, Some(id), bound) == Some(id),
        expected_peer(None, None, Some(id)) == Some(id),
        expected_peer(None, None, None) is None,
{
}

/// The texts of the demo's refusals.
pub proof fn texts_of_the_demo()
    ensures
        SIGNAL_PREFIX == 0x00,
        CLIENT_NEEDS_PEER@ == "the client role requires the server's endpoint id (peer)"@,
        NO_SIGNALING_PEER@ == "no signaling peer yet"@,
        UNPAIRED@ == "signaling completed without a peer"@,
        SECOND_OFFER@ == "unexpected second offer"@,
        CLOSED_EARLY@ == "data channel closed before opening"@,
        NO_CHANNEL@ == "no incoming data channel"@,
        NO_EXPECTED_PEER@ == "finished without an expected peer identity"@,
        PEER_DIFFERS@ == "authenticated peer key differs from the relay-authenticated one"@,
{
}

} // verus!
