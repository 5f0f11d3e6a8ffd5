//! A client's side of an iroh relay connection: authenticate, then exchange
//! datagrams addressed by endpoint ID.

use crate::addr::Id;
use crate::bytes::array_at;
use crate::bytes::copy_range;
use crate::relay_frames::attributed;
use crate::relay_frames::client_auth_frame;
use crate::relay_frames::client_datagram_frame;
use crate::relay_frames::datagram_list;
use crate::relay_frames::decode_denial_reason;
use crate::relay_frames::decode_relay_datagrams;
use crate::relay_frames::denial_text;
use crate::relay_frames::encode_client_auth;
use crate::relay_frames::encode_client_datagram;
use crate::relay_frames::encode_pong;
use crate::relay_frames::pong_frame;
use crate::relay_frames::relayed_payloads;
use crate::relay_frames::split_tag;
use crate::relay_frames::Datagram;
use crate::relay_frames::CHALLENGE_DOMAIN;
use crate::relay_frames::PING;
use crate::relay_frames::RELAY_PATH;
use crate::relay_frames::RELAY_TO_CLIENT_DATAGRAM;
use crate::relay_frames::RELAY_TO_CLIENT_DATAGRAM_BATCH;
use crate::relay_frames::SERVER_CHALLENGE;
use crate::relay_frames::SERVER_CONFIRMS_AUTH;
use crate::relay_frames::SERVER_DENIES_AUTH;
use crate::text::before;
use crate::text::concat;
use crate::text::debug_string;
use crate::text::debug_text;
use crate::text::decimal;
use crate::text::decimal_string;
use crate::text::same_text;
use crate::text::split_once;
use crate::text::split_once_spec;
use crate::text::up_to;
use std::collections::VecDeque;
use crate::text::before_is_the_longest_start;
use crate::text::split_once_is_at_the_first;
use crate::relay_frames::batches_are_cut_by_their_segment_size;
use vstd::prelude::*;
use vstd::string::*;

verus! {

pub const EMPTY_FRAME: &'static str = "relay handshake: empty frame";

pub const MALFORMED_CHALLENGE: &'static str = "relay handshake: malformed challenge";

pub const SIGNATURE_LENGTH: &'static str = "identity produced a non-64-byte signature";

/// BLAKE3 of `material` under `context`, in key-derivation mode.
pub uninterp spec fn blake3_derived(context: Seq<char>, material: Seq<u8>) -> Seq<u8>;

/// `blake3::derive_key`: a function of the context and the material alone.
#[verifier::external_body]
pub(crate) fn derive_key(context: &str, material: &[u8]) -> (key: [u8; 32])
    ensures
        key@ == blake3_derived(context@, material@),
{
    blake3::derive_key(context, material)
}

/// The scheme of the websocket URL for a server URL's scheme.
pub open spec fn websocket_scheme(scheme: Seq<char>) -> Seq<char> {
    if scheme == "http"@ || scheme == "ws"@ {
        "ws"@
    } else {
        "wss"@
    }
}

/// The websocket URL of a relay, or why there is none.
pub open spec fn relay_url_spec(server: Seq<char>) -> Result<Seq<char>, Seq<char>> {
    match split_once_spec(server, "://"@) {
        None => Err("relay url "@ + debug_text(server) + " has no scheme"@),
        Some((scheme, rest)) => if before(rest, '/').len() == 0 {
            Err("relay url "@ + debug_text(server) + " has no host"@)
        } else {
            Ok(websocket_scheme(scheme) + "://"@ + before(rest, '/') + RELAY_PATH@)
        },
    }
}

fn url_problem(server: &str, problem: &str) -> (text: String)
    ensures
        text@ == "relay url "@ + debug_text(server@) + problem@,
{
    let shown: String = debug_string(server);
    let mut text: String = concat("relay url ", shown.as_str());
    text.append(problem);
    text
}

/// The websocket URL for `server`'s relay endpoint: scheme mapped onto
/// `ws`/`wss`, the host, and the relay path.
pub fn relay_url(server: &str) -> (url: Result<String, String>)
    ensures
        match url {
            Ok(url) => relay_url_spec(server@) == Ok::<Seq<char>, Seq<char>>(url@),
            Err(text) => relay_url_spec(server@) == Err::<Seq<char>, Seq<char>>(text@),
        },
{
    match split_once(server, "://") {
        None => Err(url_problem(server, " has no scheme")),
        Some((scheme, rest)) => {
            let plain: bool = same_text(scheme.as_str(), "http") || same_text(
                scheme.as_str(),
                "ws",
            );
            let host: String = up_to(rest.as_str(), '/');
            if host.as_str().unicode_len() == 0 {
                return Err(url_problem(server, " has no host"));
            }
            let mut url: String = if plain {
                "ws".to_owned()
            } else {
                "wss".to_owned()
            };
            url.append("://");
            url.append(host.as_str());
            url.append(RELAY_PATH);
            Ok(url)
        },
    }
}

/// What the next message of the handshake asks for.
pub enum HandshakeStep {
    /// Nothing: wait for the next message.
    Wait,
    /// Sign this message with the identity key.
    Sign([u8; 32]),
    /// The relay accepted the client.
    Authenticated,
    Failed(String),
}

/// The step that a message asks for: text is skipped, a challenge is hashed
/// to be signed, a confirmation ends the handshake, and everything else
/// fails it.
pub open spec fn handshake_fits(message: Option<Seq<u8>>, step: HandshakeStep) -> bool {
    match message {
        None => step is Wait,
        Some(frame) => if frame.len() == 0 {
            step matches HandshakeStep::Failed(text) && text@ == EMPTY_FRAME@
        } else if frame[0] == SERVER_CHALLENGE {
            if frame.len() == 17 {
                step matches HandshakeStep::Sign(m) && m@ == blake3_derived(
                    CHALLENGE_DOMAIN@,
                    frame.drop_first(),
                )
            } else {
                step matches HandshakeStep::Failed(text) && text@ == MALFORMED_CHALLENGE@
            }
        } else if frame[0] == SERVER_CONFIRMS_AUTH {
            step is Authenticated
        } else if frame[0] == SERVER_DENIES_AUTH {
            step matches HandshakeStep::Failed(text) && text@ == "relay denied auth: "@
                + denial_text(frame.drop_first())
        } else {
            step matches HandshakeStep::Failed(text) && text@
                == "relay handshake: unexpected frame type "@ + decimal(frame[0] as nat)
        },
    }
}

/// A websocket message as the relay client reads it: the bytes of a binary
/// one, nothing of a text one.
pub open spec fn message_view(message: Option<Vec<u8>>) -> Option<Seq<u8>> {
    match message {
        Some(frame) => Some(frame@),
        None => None,
    }
}

/// Take a message of the authentication handshake.
pub fn handshake_step(message: &Option<Vec<u8>>) -> (step: HandshakeStep)
    ensures
        handshake_fits(message_view(*message), step),
{
    let frame: &Vec<u8> = match message {
        None => {
            return HandshakeStep::Wait;
        },
        Some(frame) => frame,
    };
    let len: usize = frame.len();
    let tag: u8 = match split_tag(frame.as_slice()) {
        None => {
            return HandshakeStep::Failed(EMPTY_FRAME.to_owned());
        },
        Some(tag) => tag,
    };
    if tag == SERVER_CHALLENGE {
        if len != 17 {
            return HandshakeStep::Failed(MALFORMED_CHALLENGE.to_owned());
        }
        let challenge: [u8; 16] = array_at::<16>(frame.as_slice(), 1);
        assert(challenge@ =~= frame@.drop_first());
        HandshakeStep::Sign(derive_key(CHALLENGE_DOMAIN, challenge.as_slice()))
    } else if tag == SERVER_CONFIRMS_AUTH {
        HandshakeStep::Authenticated
    } else if tag == SERVER_DENIES_AUTH {
        let payload: Vec<u8> = copy_range(frame.as_slice(), 1, len);
        assert(payload@ =~= frame@.drop_first());
        let reason: String = decode_denial_reason(payload.as_slice());
        HandshakeStep::Failed(concat("relay denied auth: ", reason.as_str()))
    } else {
        let number: String = decimal_string(tag as u64);
        HandshakeStep::Failed(concat("relay handshake: unexpected frame type ", number.as_str()))
    }
}

/// The frame that answers a challenge with `signature`.
pub fn answer_challenge(id: &Id, signature: &[u8]) -> (frame: Result<Vec<u8>, String>)
    ensures
        match frame {
            Ok(frame) => signature@.len() == 64 && frame@ == client_auth_frame(id@, signature@),
            Err(text) => signature@.len() != 64 && text@ == SIGNATURE_LENGTH@,
        },
{
    if signature.len() != 64 {
        return Err(SIGNATURE_LENGTH.to_owned());
    }
    let bytes: [u8; 64] = array_at::<64>(signature, 0);
    assert(bytes@ =~= signature@);
    Ok(encode_client_auth(id, &bytes))
}

/// Where a relay connection failed.
pub enum RelayFault {
    Connect(String),
    Handshake(String),
    Receive(String),
    Send(String),
    Pong(String),
}

/// The text of a relay fault.
pub open spec fn fault_text(fault: RelayFault) -> Seq<char> {
    match fault {
        RelayFault::Connect(detail) => "relay connect: "@ + detail@,
        RelayFault::Handshake(detail) => "relay handshake: "@ + detail@,
        RelayFault::Receive(detail) => "relay: "@ + detail@,
        RelayFault::Send(detail) => "relay send: "@ + detail@,
        RelayFault::Pong(detail) => "relay pong: "@ + detail@,
    }
}

/// The text of a relay fault.
pub fn fault_message(fault: RelayFault) -> (text: String)
    ensures
        text@ == fault_text(fault),
{
    match fault {
        RelayFault::Connect(detail) => concat("relay connect: ", detail.as_str()),
        RelayFault::Handshake(detail) => concat("relay handshake: ", detail.as_str()),
        RelayFault::Receive(detail) => concat("relay: ", detail.as_str()),
        RelayFault::Send(detail) => concat("relay send: ", detail.as_str()),
        RelayFault::Pong(detail) => concat("relay pong: ", detail.as_str()),
    }
}

/// An authenticated relay client's receiving side: datagrams decoded but not
/// yet delivered (a batch frame carries several).
pub struct RelayConn {
    pub pending: VecDeque<Datagram>,
}

/// What a received message adds to the datagrams waiting for delivery.
pub open spec fn arrivals(message: Option<Seq<u8>>) -> Seq<(Seq<u8>, Seq<u8>)> {
    match message {
        Some(frame) => if frame.len() > 0 && (frame[0] == RELAY_TO_CLIENT_DATAGRAM || frame[0]
            == RELAY_TO_CLIENT_DATAGRAM_BATCH) {
            match relayed_payloads(
                frame.drop_first(),
                frame[0] == RELAY_TO_CLIENT_DATAGRAM_BATCH,
            ) {
                Some(payloads) => attributed(frame.subrange(1, 33), payloads),
                None => Seq::empty(),
            }
        } else {
            Seq::empty()
        },
        None => Seq::empty(),
    }
}

/// The message is a ping.
pub open spec fn is_ping(message: Option<Seq<u8>>) -> bool {
    message matches Some(frame) && frame.len() == 9 && frame[0] == PING
}

impl View for RelayConn {
    type V = Seq<(Seq<u8>, Seq<u8>)>;

    open spec fn view(&self) -> Seq<(Seq<u8>, Seq<u8>)> {
        datagram_list(self.pending@)
    }
}

impl RelayConn {
    /// A connection that has just been authenticated.
    pub fn new() -> (conn: Self)
        ensures
            conn@ == Seq::<(Seq<u8>, Seq<u8>)>::empty(),
    {
        let conn = RelayConn { pending: VecDeque::new() };
        assert(conn@ =~= Seq::<(Seq<u8>, Seq<u8>)>::empty());
        conn
    }

    /// The next datagram waiting for delivery.
    pub fn next_datagram(&mut self) -> (datagram: Option<Datagram>)
        ensures
            match datagram {
                Some(datagram) => old(self)@.len() > 0 && (datagram.source@, datagram.payload@)
                    == old(self)@[0] && final(self)@ == old(self)@.drop_first(),
                None => old(self)@.len() == 0 && final(self)@ == old(self)@,
            },
    {
        if self.pending.len() == 0 {
            return None;
        }
        let datagram: Option<Datagram> = self.pending.pop_front();
        assert(self@ =~= old(self)@.drop_first());
        datagram
    }

    /// Take a message off the connection: datagrams join the waiting ones, a
    /// ping asks for the returned frame to be sent, and everything else
    /// (status, pongs, departed peers, malformed frames, text) is skipped.
    pub fn recv_datagram(&mut self, message: &Option<Vec<u8>>) -> (reply: Option<Vec<u8>>)
        ensures
            final(self)@ == old(self)@ + arrivals(message_view(*message)),
            match reply {
                Some(frame) => is_ping(message_view(*message)) && frame@ == pong_frame(
                    message_view(*message)->0.drop_first(),
                ),
                None => !is_ping(message_view(*message)),
            },
    {
        let ghost seen = message_view(*message);
        let frame: &Vec<u8> = match message {
            None => {
                assert(self@ =~= old(self)@ + arrivals(seen));
                return None;
            },
            Some(frame) => frame,
        };
        let len: usize = frame.len();
        let tag: u8 = match split_tag(frame.as_slice()) {
            None => {
                assert(self@ =~= old(self)@ + arrivals(seen));
                return None;
            },
            Some(tag) => tag,
        };
        if tag == RELAY_TO_CLIENT_DATAGRAM || tag == RELAY_TO_CLIENT_DATAGRAM_BATCH {
            let batch: bool = tag == RELAY_TO_CLIENT_DATAGRAM_BATCH;
            let payload: Vec<u8> = copy_range(frame.as_slice(), 1, len);
            assert(payload@ =~= frame@.drop_first());
            match decode_relay_datagrams(payload.as_slice(), batch) {
                Some(list) => {
                    assert(payload@.take(32) =~= frame@.subrange(1, 33));
                    self.extend(list);
                    assert(self@ =~= old(self)@ + arrivals(seen));
                },
                None => {
                    assert(self@ =~= old(self)@ + arrivals(seen));
                },
            }
            None
        } else {
            assert(self@ =~= old(self)@ + arrivals(seen));
            if tag == PING && len == 9 {
                let ping: [u8; 8] = array_at::<8>(frame.as_slice(), 1);
                assert(ping@ =~= frame@.drop_first());
                return Some(encode_pong(&ping));
            }
            None
        }
    }

    /// Append `list` to the waiting datagrams, in order.
    fn extend(&mut self, list: Vec<Datagram>)
        ensures
            final(self)@ == old(self)@ + datagram_list(list@),
    {
        let mut tail: VecDeque<Datagram> = VecDeque::new();
        let mut list: Vec<Datagram> = list;
        let ghost whole = list@;
        while list.len() > 0
            invariant
                list@ + tail@ =~= whole,
                self@ == old(self)@,
            decreases list@.len(),
        {
            match list.pop() {
                Some(last) => {
                    tail.push_front(last);
                },
                None => {},
            }
        }
        assert(tail@ =~= whole);
        self.pending.append(&mut tail);
        assert(self@ =~= old(self)@ + datagram_list(whole));
    }

    /// The frame that carries `payload` to `dst`.
    pub fn send_datagram(dst: &Id, payload: &[u8]) -> (frame: Vec<u8>)
        ensures
            frame@ == client_datagram_frame(dst@, payload@),
    {
        encode_client_datagram(dst, payload)
    }
}

/// What happens on a connection's receiving side.
pub enum RelayTurn {
    /// A message is taken off the connection.
    Received(Option<Seq<u8>>),
    /// A waiting datagram is delivered.
    Delivered((Seq<u8>, Seq<u8>)),
}

/// The turn leads from the one list of waiting datagrams to the other.
pub open spec fn relay_turn(
    before: Seq<(Seq<u8>, Seq<u8>)>,
    turn: RelayTurn,
    after: Seq<(Seq<u8>, Seq<u8>)>,
) -> bool {
    match turn {
        RelayTurn::Received(message) => after == before + arrivals(message),
        RelayTurn::Delivered(datagram) => before.len() > 0 && datagram == before[0] && after
            == before.drop_first(),
    }
}

/// A run of the receiving side: `turns[i]` leads from `waiting[i]` to the
/// next.
pub open spec fn is_relay_run(
    waiting: Seq<Seq<(Seq<u8>, Seq<u8>)>>,
    turns: Seq<RelayTurn>,
) -> bool {
    &&& waiting.len() == turns.len() + 1
    &&& forall|i: int|
        0 <= i < turns.len() ==> relay_turn(waiting[i], #[trigger] turns[i], waiting[i + 1])
}

/// The datagrams of the well-formed frames that were received, in order.
pub open spec fn all_arrivals(turns: Seq<RelayTurn>) -> Seq<(Seq<u8>, Seq<u8>)>
    decreases turns.len(),
{
    if turns.len() == 0 {
        Seq::empty()
    } else {
        match turns.last() {
            RelayTurn::Received(message) => all_arrivals(turns.drop_last()) + arrivals(message),
            RelayTurn::Delivered(_) => all_arrivals(turns.drop_last()),
        }
    }
}

/// The datagrams that were delivered, in order.
pub open spec fn all_delivered(turns: Seq<RelayTurn>) -> Seq<(Seq<u8>, Seq<u8>)>
    decreases turns.len(),
{
    if turns.len() == 0 {
        Seq::empty()
    } else {
        match turns.last() {
            RelayTurn::Received(_) => all_delivered(turns.drop_last()),
            RelayTurn::Delivered(datagram) => all_delivered(turns.drop_last()).push(datagram),
        }
    }
}

/// Over a sequence of messages exactly the datagrams of the well-formed frames
/// come out, in order: what was delivered, and then what still waits.
pub proof fn arrivals_are_delivered_in_order(
    waiting: Seq<Seq<(Seq<u8>, Seq<u8>)>>,
    turns: Seq<RelayTurn>,
)
    requires
        is_relay_run(waiting, turns),
        waiting[0].len() == 0,
    ensures
        all_delivered(turns) + waiting.last() == all_arrivals(turns),
    decreases turns.len(),
{
    if turns.len() == 0 {
        assert(all_delivered(turns) + waiting.last() =~= all_arrivals(turns));
    } else {
        let n = turns.len() - 1;
        let ws = waiting.drop_last();
        let ts = turns.drop_last();
        assert forall|i: int| 0 <= i < ts.len() implies relay_turn(
            ws[i],
            #[trigger] ts[i],
            ws[i + 1],
        ) by {
            assert(relay_turn(waiting[i], turns[i], waiting[i + 1]));
        }
        arrivals_are_delivered_in_order(ws, ts);
        assert(relay_turn(waiting[n], turns[n], waiting[n + 1]));
        assert(ws.last() == waiting[n]);
        match turns[n] {
            RelayTurn::Received(message) => {
                assert(all_delivered(turns) + waiting.last() =~= (all_delivered(ts) + waiting[n])
                    + arrivals(message));
            },
            RelayTurn::Delivered(_) => {
                assert(all_delivered(turns) + waiting.last() =~= all_delivered(ts) + waiting[n]);
            },
        }
    }
}

/// A server URL names the relay's websocket endpoint: `ws` for `http` and
/// `ws`, `wss` for every other scheme, the host and port as they stand, and
/// the path `/relay` in place of any other.
pub proof fn relay_urls_keep_the_host(scheme: Seq<char>, host: Seq<char>, path: Seq<char>)
    requires
        !scheme.contains(':'),
        host.len() > 0,
        !host.contains('/'),
        path.len() == 0 || path[0] == '/',
    ensures
        relay_url_spec(scheme + "://"@ + host + path) == Ok::<Seq<char>, Seq<char>>(
            (if scheme == "http"@ || scheme == "ws"@ {
                "ws://"@
            } else {
                "wss://"@
            }) + host + "/relay"@,
        ),
{
    let server = scheme + "://"@ + host + path;
    reveal_strlit("://");
    reveal_strlit("ws");
    reveal_strlit("wss");
    reveal_strlit("ws://");
    reveal_strlit("wss://");
    splits_behind_the_scheme(scheme, host + path);
    assert(server =~= scheme + "://"@ + (host + path));
    let rest = host + path;
    let first = before(rest, '/');
    before_is_the_longest_start(rest, '/');
    if first.len() < host.len() {
        assert(host[first.len() as int] == '/');
    }
    if first.len() > host.len() {
        assert(rest[host.len() as int] == path[0]);
    }
    assert(first =~= host);
    assert("ws"@ + "://"@ =~= "ws://"@);
    assert("wss"@ + "://"@ =~= "wss://"@);
}

proof fn splits_behind_the_scheme(scheme: Seq<char>, rest: Seq<char>)
    requires
        !scheme.contains(':'),
    ensures
        split_once_spec(scheme + "://"@ + rest, "://"@) == Some((scheme, rest)),
{
    reveal_strlit("://");
    let server = scheme + "://"@ + rest;
    let n = scheme.len() as int;
    split_once_is_at_the_first(server, "://"@);
    assert(server.subrange(n, n + 3) =~= "://"@);
    let (a, b) = split_once_spec(server, "://"@)->0;
    if a.len() < n {
        assert(server[a.len() as int] == ':');
        assert(scheme[a.len() as int] == ':');
    }
    assert(a =~= scheme);
    assert(b =~= server.skip(n + 3));
    assert(rest =~= server.skip(n + 3));
}

/// A URL without a scheme, or without a host behind it, names no relay.
pub proof fn incomplete_urls_are_refused(server: Seq<char>, scheme: Seq<char>, path: Seq<char>)
    requires
        !server.contains(':'),
        !scheme.contains(':'),
        path.len() == 0 || path[0] == '/',
    ensures
        relay_url_spec(server) == Err::<Seq<char>, Seq<char>>(
            "relay url "@ + debug_text(server) + " has no scheme"@,
        ),
        relay_url_spec(scheme + "://"@ + path) == Err::<Seq<char>, Seq<char>>(
            "relay url "@ + debug_text(scheme + "://"@ + path) + " has no host"@,
        ),
{
    reveal_strlit("://");
    split_once_is_at_the_first(server, "://"@);
    if let Some((a, b)) = split_once_spec(server, "://"@) {
        assert(server[a.len() as int] == ':');
    }
    splits_behind_the_scheme(scheme, path);
    before_is_the_longest_start(path, '/');
}

/// A handshake takes each frame by its type: 0 is a challenge of 16 bytes,
/// hashed whole under the protocol's context to be signed; 2 ends it; 3 fails
/// it with the relay's reason; any other type, or none, fails it.
pub proof fn handshakes_go_by_the_frame_type(frame: Seq<u8>, step: HandshakeStep)
    requires
        handshake_fits(Some(frame), step),
    ensures
        step is Sign <==> frame.len() == 17 && frame[0] == 0,
        step is Authenticated <==> frame.len() > 0 && frame[0] == 2,
        step !is Wait,
        step matches HandshakeStep::Sign(message) ==> message@ == blake3_derived(
            "iroh-relay handshake v1 challenge signature"@,
            frame.subrange(1, 17),
        ),
        step matches HandshakeStep::Failed(text) ==> text@ == (if frame.len() == 0 {
            "relay handshake: empty frame"@
        } else if frame[0] == 0 {
            "relay handshake: malformed challenge"@
        } else if frame[0] == 3 {
            "relay denied auth: "@ + denial_text(frame.subrange(1, frame.len() as int))
        } else {
            "relay handshake: unexpected frame type "@ + decimal(frame[0] as nat)
        }),
{
    if frame.len() > 0 {
        assert(frame.drop_first() =~= frame.subrange(1, frame.len() as int));
    }
}

/// Text is not part of a handshake.
pub proof fn handshakes_wait_through_text(step: HandshakeStep)
    requires
        handshake_fits(None, step),
    ensures
        step is Wait,
{
}

/// A frame of type 6 brings one datagram: the sender in bytes 1 to 32, and
/// the payload from byte 34 on. One without room for that brings none.
pub proof fn relayed_frames_bring_their_datagram(frame: Seq<u8>, i: int)
    requires
        frame.len() > 0,
        frame[0] == 6,
    ensures
        ({
            let brought = arrivals(Some(frame));
            &&& brought.len() == if frame.len() >= 34 {
                1int
            } else {
                0
            }
            &&& frame.len() >= 34 ==> {
                &&& brought[0].0.len() == 32
                &&& 0 <= i < 32 ==> brought[0].0[i] == frame[1 + i]
                &&& brought[0].1.len() == frame.len() - 34
                &&& 0 <= i < frame.len() - 34 ==> brought[0].1[i] == frame[34 + i]
            }
        }),
{
}

/// A frame of type 7 brings its datagrams, all of the sender in bytes 1 to
/// 32, cut from byte 36 on by the segment size in bytes 34 and 35.
pub proof fn batch_frames_bring_their_datagrams(frame: Seq<u8>, k: int, i: int)
    requires
        frame.len() > 0,
        frame[0] == 7,
    ensures
        ({
            let brought = arrivals(Some(frame));
            let size = frame[34] * 256 + frame[35];
            &&& frame.len() < 36 ==> brought.len() == 0
            &&& frame.len() >= 36 && 0 <= k < brought.len() ==> {
                &&& brought[k].0.len() == 32
                &&& 0 <= i < 32 ==> brought[k].0[i] == frame[1 + i]
                &&& 0 <= i < brought[k].1.len() ==> brought[k].1[i] == frame[36 + k * size + i]
            }
            &&& frame.len() >= 36 && size == 0 ==> brought.len() == 1 && brought[0].1.len()
                == frame.len() - 36
            &&& frame.len() >= 36 && size > 0 ==> {
                &&& brought.len() * size >= frame.len() - 36
                &&& 0 <= k < brought.len() - 1 ==> brought[k].1.len() == size
                &&& 0 <= k == brought.len() - 1 ==> brought[k].1.len() == frame.len() - 36 - k
                    * size
            }
        }),
{
    batches_are_cut_by_their_segment_size(frame.drop_first(), k, i);
    if frame.len() >= 36 {
        assert(frame.drop_first()[33] == frame[34]);
        assert(frame.drop_first()[34] == frame[35]);
        let size = frame[34] * 256 + frame[35];
        let brought = arrivals(Some(frame));
        if size == 0 {
            assert(k * size == 0) by (nonlinear_arith)
                requires
                    size == 0,
            ;
        }
        let parts = relayed_payloads(frame.drop_first(), true)->0;
        assert(brought.len() == parts.len());
        if 0 <= k < brought.len() {
            assert(brought[k].1 == parts[k]);
            if 0 <= i < parts[k].len() {
                assert(frame.drop_first()[35 + k * size + i] == frame[36 + k * size + i]);
            }
        }
    }
}

/// Every other message brings nothing.
pub proof fn other_frames_bring_nothing(frame: Seq<u8>)
    requires
        frame.len() == 0 || (frame[0] != 6 && frame[0] != 7),
    ensures
        arrivals(Some(frame)).len() == 0,
        arrivals(None).len() == 0,
{
}

/// A ping is a frame of type 9 with eight bytes behind it.
pub proof fn pings_hold_eight_bytes(frame: Seq<u8>)
    ensures
        is_ping(Some(frame)) <==> frame.len() == 9 && frame[0] == 9,
        !is_ping(None),
{
}

/// A binary message is read whole.
pub proof fn messages_are_read_whole(frame: Vec<u8>)
    ensures
        message_view(Some(frame)) == Some(frame@),
        message_view(None) is None,
{
}

/// A fault's text tells where the connection failed, and its detail.
pub proof fn faults_tell_where(detail: String)
    ensures
        fault_text(RelayFault::Connect(detail)) == "relay connect: "@ + detail@,
        fault_text(RelayFault::Handshake(detail)) == "relay handshake: "@ + detail@,
        fault_text(RelayFault::Receive(detail)) == "relay: "@ + detail@,
        fault_text(RelayFault::Send(detail)) == "relay send: "@ + detail@,
        fault_text(RelayFault::Pong(detail)) == "relay pong: "@ + detail@,
{
}

} // verus!
