//! The iroh relay's wire frames, as far as a client speaks them: a one-byte
//! frame type, then the frame's payload.

use crate::addr::Id;
use crate::bytes::append_range;
use crate::bytes::array_at;
use crate::bytes::copy_range;
use crate::text::lossy_string;
use crate::text::lossy_text;
use vstd::prelude::*;

verus! {

pub const SERVER_CHALLENGE: u8 = 0;

pub const CLIENT_AUTH: u8 = 1;

pub const SERVER_CONFIRMS_AUTH: u8 = 2;

pub const SERVER_DENIES_AUTH: u8 = 3;

pub const CLIENT_TO_RELAY_DATAGRAM: u8 = 4;

pub const RELAY_TO_CLIENT_DATAGRAM: u8 = 6;

pub const RELAY_TO_CLIENT_DATAGRAM_BATCH: u8 = 7;

pub const PING: u8 = 9;

pub const PONG: u8 = 10;

/// The path of a relay's websocket endpoint.
pub const RELAY_PATH: &'static str = "/relay";

/// The websocket subprotocols a client offers, most wanted first.
pub const SUBPROTOCOL_V2: &'static str = "iroh-relay-v2";

pub const SUBPROTOCOL_V1: &'static str = "iroh-relay-v1";

/// The context that a challenge is hashed under before it is signed.
pub const CHALLENGE_DOMAIN: &'static str = "iroh-relay handshake v1 challenge signature";

/// A relayed datagram and its relay-authenticated sender.
pub struct Datagram {
    pub source: Id,
    pub payload: Vec<u8>,
}

/// Datagrams as pairs of the sender's bytes and the payload's.
pub open spec fn datagram_list(v: Seq<Datagram>) -> Seq<(Seq<u8>, Seq<u8>)> {
    v.map_values(|d: Datagram| (d.source@, d.payload@))
}

/// The subprotocols to offer.
pub fn subprotocols() -> (offered: Vec<String>)
    ensures
        offered@.len() == 2,
        offered@[0]@ == SUBPROTOCOL_V2@,
        offered@[1]@ == SUBPROTOCOL_V1@,
{
    let mut offered: Vec<String> = Vec::new();
    offered.push(SUBPROTOCOL_V2.to_owned());
    offered.push(SUBPROTOCOL_V1.to_owned());
    offered
}

/// A frame's type, which its payload follows; an empty frame has none.
pub fn split_tag(frame: &[u8]) -> (tag: Option<u8>)
    ensures
        match tag {
            Some(tag) => frame@.len() > 0 && tag == frame@[0],
            None => frame@.len() == 0,
        },
{
    if frame.len() == 0 {
        None
    } else {
        Some(frame[0])
    }
}

/// The answer to a challenge: the key, and the signature with its length in
/// front.
pub open spec fn client_auth_frame(id: Seq<u8>, signature: Seq<u8>) -> Seq<u8> {
    seq![CLIENT_AUTH] + id + seq![64u8] + signature
}

/// Encode the answer to a challenge.
pub fn encode_client_auth(id: &Id, signature: &[u8; 64]) -> (frame: Vec<u8>)
    ensures
        frame@ == client_auth_frame(id@, signature@),
{
    let mut frame: Vec<u8> = Vec::new();
    frame.push(CLIENT_AUTH);
    append_range(&mut frame, id.as_slice(), 0, 32);
    frame.push(64);
    append_range(&mut frame, signature.as_slice(), 0, 64);
    assert(frame@ =~= client_auth_frame(id@, signature@));
    frame
}

/// A datagram to `dst`: the identity, no congestion mark, and the payload.
pub open spec fn client_datagram_frame(dst: Seq<u8>, payload: Seq<u8>) -> Seq<u8> {
    seq![CLIENT_TO_RELAY_DATAGRAM] + dst + seq![0u8] + payload
}

/// Encode a datagram to `dst`.
pub fn encode_client_datagram(dst: &Id, payload: &[u8]) -> (frame: Vec<u8>)
    ensures
        frame@ == client_datagram_frame(dst@, payload@),
{
    let mut frame: Vec<u8> = Vec::new();
    frame.push(CLIENT_TO_RELAY_DATAGRAM);
    append_range(&mut frame, dst.as_slice(), 0, 32);
    frame.push(0);
    append_range(&mut frame, payload, 0, payload.len());
    assert(frame@ =~= client_datagram_frame(dst@, payload@));
    frame
}

/// The answer to a ping.
pub open spec fn pong_frame(ping: Seq<u8>) -> Seq<u8> {
    seq![PONG] + ping
}

/// Encode the answer to a ping: its eight bytes, returned.
pub fn encode_pong(ping: &[u8; 8]) -> (frame: Vec<u8>)
    ensures
        frame@ == pong_frame(ping@),
{
    let mut frame: Vec<u8> = Vec::new();
    frame.push(PONG);
    append_range(&mut frame, ping.as_slice(), 0, 8);
    assert(frame@ =~= pong_frame(ping@));
    frame
}

/// `contents` cut into pieces of `size` bytes, the last one possibly shorter.
pub open spec fn pieces(contents: Seq<u8>, size: nat) -> Seq<Seq<u8>>
    decreases contents.len(),
{
    if size == 0 || contents.len() == 0 {
        Seq::empty()
    } else if contents.len() <= size {
        seq![contents]
    } else {
        seq![contents.take(size as int)] + pieces(contents.skip(size as int), size)
    }
}

/// The payloads of a relayed frame: one, or as many as the segment size cuts
/// the contents into. A segment size of zero means a single datagram.
pub open spec fn relayed_payloads(payload: Seq<u8>, batch: bool) -> Option<Seq<Seq<u8>>> {
    if batch {
        if payload.len() < 35 {
            None
        } else {
            let size = (payload[33] * 256 + payload[34]) as nat;
            let contents = payload.skip(35);
            Some(
                if size == 0 {
                    seq![contents]
                } else {
                    pieces(contents, size)
                },
            )
        }
    } else if payload.len() < 33 {
        None
    } else {
        Some(seq![payload.skip(33)])
    }
}

/// Every payload attributed to one sender.
pub open spec fn attributed(
    source: Seq<u8>,
    payloads: Seq<Seq<u8>>,
) -> Seq<(Seq<u8>, Seq<u8>)> {
    payloads.map_values(|p: Seq<u8>| (source, p))
}

/// Decode a relayed datagram frame: the sender's identity, a congestion mark,
/// in a batch a big-endian segment size, and the contents. A frame too short
/// for its header is malformed.
pub fn decode_relay_datagrams(payload: &[u8], batch: bool) -> (datagrams: Option<Vec<Datagram>>)
    ensures
        match datagrams {
            Some(list) => relayed_payloads(payload@, batch) is Some && datagram_list(list@)
                == attributed(payload@.take(32), relayed_payloads(payload@, batch)->0),
            None => relayed_payloads(payload@, batch) is None,
        },
{
    let len: usize = payload.len();
    let header: usize = if batch {
        35
    } else {
        33
    };
    if len < header {
        return None;
    }
    let source: Id = array_at::<32>(payload, 0);
    assert(source@ =~= payload@.take(32));
    let size: usize = if batch {
        payload[33] as usize * 256 + payload[34] as usize
    } else {
        0
    };
    let ghost contents = payload@.skip(header as int);
    let mut list: Vec<Datagram> = Vec::new();
    if size == 0 {
        let copy: Vec<u8> = copy_range(payload, header, len);
        assert(copy@ =~= contents);
        list.push(Datagram { source, payload: copy });
        assert(datagram_list(list@) =~= attributed(source@, seq![contents]));
        return Some(list);
    }
    let mut at: usize = header;
    assert(contents =~= payload@.skip(at as int));
    assert(datagram_list(list@) =~= attributed(source@, Seq::<Seq<u8>>::empty()));
    assert(Seq::<Seq<u8>>::empty() + pieces(contents, size as nat) =~= pieces(
        contents,
        size as nat,
    ));
    let ghost mut done: Seq<Seq<u8>> = Seq::empty();
    while at < len
        invariant
            header <= at <= len == payload@.len(),
            source@ == payload@.take(32),
            0 < size <= 0xffff,
            datagram_list(list@) == attributed(source@, done),
            pieces(contents, size as nat) == done + pieces(payload@.skip(at as int), size as nat),
        decreases len - at,
    {
        let end: usize = if len - at <= size {
            len
        } else {
            at + size
        };
        let copy: Vec<u8> = copy_range(payload, at, end);
        proof {
            let rest = payload@.skip(at as int);
            let piece = copy@;
            if rest.len() <= size {
                assert(piece =~= rest);
                assert(payload@.skip(end as int) =~= Seq::<u8>::empty());
                assert(done + seq![rest] =~= done.push(piece) + Seq::<Seq<u8>>::empty());
            } else {
                assert(piece =~= rest.take(size as int));
                assert(rest.skip(size as int) =~= payload@.skip(end as int));
                let tail = pieces(payload@.skip(end as int), size as nat);
                assert(done + (seq![piece] + tail) =~= done.push(piece) + tail);
            }
            assert(attributed(source@, done.push(piece)) =~= attributed(source@, done).push(
                (source@, piece),
            ));
            done = done.push(piece);
        }
        let ghost before = list@;
        list.push(Datagram { source, payload: copy });
        assert(datagram_list(list@) =~= datagram_list(before).push((source@, copy@)));
        at = end;
    }
    assert(payload@.skip(at as int) =~= Seq::<u8>::empty());
    assert(done + Seq::<Seq<u8>>::empty() =~= done);
    Some(list)
}

/// The bytes of all pieces, one after the other.
pub open spec fn rejoined(parts: Seq<Seq<u8>>) -> Seq<u8>
    decreases parts.len(),
{
    if parts.len() == 0 {
        Seq::empty()
    } else {
        parts[0] + rejoined(parts.drop_first())
    }
}

/// Cutting a batch apart loses nothing and invents nothing: the pieces are,
/// in order, the contents, and none is longer than the segment size.
pub proof fn pieces_are_the_contents(contents: Seq<u8>, size: nat)
    requires
        size > 0,
    ensures
        rejoined(pieces(contents, size)) == contents,
        forall|i: int|
            0 <= i < pieces(contents, size).len() ==> 0 < (#[trigger] pieces(
                contents,
                size,
            )[i]).len() <= size,
    decreases contents.len(),
{
    let all = pieces(contents, size);
    if contents.len() == 0 {
        assert(rejoined(all) =~= contents);
    } else if contents.len() <= size {
        assert(all.drop_first() =~= Seq::<Seq<u8>>::empty());
        assert(rejoined(Seq::<Seq<u8>>::empty()) =~= Seq::<u8>::empty());
        assert(rejoined(all) =~= contents);
    } else {
        let rest = contents.skip(size as int);
        pieces_are_the_contents(rest, size);
        assert(all.drop_first() =~= pieces(rest, size));
        assert(contents.take(size as int) + rest =~= contents);
        assert forall|i: int| 0 <= i < all.len() implies 0 < (#[trigger] all[i]).len() <= size by {
            if i > 0 {
                assert(all[i] == pieces(rest, size)[i - 1]);
            }
        }
    }
}

/// Different datagrams, or datagrams to different peers, have different
/// frames.
pub proof fn datagram_frames_are_distinct(a: Id, p: Seq<u8>, b: Id, q: Seq<u8>)
    ensures
        client_datagram_frame(a@, p) == client_datagram_frame(b@, q) <==> a == b && p == q,
{
    let x = client_datagram_frame(a@, p);
    let y = client_datagram_frame(b@, q);
    if x == y {
        assert forall|i: int| 0 <= i < 32 implies a@[i] == b@[i] by {
            assert(x[1 + i] == a@[i]);
            assert(y[1 + i] == b@[i]);
        }
        assert(a =~= b);
        assert(x.skip(34) =~= p);
        assert(y.skip(34) =~= q);
    }
}

/// The bytes of a length-prefixed text: the length is a little-endian base
/// 128 number of at most ten digits. `None` where the length is malformed or
/// longer than what follows.
pub open spec fn prefixed_bytes(payload: Seq<u8>) -> Option<Seq<u8>> {
    match length_prefix(payload, 0) {
        Some((len, at)) => if len <= payload.len() - at {
            Some(payload.subrange(at, at + len))
        } else {
            None
        },
        None => None,
    }
}

/// The number that starts at digit `i` of `payload`, and where it ends.
pub open spec fn length_prefix(payload: Seq<u8>, i: int) -> Option<(int, int)>
    decreases 10 - i,
{
    if i < 0 || i >= 10 || i >= payload.len() {
        None
    } else if payload[i] < 128 {
        Some((payload[i] as int, i + 1))
    } else {
        match length_prefix(payload, i + 1) {
            Some((high, at)) => Some((payload[i] - 128 + 128 * high, at)),
            None => None,
        }
    }
}

/// Read the number that starts at digit `i` of `payload`.
fn read_length(payload: &[u8], i: usize) -> (prefix: Option<(u128, usize)>)
    requires
        i <= 10,
    ensures
        match prefix {
            Some((len, at)) => length_prefix(payload@, i as int) == Some((len as int, at as int)),
            None => length_prefix(payload@, i as int) is None,
        },
        prefix matches Some((len, at)) ==> len < power(10 - i) && i < at <= payload@.len(),
    decreases 10 - i,
{
    if i >= 10 || i >= payload.len() {
        return None;
    }
    let byte: u8 = payload[i];
    if byte < 128 {
        assert(power(10 - i) >= 128) by {
            power_grows(10 - i);
        }
        return Some((byte as u128, i + 1));
    }
    match read_length(payload, i + 1) {
        Some((high, at)) => {
            assert(128 * power(9 - i) == power(10 - i));
            assert(power(10 - i) <= power(10)) by {
                power_bounded(10 - i);
            }
            assert(power(10) == 0x40_0000_0000_0000_0000) by {
                reveal_with_fuel(power, 11);
            }
            Some(((byte - 128) as u128 + 128 * high, at))
        },
        None => None,
    }
}

/// 128 to the power `n`.
pub open spec fn power(n: int) -> int
    decreases n,
{
    if n <= 0 {
        1
    } else {
        128 * power(n - 1)
    }
}

proof fn power_grows(n: int)
    requires
        n >= 1,
    ensures
        power(n) >= 128,
    decreases n,
{
    reveal_with_fuel(power, 2);
    if n > 1 {
        power_grows(n - 1);
    }
}

proof fn power_bounded(n: int)
    requires
        0 <= n <= 10,
    ensures
        0 < power(n) <= power(10),
{
    reveal_with_fuel(power, 11);
}

/// The text of a denial: length-prefixed, or all of the payload where the
/// prefix makes no sense.
pub open spec fn denial_text(payload: Seq<u8>) -> Seq<char> {
    match prefixed_bytes(payload) {
        Some(bytes) => lossy_text(bytes),
        None => lossy_text(payload),
    }
}

/// Why the relay refused a client.
pub fn decode_denial_reason(payload: &[u8]) -> (reason: String)
    ensures
        reason@ == denial_text(payload@),
{
    match read_length(payload, 0) {
        Some((len, at)) => {
            let rest: usize = payload.len() - at;
            if len <= rest as u128 {
                let n: usize = len as usize;
                let bytes: Vec<u8> = copy_range(payload, at, at + n);
                return lossy_string(bytes.as_slice());
            }
        },
        None => {},
    }
    lossy_string(payload)
}

/// The answer to a challenge, byte by byte: the type 1, the key's 32 bytes,
/// the signature's length 64, and the signature.
pub proof fn auth_frames_byte_by_byte(id: Id, signature: [u8; 64], i: int)
    ensures
        ({
            let frame = client_auth_frame(id@, signature@);
            &&& frame.len() == 98
            &&& frame[0] == 1
            &&& 0 <= i < 32 ==> frame[1 + i] == id@[i]
            &&& frame[33] == 64
            &&& 0 <= i < 64 ==> frame[34 + i] == signature@[i]
        }),
{
}

/// A datagram's frame, byte by byte: the type 4, the peer's 32 bytes, a zero,
/// and the payload.
pub proof fn datagram_frames_byte_by_byte(dst: Id, payload: Seq<u8>, i: int)
    ensures
        ({
            let frame = client_datagram_frame(dst@, payload);
            &&& frame.len() == 34 + payload.len()
            &&& frame[0] == 4
            &&& 0 <= i < 32 ==> frame[1 + i] == dst@[i]
            &&& frame[33] == 0
            &&& 0 <= i < payload.len() ==> frame[34 + i] == payload[i]
        }),
{
}

/// The answer to a ping, byte by byte: the type 10 and the ping's bytes.
pub proof fn pong_frames_byte_by_byte(ping: Seq<u8>, i: int)
    ensures
        pong_frame(ping).len() == 1 + ping.len(),
        pong_frame(ping)[0] == 10,
        0 <= i < ping.len() ==> pong_frame(ping)[1 + i] == ping[i],
{
}

/// Datagrams are seen whole: every sender's bytes and every payload's, in
/// order.
pub proof fn datagrams_are_seen_whole(v: Seq<Datagram>, i: int)
    requires
        0 <= i < v.len(),
    ensures
        datagram_list(v).len() == v.len(),
        datagram_list(v)[i].0 == v[i].source@,
        datagram_list(v)[i].1 == v[i].payload@,
{
}

/// A frame that holds its 33 bytes of header carries one payload, which is
/// every byte behind the header; a shorter one carries nothing.
pub proof fn single_frames_carry_one_payload(payload: Seq<u8>, i: int)
    ensures
        relayed_payloads(payload, false) is Some <==> payload.len() >= 33,
        payload.len() >= 33 ==> {
            let parts = relayed_payloads(payload, false)->0;
            &&& parts.len() == 1
            &&& parts[0].len() == payload.len() - 33
            &&& 0 <= i < payload.len() - 33 ==> parts[0][i] == payload[33 + i]
        },
{
}

/// A batch that holds its 35 bytes of header is cut by the segment size in
/// bytes 33 and 34, the higher one first: byte `i` of piece `k` stands `k`
/// segments and `i` bytes behind the header, every piece but the last one
/// fills its segment, and together they reach the end. With a segment size of
/// zero there is one piece.
pub proof fn batches_are_cut_by_their_segment_size(payload: Seq<u8>, k: int, i: int)
    ensures
        relayed_payloads(payload, true) is Some <==> payload.len() >= 35,
        payload.len() >= 35 ==> {
            let size = payload[33] * 256 + payload[34];
            let parts = relayed_payloads(payload, true)->0;
            let rest = payload.len() - 35;
            &&& size == 0 ==> {
                &&& parts.len() == 1
                &&& parts[0].len() == rest
                &&& 0 <= i < rest ==> parts[0][i] == payload[35 + i]
            }
            &&& size > 0 ==> {
                &&& parts.len() * size >= rest
                &&& rest > 0 ==> (parts.len() - 1) * size < rest
                &&& rest == 0 ==> parts.len() == 0
                &&& 0 <= k < parts.len() - 1 ==> parts[k].len() == size
                &&& 0 <= k == parts.len() - 1 ==> parts[k].len() == rest - k * size
                &&& 0 <= k < parts.len() && 0 <= i < parts[k].len() ==> {
                    &&& 0 <= k * size + i < rest
                    &&& parts[k][i] == payload[35 + k * size + i]
                }
            }
        },
{
    if payload.len() >= 35 {
        let size = payload[33] * 256 + payload[34];
        let contents = payload.skip(35);
        if size > 0 {
            pieces_stand_in_place(contents, size as nat, k, i);
        }
    }
}

proof fn pieces_stand_in_place(contents: Seq<u8>, size: nat, k: int, i: int)
    requires
        size > 0,
    ensures
        ({
            let parts = pieces(contents, size);
            &&& parts.len() * size >= contents.len()
            &&& contents.len() > 0 ==> parts.len() > 0 && (parts.len() - 1) * size
                < contents.len()
            &&& contents.len() == 0 ==> parts.len() == 0
            &&& 0 <= k < parts.len() - 1 ==> parts[k].len() == size
            &&& 0 <= k == parts.len() - 1 ==> parts[k].len() == contents.len() - k * size
            &&& 0 <= k < parts.len() && 0 <= i < parts[k].len() ==> {
                &&& k * size >= 0
                &&& k * size + i < contents.len()
                &&& parts[k][i] == contents[k * size + i]
            }
        }),
    decreases contents.len(),
{
    let parts = pieces(contents, size);
    assert(0 * size == 0) by (nonlinear_arith);
    assert(1 * size == size) by (nonlinear_arith);
    if contents.len() > size {
        let rest = contents.skip(size as int);
        let tail = pieces(rest, size);
        pieces_stand_in_place(rest, size, k - 1, i);
        assert(parts.len() == tail.len() + 1);
        assert((tail.len() + 1) * size == tail.len() * size + size) by (nonlinear_arith);
        assert((tail.len() - 1) * size + size == tail.len() * size) by (nonlinear_arith);
        assert((k - 1) * size + size == k * size) by (nonlinear_arith);
        if 0 < k < parts.len() {
            assert(parts[k] == tail[k - 1]);
        }
    }
}

/// Every payload of a frame is attributed to the frame's sender, in order.
pub proof fn payloads_are_attributed(source: Seq<u8>, payloads: Seq<Seq<u8>>, i: int)
    requires
        0 <= i < payloads.len(),
    ensures
        attributed(source, payloads).len() == payloads.len(),
        attributed(source, payloads)[i].0 == source,
        attributed(source, payloads)[i].1 == payloads[i],
{
}

/// A number in base 128, lowest digit first, every digit but the last one
/// marked by its highest bit.
pub open spec fn varint(n: nat) -> Seq<u8>
    decreases n,
{
    if n < 128 {
        seq![n as u8]
    } else {
        seq![(n % 128 + 128) as u8] + varint(n / 128)
    }
}

/// A denial reads back as the text that was written with its length in front,
/// whatever follows it; a length that reaches beyond the payload, as no
/// length, leaves the payload as it is.
pub proof fn denials_read_back(text: Seq<u8>, rest: Seq<u8>, n: nat)
    requires
        text.len() <= u64::MAX,
        n <= u64::MAX,
    ensures
        denial_text(varint(text.len()) + text + rest) == lossy_text(text),
        n > rest.len() ==> denial_text(varint(n) + rest) == lossy_text(varint(n) + rest),
        denial_text(Seq::empty()) == lossy_text(Seq::empty()),
{
    assert(power(10) == 0x40_0000_0000_0000_0000) by {
        reveal_with_fuel(power, 11);
    }
    let whole = varint(text.len()) + text + rest;
    varints_read_back(whole, 0, text.len());
    let at = varint(text.len()).len() as int;
    assert(whole.subrange(at, at + text.len()) =~= text);
    varints_read_back(varint(n) + rest, 0, n);
}

proof fn varints_read_back(payload: Seq<u8>, i: int, n: nat)
    requires
        0 <= i < 10,
        n < power(10 - i),
        i + varint(n).len() <= payload.len(),
        forall|j: int| 0 <= j < varint(n).len() ==> payload[i + j] == #[trigger] varint(n)[j],
    ensures
        length_prefix(payload, i) == Some((n as int, i + varint(n).len())),
    decreases n,
{
    let digits = varint(n);
    assert(digits.len() > 0);
    assert(payload[i + 0] == digits[0]);
    if n >= 128 {
        let tail = varint(n / 128);
        assert(power(10 - i) == 128 * power(9 - i));
        if i == 9 {
            assert(power(0) == 1);
        }
        assert forall|j: int| 0 <= j < tail.len() implies payload[i + 1 + j]
            == #[trigger] tail[j] by {
            assert(digits[j + 1] == tail[j]);
            assert(payload[i + (j + 1)] == digits[j + 1]);
        }
        varints_read_back(payload, i + 1, n / 128);
    }
}

/// The frame types, the path and the subprotocols, the newest first.
pub proof fn names_of_the_protocol()
    ensures
        SERVER_CHALLENGE == 0,
        CLIENT_AUTH == 1,
        SERVER_CONFIRMS_AUTH == 2,
        SERVER_DENIES_AUTH == 3,
        CLIENT_TO_RELAY_DATAGRAM == 4,
        RELAY_TO_CLIENT_DATAGRAM == 6,
        RELAY_TO_CLIENT_DATAGRAM_BATCH == 7,
        PING == 9,
        PONG == 10,
        RELAY_PATH@ == "/relay"@,
        SUBPROTOCOL_V2@ == "iroh-relay-v2"@,
        SUBPROTOCOL_V1@ == "iroh-relay-v1"@,
{
}

/// A length has at most ten digits, and ends within the payload: a payload
/// whose first ten bytes, or all of whose bytes, ask for another digit is read
/// as it is.
pub proof fn endless_lengths_are_no_lengths(payload: Seq<u8>)
    requires
        forall|i: int| 0 <= i < 10 && i < payload.len() ==> #[trigger] payload[i] >= 128,
    ensures
        denial_text(payload) == lossy_text(payload),
{
    no_length_ends(payload, 0);
}

proof fn no_length_ends(payload: Seq<u8>, i: int)
    requires
        0 <= i <= 10,
        forall|j: int| 0 <= j < 10 && j < payload.len() ==> #[trigger] payload[j] >= 128,
    ensures
        length_prefix(payload, i) is None,
    decreases 10 - i,
{
    if i < 10 && i < payload.len() {
        assert(payload[i] >= 128);
        no_length_ends(payload, i + 1);
    }
}

} // verus!
