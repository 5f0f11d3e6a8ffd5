//! The ping demo's guest: status events for its page, the overlay's control
//! protocol, the framing of the ferry stream, and the path watcher.

use crate::addr::Id;
use crate::addr::SocketAddr;
use crate::bytes::append_range;
use crate::text::concat;
use crate::text::decimal;
use crate::text::decimal_string;
use crate::text::same_text;
use crate::text::texts;
use vstd::prelude::*;
use vstd::string::*;

verus! {

pub const ALPN: &'static str = "/polymorph/ping-demo/1";

/// The page's port on the loopback interface.
pub const PAGE_PORT: u16 = 3;

/// The overlay's control port on the loopback interface.
pub const OVERLAY_PORT: u16 = 2;

pub const TAG_REGISTER: u8 = 0x00;

pub const TAG_ASSIGNED: u8 = 0x01;

pub const TAG_READY: u8 = 0x02;

/// The longest frame the ferry stream carries.
pub const MAX_FRAME: usize = 16384;

/// How much the round-trip time has to move, in microseconds, to be reported.
pub const RTT_STEP_US: u64 = 500;

/// The application close code and reason for a second guest.
pub const FULL_CODE: u32 = 1;

pub const FULL_REASON: &'static str = "session full";

/// The fields one after the other, a comma in front of each.
pub open spec fn comma_led(fields: Seq<Seq<char>>) -> Seq<char>
    decreases fields.len(),
{
    if fields.len() == 0 {
        Seq::empty()
    } else {
        comma_led(fields.drop_last()).push(',') + fields.last()
    }
}

/// A status event as JSON: its type, then the fields.
pub open spec fn event_text(t: Seq<char>, fields: Seq<Seq<char>>) -> Seq<char> {
    ("{\"t\":\""@ + t + "\""@ + comma_led(fields)).push('}')
}

/// A status event for the page. The fields are valid JSON members already.
pub fn event(t: &str, fields: &Vec<String>) -> (message: String)
    ensures
        message@ == event_text(t@, texts(fields@)),
{
    let ghost all = texts(fields@);
    let mut message: String = concat("{\"t\":\"", t);
    message.append("\"");
    let ghost head = message@;
    let mut i: usize = 0;
    assert(all.take(0) =~= Seq::<Seq<char>>::empty());
    assert(head + comma_led(all.take(0)) =~= head);
    while i < fields.len()
        invariant
            i <= fields@.len(),
            all == texts(fields@),
            message@ == head + comma_led(all.take(i as int)),
        decreases fields@.len() - i,
    {
        let ghost seen = comma_led(all.take(i as int));
        message.push(',');
        message.append(fields[i].as_str());
        proof {
            assert(all.take(i + 1).drop_last() =~= all.take(i as int));
            assert(all.take(i + 1).last() == fields@[i as int]@);
            assert(message@ =~= head + (seen.push(',') + fields@[i as int]@));
        }
        i = i + 1;
    }
    assert(all.take(i as int) =~= all);
    message.push('}');
    message
}

fn member(name: &str, value: &str) -> (field: String)
    ensures
        field@ == "\""@ + name@ + "\":\""@ + value@ + "\""@,
{
    let mut field: String = concat("\"", name);
    field.append("\":\"");
    field.append(value);
    field.append("\"");
    field
}

/// A text member of a JSON object.
pub open spec fn member_text(name: Seq<char>, value: Seq<char>) -> Seq<char> {
    "\""@ + name + "\":\""@ + value + "\""@
}

/// The event that the endpoint is up: its identity and its home relay.
pub fn ready_event(id: &str, relay: &str) -> (message: String)
    ensures
        message@ == event_text(
            "ready"@,
            seq![member_text("id"@, id@), member_text("relay"@, relay@)],
        ),
{
    let mut fields: Vec<String> = Vec::new();
    fields.push(member("id", id));
    fields.push(member("relay", relay));
    assert(texts(fields@) =~= seq![member_text("id"@, id@), member_text("relay"@, relay@)]);
    event("ready", &fields)
}

/// The event that the peer is connected.
pub fn connected_event(peer: &str) -> (message: String)
    ensures
        message@ == event_text("connected"@, seq![member_text("peer"@, peer@)]),
{
    let mut fields: Vec<String> = Vec::new();
    fields.push(member("peer", peer));
    assert(texts(fields@) =~= seq![member_text("peer"@, peer@)]);
    event("connected", &fields)
}

/// The event that the overlay's address was added.
pub fn overlay_event() -> (message: String)
    ensures
        message@ == event_text("overlay"@, seq![member_text("state"@, "added"@)]),
{
    let mut fields: Vec<String> = Vec::new();
    fields.push(member("state", "added"));
    assert(texts(fields@) =~= seq![member_text("state"@, "added"@)]);
    event("overlay", &fields)
}

/// The event that the session is over.
pub fn closed_event() -> (message: String)
    ensures
        message@ == event_text("closed"@, Seq::empty()),
{
    let fields: Vec<String> = Vec::new();
    assert(texts(fields@) =~= Seq::<Seq<char>>::empty());
    event("closed", &fields)
}

/// The event that the selected path is this one.
pub fn path_event(path: &str, rtt_us: u64) -> (message: String)
    ensures
        message@ == event_text(
            "path"@,
            seq![member_text("path"@, path@), "\"rtt_us\":"@ + decimal(rtt_us as nat)],
        ),
{
    let mut fields: Vec<String> = Vec::new();
    fields.push(member("path", path));
    let rtt: String = decimal_string(rtt_us);
    fields.push(concat("\"rtt_us\":", rtt.as_str()));
    assert(texts(fields@) =~= seq![
        member_text("path"@, path@),
        "\"rtt_us\":"@ + decimal(rtt_us as nat),
    ]);
    event("path", &fields)
}

// The overlay's control protocol.

/// The frame that registers an endpoint and its UDP port.
pub open spec fn register_frame(id: Seq<u8>, port: u16) -> Seq<u8> {
    seq![TAG_REGISTER] + id + seq![(port / 256) as u8, (port % 256) as u8]
}

/// Register an endpoint and its UDP port with the overlay.
pub fn register(id: &Id, port: u16) -> (frame: Vec<u8>)
    ensures
        frame@ == register_frame(id@, port),
{
    let mut frame: Vec<u8> = Vec::new();
    frame.push(TAG_REGISTER);
    append_range(&mut frame, id.as_slice(), 0, 32);
    frame.push((port / 256) as u8);
    frame.push((port % 256) as u8);
    assert(frame@ =~= register_frame(id@, port));
    frame
}

/// The synthetic address that a frame assigns, if it assigns one.
pub open spec fn assigned_in(frame: Seq<u8>) -> Option<SocketAddr> {
    if frame.len() >= 7 && frame[0] == TAG_ASSIGNED {
        Some(
            SocketAddr::V4 {
                ip: (frame[1] * 0x100_0000 + frame[2] * 0x1_0000 + frame[3] * 0x100
                    + frame[4]) as u32,
                port: (frame[5] * 256 + frame[6]) as u16,
            },
        )
    } else {
        None
    }
}

/// The synthetic address that a frame assigns; other frames are skipped.
pub fn assigned(frame: &[u8]) -> (addr: Option<SocketAddr>)
    ensures
        addr == assigned_in(frame@),
{
    if frame.len() >= 7 && frame[0] == TAG_ASSIGNED {
        let ip: u32 = frame[1] as u32 * 0x100_0000 + frame[2] as u32 * 0x1_0000 + frame[3] as u32
            * 0x100 + frame[4] as u32;
        let port: u16 = frame[5] as u16 * 256 + frame[6] as u16;
        Some(SocketAddr::V4 { ip, port })
    } else {
        None
    }
}

/// Whether a frame says that the channel is open.
pub fn ready(frame: &[u8]) -> (ready: bool)
    ensures
        ready == (frame@.len() >= 1 && frame@[0] == TAG_READY),
{
    frame.len() >= 1 && frame[0] == TAG_READY
}

// The environment.

/// A variable counts only where it holds something.
pub fn env_var(value: Option<String>) -> (kept: Option<String>)
    ensures
        match value {
            Some(text) => if text@.len() > 0 {
                kept matches Some(out) && out@ == text@
            } else {
                kept is None
            },
            None => kept is None,
        },
{
    match value {
        Some(text) => if text.as_str().unicode_len() > 0 {
            Some(text)
        } else {
            None
        },
        None => None,
    }
}

/// Whether this side hosts: unless told to join.
pub fn is_host(role: Option<String>) -> (host: bool)
    ensures
        host == (match role {
            Some(text) => text@ == "host"@,
            None => true,
        }),
{
    match role {
        Some(text) => same_text(text.as_str(), "host"),
        None => true,
    }
}

// The path watcher.

/// Where a connection's path leads.
#[derive(Clone, Copy, Debug, PartialEq, Eq, Structural)]
pub enum Route {
    Relay,
    Ip,
    Other,
}

/// One of a connection's paths.
#[derive(Clone, Copy)]
pub struct PathInfo {
    pub selected: bool,
    pub route: Route,
    pub rtt_us: u64,
}

/// The name of a path in events.
#[derive(Clone, Copy, Debug, PartialEq, Eq, Structural)]
pub enum PathName {
    Unselected,
    Relay,
    Direct,
    Other,
}

/// A path's name as text.
pub open spec fn name_text(name: PathName) -> Seq<char> {
    match name {
        PathName::Unselected => "none"@,
        PathName::Relay => "relay"@,
        PathName::Direct => "direct"@,
        PathName::Other => "other"@,
    }
}

impl PathName {
    /// The name as text.
    pub fn text(&self) -> (text: String)
        ensures
            text@ == name_text(*self),
    {
        match self {
            PathName::Unselected => "none".to_owned(),
            PathName::Relay => "relay".to_owned(),
            PathName::Direct => "direct".to_owned(),
            PathName::Other => "other".to_owned(),
        }
    }
}

/// The name and round-trip time of the first selected path.
pub open spec fn selected_in(paths: Seq<PathInfo>) -> (PathName, u64)
    decreases paths.len(),
{
    if paths.len() == 0 {
        (PathName::Unselected, 0)
    } else if paths[0].selected {
        (
            match paths[0].route {
                Route::Relay => PathName::Relay,
                Route::Ip => PathName::Direct,
                Route::Other => PathName::Other,
            },
            paths[0].rtt_us,
        )
    } else {
        selected_in(paths.drop_first())
    }
}

/// The name and round-trip time of the path in use.
pub fn selected_path(paths: &Vec<PathInfo>) -> (selected: (PathName, u64))
    ensures
        selected == selected_in(paths@),
{
    let mut i: usize = 0;
    assert(paths@.skip(0) =~= paths@);
    while i < paths.len()
        invariant
            i <= paths@.len(),
            selected_in(paths@) == selected_in(paths@.skip(i as int)),
        decreases paths@.len() - i,
    {
        let path: PathInfo = paths[i];
        if path.selected {
            let name: PathName = match path.route {
                Route::Relay => PathName::Relay,
                Route::Ip => PathName::Direct,
                Route::Other => PathName::Other,
            };
            return (name, path.rtt_us);
        }
        assert(paths@.skip(i as int).drop_first() =~= paths@.skip(i + 1));
        i = i + 1;
    }
    (PathName::Unselected, 0)
}

/// What the watcher reported last; nothing at first.
#[derive(Clone, Copy, PartialEq, Eq, Structural)]
pub struct PathWatch {
    pub last: Option<PathName>,
    pub last_rtt_us: u64,
}

/// Two times differ by more than the step.
pub open spec fn moved(a: u64, b: u64) -> bool {
    a - b > RTT_STEP_US || b - a > RTT_STEP_US
}

impl PathWatch {
    pub fn new() -> (watch: Self)
        ensures
            watch == (PathWatch { last: None, last_rtt_us: 0 }),
    {
        PathWatch { last: None, last_rtt_us: 0 }
    }

    /// Look at the path in use. True if it is to be reported: it is another
    /// one, or its round-trip time has moved.
    pub fn observe(&mut self, path: PathName, rtt_us: u64) -> (report: bool)
        ensures
            report == (old(self).last != Some(path) || moved(rtt_us, old(self).last_rtt_us)),
            *final(self) == (if report {
                PathWatch { last: Some(path), last_rtt_us: rtt_us }
            } else {
                *old(self)
            }),
    {
        let same: bool = match self.last {
            Some(last) => last == path,
            None => false,
        };
        let step: u64 = if rtt_us >= self.last_rtt_us {
            rtt_us - self.last_rtt_us
        } else {
            self.last_rtt_us - rtt_us
        };
        if !same || step > RTT_STEP_US {
            self.last = Some(path);
            self.last_rtt_us = rtt_us;
            true
        } else {
            false
        }
    }
}

// The ferry stream.

/// A frame's length, two bytes, most significant first.
pub open spec fn length_header(len: int) -> Seq<u8> {
    seq![(len / 256) as u8, (len % 256) as u8]
}

/// The header in front of a frame of `len` bytes.
pub fn frame_header(len: usize) -> (header: [u8; 2])
    requires
        len <= MAX_FRAME,
    ensures
        header@ == length_header(len as int),
{
    let header: [u8; 2] = [(len / 256) as u8, (len % 256) as u8];
    assert(header@ =~= length_header(len as int));
    header
}

/// The length of the frame behind a header; nothing for one that is longer
/// than any frame, at which the stream is given up.
pub fn frame_len(header: &[u8; 2]) -> (len: Option<usize>)
    ensures
        ({
            let n = header@[0] * 256 + header@[1];
            match len {
                Some(len) => len == n && n <= MAX_FRAME,
                None => n > MAX_FRAME,
            }
        }),
{
    let n: usize = header[0] as usize * 256 + header[1] as usize;
    if n > MAX_FRAME {
        None
    } else {
        Some(n)
    }
}

/// A header that was written reads back as the same length.
pub proof fn headers_roundtrip(len: int)
    requires
        0 <= len <= MAX_FRAME,
    ensures
        length_header(len).len() == 2,
        length_header(len)[0] * 256 + length_header(len)[1] == len,
{
}

/// An event's fields stand in order, a comma in front of each.
pub proof fn fields_stand_in_order(a: Seq<Seq<char>>, b: Seq<Seq<char>>, field: Seq<char>)
    ensures
        comma_led(Seq::empty()).len() == 0,
        comma_led(seq![field]) == seq![','] + field,
        comma_led(a + b) == comma_led(a) + comma_led(b),
    decreases b.len(),
{
    assert(seq![field].drop_last() =~= Seq::<Seq<char>>::empty());
    assert(comma_led(seq![field]) =~= seq![','] + field) by {
        assert(comma_led(seq![field].drop_last()) =~= Seq::<char>::empty());
    }
    if b.len() == 0 {
        assert(a + b =~= a);
        assert(comma_led(a + b) =~= comma_led(a) + comma_led(b));
    } else {
        fields_stand_in_order(a, b.drop_last(), field);
        assert((a + b).drop_last() =~= a + b.drop_last());
        assert((a + b).last() == b.last());
        assert(comma_led(a + b) =~= comma_led(a) + comma_led(b));
    }
}

/// An event is a JSON object: its type first, then its fields.
pub proof fn events_are_json_objects(t: Seq<char>, name: Seq<char>, value: Seq<char>)
    ensures
        event_text(t, Seq::empty()) == "{\"t\":\""@ + t + "\"}"@,
        event_text(t, seq![member_text(name, value)]) == "{\"t\":\""@ + t + "\",\""@ + name
            + "\":\""@ + value + "\"}"@,
{
    reveal_strlit("{\"t\":\"");
    reveal_strlit("\"");
    reveal_strlit("\"}");
    reveal_strlit("\",\"");
    reveal_strlit("\":\"");
    let member = member_text(name, value);
    fields_stand_in_order(Seq::empty(), Seq::empty(), member);
    assert(event_text(t, Seq::empty()) =~= "{\"t\":\""@ + t + "\"}"@);
    assert(event_text(t, seq![member]) =~= "{\"t\":\""@ + t + "\",\""@ + name + "\":\""@ + value
        + "\"}"@);
}

/// A registration, byte by byte: a zero, the endpoint's 32 bytes, and the
/// port, its higher byte first.
pub proof fn registrations_byte_by_byte(id: Id, port: u16, i: int)
    ensures
        ({
            let frame = register_frame(id@, port);
            &&& frame.len() == 35
            &&& frame[0] == 0x00
            &&& 0 <= i < 32 ==> frame[1 + i] == id@[i]
            &&& frame[33] * 256 + frame[34] == port
        }),
{
}

/// An assignment is a one, the address's four bytes and the port's two, the
/// highest ones first; what is shorter, or begins otherwise, assigns nothing.
pub proof fn assignments_byte_by_byte(frame: Seq<u8>)
    ensures
        assigned_in(frame) is Some <==> frame.len() >= 7 && frame[0] == 0x01,
        assigned_in(frame) matches Some(addr) ==> {
            &&& addr matches SocketAddr::V4 { ip, port }
            &&& ip == ((frame[1] * 256 + frame[2]) * 256 + frame[3]) * 256 + frame[4]
            &&& port == frame[5] * 256 + frame[6]
        },
{
}

/// The path in use is the first one that is selected; there is none exactly if
/// none is.
pub proof fn the_first_selected_path_is_used(paths: Seq<PathInfo>, k: int)
    ensures
        (forall|i: int| 0 <= i < paths.len() ==> !(#[trigger] paths[i]).selected) ==> selected_in(
            paths,
        ) == (PathName::Unselected, 0u64),
        0 <= k < paths.len() && paths[k].selected && (forall|i: int|
            0 <= i < k ==> !(#[trigger] paths[i]).selected) ==> {
            &&& selected_in(paths).1 == paths[k].rtt_us
            &&& selected_in(paths).0 == PathName::Relay <==> paths[k].route == Route::Relay
            &&& selected_in(paths).0 == PathName::Direct <==> paths[k].route == Route::Ip
            &&& selected_in(paths).0 == PathName::Other <==> paths[k].route == Route::Other
        },
    decreases paths.len(),
{
    if paths.len() > 0 && !paths[0].selected {
        let rest = paths.drop_first();
        the_first_selected_path_is_used(rest, k - 1);
        assert forall|i: int|
            (forall|i: int| 0 <= i < paths.len() ==> !(#[trigger] paths[i]).selected) && 0 <= i
                < rest.len() implies !(#[trigger] rest[i]).selected by {
            assert(!paths[i + 1].selected);
        }
        if 0 <= k < paths.len() && paths[k].selected && (forall|i: int|
            0 <= i < k ==> !(#[trigger] paths[i]).selected) {
            assert(rest[k - 1] == paths[k]);
            assert forall|i: int| 0 <= i < k - 1 implies !(#[trigger] rest[i]).selected by {
                assert(!paths[i + 1].selected);
            }
        }
    }
}

/// A path's name in events.
pub proof fn paths_are_named()
    ensures
        name_text(PathName::Unselected) == "none"@,
        name_text(PathName::Relay) == "relay"@,
        name_text(PathName::Direct) == "direct"@,
        name_text(PathName::Other) == "other"@,
{
}

/// A round-trip time has moved once it is over half a millisecond off, in
/// either direction.
pub proof fn times_move_by_half_a_millisecond(a: u64, b: u64)
    ensures
        moved(a, b) <==> a > b + 500 || b > a + 500,
        moved(a, b) == moved(b, a),
{
}

/// The ports, tags and limits of the demo's protocols.
pub proof fn numbers_of_the_protocols()
    ensures
        PAGE_PORT == 3,
        OVERLAY_PORT == 2,
        TAG_READY == 0x02,
        MAX_FRAME == 16 * 1024,
        FULL_CODE == 1,
        FULL_REASON@ == "session full"@,
        ALPN@ == "/polymorph/ping-demo/1"@,
{
}

} // verus!
