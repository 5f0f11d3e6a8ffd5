//! The demo host: its command line, its report, and the signaling mailbox
//! over HTTP.

use crate::demo::DemoRole;
use crate::demo::RunReport;
use crate::text::concat;
use crate::text::debug_string;
use crate::text::debug_text;
use crate::text::decimal;
use crate::text::decimal_string;
use crate::text::same_text;
use crate::text::texts;
use crate::text::trim_end;
use crate::text::trim_end_matches;
use vstd::prelude::*;
use vstd::string::*;

verus! {

/// How to call the demo host.
pub const USAGE: &'static str =
    "usage: iroh-spike-host <component.wasm> --role <client|server> --server <base-url> --room <room> [--message M]";

/// What a client sends unless told otherwise.
pub const DEFAULT_MESSAGE: &'static str = "hello over QUIC over a data channel";

/// A failure that the guest sees.
#[derive(Debug)]
pub enum HostError {
    Other(String),
}

/// A rendezvous failure, described.
pub open spec fn rendezvous_text(detail: Seq<char>) -> Seq<char> {
    "rendezvous: "@ + detail
}

/// The error is a rendezvous failure with this detail.
pub open spec fn is_rendezvous_error(error: HostError, detail: Seq<char>) -> bool {
    error matches HostError::Other(text) && text@ == rendezvous_text(detail)
}

/// Map any host-side rendezvous failure to what the guest sees.
pub fn rendezvous_error(detail: &str) -> (error: HostError)
    ensures
        is_rendezvous_error(error, detail@),
{
    HostError::Other(concat("rendezvous: ", detail))
}

/// The two ends of a rendezvous.
#[derive(Clone, Copy, Debug, PartialEq, Eq, Structural)]
pub enum RendezvousRole {
    Offerer,
    Answerer,
}

/// A role's path segment.
pub open spec fn segment(role: RendezvousRole) -> Seq<char> {
    match role {
        RendezvousRole::Offerer => "offerer"@,
        RendezvousRole::Answerer => "answerer"@,
    }
}

/// The role facing this one.
pub open spec fn opposite(role: RendezvousRole) -> RendezvousRole {
    match role {
        RendezvousRole::Offerer => RendezvousRole::Answerer,
        RendezvousRole::Answerer => RendezvousRole::Offerer,
    }
}

/// A joined rendezvous session: one room and role on the signaling server.
pub struct RendezvousSession {
    pub base: String,
    pub room: String,
    pub role: RendezvousRole,
    /// The next sequence number to fetch from the peer's mailbox.
    pub recv_seq: usize,
}

/// The mailbox of a role in a room.
pub open spec fn mailbox_url(base: Seq<char>, room: Seq<char>, role: RendezvousRole) -> Seq<char> {
    base + "/rooms/"@ + room + "/"@ + segment(role)
}

/// What a fetch came to.
pub enum Fetched {
    /// A blob is there to be read.
    Blob,
    /// The peer marked its mailbox done.
    Done,
    /// Not yet available: fetch once more.
    Retry,
    Failed(HostError),
}

impl RendezvousSession {
    /// The mailbox that this session writes.
    pub open spec fn writes_to(&self) -> Seq<char> {
        mailbox_url(self.base@, self.room@, self.role)
    }

    /// The mailbox that this session reads.
    pub open spec fn reads_from(&self) -> Seq<char> {
        mailbox_url(self.base@, self.room@, opposite(self.role))
    }

    /// Join a room. Trailing slashes of the server's URL do not count.
    pub fn open(server: &str, room: &str, role: RendezvousRole) -> (session: Self)
        ensures
            session.base@ == trim_end(server@, '/'),
            session.room@ == room@,
            session.role == role,
            session.recv_seq == 0,
    {
        RendezvousSession {
            base: trim_end_matches(server, '/'),
            room: room.to_owned(),
            role,
            recv_seq: 0,
        }
    }

    /// This session's own path segment.
    pub fn own_role(&self) -> (segment_text: String)
        ensures
            segment_text@ == segment(self.role),
    {
        match self.role {
            RendezvousRole::Offerer => "offerer".to_owned(),
            RendezvousRole::Answerer => "answerer".to_owned(),
        }
    }

    /// The peer's path segment: the mailbox this session consumes.
    pub fn peer_role(&self) -> (segment_text: String)
        ensures
            segment_text@ == segment(opposite(self.role)),
    {
        match self.role {
            RendezvousRole::Offerer => "answerer".to_owned(),
            RendezvousRole::Answerer => "offerer".to_owned(),
        }
    }

    fn mailbox(&self, role_text: &str) -> (url: String)
        ensures
            url@ == self.base@ + "/rooms/"@ + self.room@ + "/"@ + role_text@,
    {
        let mut url: String = concat(self.base.as_str(), "/rooms/");
        url.append(self.room.as_str());
        url.append("/");
        url.append(role_text);
        url
    }

    /// Where this session publishes.
    pub fn publish_url(&self) -> (url: String)
        ensures
            url@ == self.writes_to(),
    {
        let own: String = self.own_role();
        self.mailbox(own.as_str())
    }

    /// Where this session marks its mailbox done.
    pub fn done_url(&self) -> (url: String)
        ensures
            url@ == self.writes_to() + "/done"@,
    {
        let mut url: String = self.publish_url();
        url.append("/done");
        url
    }

    /// Where this session fetches the peer's next blob, waiting up to ten
    /// seconds for it.
    pub fn fetch_url(&self) -> (url: String)
        ensures
            url@ == self.reads_from() + "?seq="@ + decimal(self.recv_seq as nat) + "&wait=10000"@,
    {
        let peer: String = self.peer_role();
        let mut url: String = self.mailbox(peer.as_str());
        url.append("?seq=");
        let seq: String = decimal_string(self.recv_seq as u64);
        url.append(seq.as_str());
        url.append("&wait=10000");
        url
    }

    /// What a fetch's status says: a blob is there to be read, the mailbox is
    /// done, or there is nothing yet; anything else is a failure.
    pub fn on_fetch(status: u16) -> (fetched: Fetched)
        ensures
            match fetched {
                Fetched::Blob => status == 200,
                Fetched::Done => status == 204,
                Fetched::Retry => status == 304,
                Fetched::Failed(error) => status != 200 && status != 204 && status != 304
                    && is_rendezvous_error(error, "fetch status "@ + decimal(status as nat)),
            },
    {
        if status == 200 {
            Fetched::Blob
        } else if status == 204 {
            Fetched::Done
        } else if status == 304 {
            Fetched::Retry
        } else {
            let number: String = decimal_string(status as u64);
            let detail: String = concat("fetch status ", number.as_str());
            Fetched::Failed(rendezvous_error(detail.as_str()))
        }
    }

    /// Take a blob off the mailbox: the cursor moves on only where the blob
    /// was read.
    pub fn on_blob(&mut self, blob: Result<Vec<u8>, String>) -> (taken: Result<
        Vec<u8>,
        HostError,
    >)
        requires
            old(self).recv_seq < usize::MAX,
        ensures
            final(self).base == old(self).base,
            final(self).room == old(self).room,
            final(self).role == old(self).role,
            match blob {
                Ok(bytes) => final(self).recv_seq == old(self).recv_seq + 1 && (
                taken matches Ok(out) && out@ == bytes@),
                Err(detail) => final(self).recv_seq == old(self).recv_seq && (taken matches Err(
                    error,
                ) && is_rendezvous_error(error, detail@)),
            },
    {
        match blob {
            Ok(bytes) => {
                self.recv_seq = self.recv_seq + 1;
                Ok(bytes)
            },
            Err(detail) => Err(rendezvous_error(detail.as_str())),
        }
    }
}

/// A status is a success: in the two hundreds.
pub open spec fn is_success(status: u16) -> bool {
    200 <= status < 300
}

/// What posting to the mailbox came to; `shown` renders the status.
fn posted(what: &str, status: u16, shown: &str) -> (done: Result<(), HostError>)
    ensures
        match done {
            Ok(()) => is_success(status),
            Err(error) => !is_success(status) && is_rendezvous_error(error, what@ + shown@),
        },
{
    if status >= 200 && status < 300 {
        Ok(())
    } else {
        let detail: String = concat(what, shown);
        Err(rendezvous_error(detail.as_str()))
    }
}

/// What publishing came to; `shown` renders the status.
pub fn on_publish(status: u16, shown: &str) -> (done: Result<(), HostError>)
    ensures
        match done {
            Ok(()) => is_success(status),
            Err(error) => !is_success(status) && is_rendezvous_error(
                error,
                "publish status "@ + shown@,
            ),
        },
{
    posted("publish status ", status, shown)
}

/// What marking the mailbox done came to; `shown` renders the status.
pub fn on_done(status: u16, shown: &str) -> (done: Result<(), HostError>)
    ensures
        match done {
            Ok(()) => is_success(status),
            Err(error) => !is_success(status) && is_rendezvous_error(
                error,
                "done status "@ + shown@,
            ),
        },
{
    posted("done status ", status, shown)
}

/// Two ends of one room each read the mailbox that the other one writes, and
/// not their own.
pub proof fn mailboxes_face_each_other(a: RendezvousSession, b: RendezvousSession)
    requires
        a.base@ == b.base@,
        a.room@ == b.room@,
        b.role == opposite(a.role),
    ensures
        a.reads_from() == b.writes_to(),
        b.reads_from() == a.writes_to(),
        a.reads_from() != a.writes_to(),
{
    reveal_strlit("offerer");
    reveal_strlit("answerer");
    assert(a.reads_from().len() != a.writes_to().len());
}

// The command line.

/// What the command line asks for.
pub struct Cli {
    pub component: String,
    pub role: DemoRole,
    pub server: String,
    pub room: String,
    pub message: String,
}

/// What the flags have said so far.
pub struct Flags {
    pub role: Option<DemoRole>,
    pub server: Option<Seq<char>>,
    pub room: Option<Seq<char>>,
    pub message: Seq<char>,
}

/// The role that a flag's value names.
pub open spec fn demo_role_named(s: Seq<char>) -> Option<DemoRole> {
    if s == "client"@ {
        Some(DemoRole::Client)
    } else if s == "server"@ {
        Some(DemoRole::Server)
    } else {
        None
    }
}

/// What one flag with its value says; nothing for an unknown flag or role.
pub open spec fn with_flag(flags: Flags, flag: Seq<char>, value: Seq<char>) -> Option<Flags> {
    if flag == "--role"@ {
        match demo_role_named(value) {
            Some(role) => Some(Flags { role: Some(role), ..flags }),
            None => None,
        }
    } else if flag == "--server"@ {
        Some(Flags { server: Some(value), ..flags })
    } else if flag == "--room"@ {
        Some(Flags { room: Some(value), ..flags })
    } else if flag == "--message"@ {
        Some(Flags { message: value, ..flags })
    } else {
        None
    }
}

/// What all flags say, in order; nothing where one makes no sense or lacks
/// its value.
pub open spec fn read_flags(flags: Flags, args: Seq<Seq<char>>) -> Option<Flags>
    decreases args.len(),
{
    if args.len() == 0 {
        Some(flags)
    } else if args.len() == 1 {
        None
    } else {
        match with_flag(flags, args[0], args[1]) {
            Some(next) => read_flags(next, args.skip(2)),
            None => None,
        }
    }
}

/// What no flags say.
pub open spec fn no_flags() -> Flags {
    Flags { role: None, server: None, room: None, message: DEFAULT_MESSAGE@ }
}

/// How to call the demo host.
pub fn usage() -> (text: String)
    ensures
        text@ == USAGE@,
{
    USAGE.to_owned()
}

/// Whether the flags say everything that is needed.
pub open spec fn is_complete(flags: Option<Flags>) -> bool {
    flags matches Some(f) && f.role is Some && f.server is Some && f.room is Some
}

fn parse_role(value: &str) -> (role: Option<DemoRole>)
    ensures
        role == demo_role_named(value@),
{
    if same_text(value, "client") {
        Some(DemoRole::Client)
    } else if same_text(value, "server") {
        Some(DemoRole::Server)
    } else {
        None
    }
}

/// Read the command line: the component's path, then flags with values. The
/// last of repeated flags counts; the message has a default.
pub fn parse_args(args: &Vec<String>) -> (cli: Result<Cli, String>)
    ensures
        match cli {
            Ok(cli) => {
                &&& args@.len() > 0
                &&& cli.component@ == args@[0]@
                &&& read_flags(no_flags(), texts(args@).skip(1)) matches Some(flags)
                &&& flags.role == Some(cli.role)
                &&& flags.server == Some(cli.server@)
                &&& flags.room == Some(cli.room@)
                &&& flags.message == cli.message@
            },
            Err(text) => text@ == USAGE@ && (args@.len() == 0 || !is_complete(
                read_flags(no_flags(), texts(args@).skip(1)),
            )),
        },
{
    let ghost all = texts(args@);
    let len: usize = args.len();
    if len == 0 {
        return Err(usage());
    }
    let mut role: Option<DemoRole> = None;
    let mut server: Option<String> = None;
    let mut room: Option<String> = None;
    let mut message: String = DEFAULT_MESSAGE.to_owned();
    let ghost mut flags = no_flags();
    let mut i: usize = 1;
    while i < len
        invariant
            1 <= i <= len == args@.len(),
            all == texts(args@),
            flags.role == role,
            flags.server == opt_text(server),
            flags.room == opt_text(room),
            flags.message == message@,
            read_flags(no_flags(), all.skip(1)) == read_flags(flags, all.skip(i as int)),
        decreases len - i,
    {
        let ghost rest = all.skip(i as int);
        assert(rest[0] == args@[i as int]@);
        if i + 1 >= len {
            return Err(usage());
        }
        assert(rest[1] == args@[i + 1]@);
        assert(rest.skip(2) =~= all.skip(i + 2));
        let flag: &str = args[i].as_str();
        let value: &str = args[i + 1].as_str();
        if same_text(flag, "--role") {
            match parse_role(value) {
                Some(named) => {
                    role = Some(named);
                },
                None => {
                    return Err(usage());
                },
            }
        } else if same_text(flag, "--server") {
            server = Some(value.to_owned());
        } else if same_text(flag, "--room") {
            room = Some(value.to_owned());
        } else if same_text(flag, "--message") {
            message = value.to_owned();
        } else {
            return Err(usage());
        }
        proof {
            flags = with_flag(flags, rest[0], rest[1])->0;
        }
        i = i + 2;
    }
    assert(all.skip(i as int) =~= Seq::<Seq<char>>::empty());
    match (role, server, room) {
        (Some(role), Some(server), Some(room)) => Ok(
            Cli { component: args[0].clone(), role, server, room, message },
        ),
        _ => Err(usage()),
    }
}

/// The text of an optional string.
pub open spec fn opt_text(s: Option<String>) -> Option<Seq<char>> {
    match s {
        Some(s) => Some(s@),
        None => None,
    }
}

/// A role's name in reports.
pub open spec fn role_name(role: DemoRole) -> Seq<char> {
    match role {
        DemoRole::Client => "client"@,
        DemoRole::Server => "server"@,
    }
}

fn role_text(role: DemoRole) -> (text: String)
    ensures
        text@ == role_name(role),
{
    match role {
        DemoRole::Client => "client".to_owned(),
        DemoRole::Server => "server".to_owned(),
    }
}

/// The line that reports a finished run.
pub fn report_line(role: DemoRole, report: &RunReport) -> (line: String)
    ensures
        line@ == "iroh-spike ("@ + role_name(role) + "): endpoint="@ + report.endpoint_id@
            + " peer="@ + report.peer_id@ + " handshake_ms="@ + decimal(report.handshake_ms as nat)
            + " roundtrip_ms="@ + decimal(report.roundtrip_ms as nat) + " received="@ + debug_text(
            report.received@,
        ),
{
    let name: String = role_text(role);
    let mut line: String = concat("iroh-spike (", name.as_str());
    line.append("): endpoint=");
    line.append(report.endpoint_id.as_str());
    line.append(" peer=");
    line.append(report.peer_id.as_str());
    line.append(" handshake_ms=");
    let handshake: String = decimal_string(report.handshake_ms);
    line.append(handshake.as_str());
    line.append(" roundtrip_ms=");
    let roundtrip: String = decimal_string(report.roundtrip_ms);
    line.append(roundtrip.as_str());
    line.append(" received=");
    let received: String = debug_string(report.received.as_str());
    line.append(received.as_str());
    line
}

/// The line that ends a finished run.
pub fn finished_line(role: DemoRole) -> (line: String)
    ensures
        line@ == "OK: "@ + role_name(role) + " finished."@,
{
    let name: String = role_text(role);
    let mut line: String = concat("OK: ", name.as_str());
    line.append(" finished.");
    line
}

/// A rendezvous failure says so in front of its detail.
pub proof fn rendezvous_errors_say_so(error: HostError, detail: Seq<char>)
    requires
        is_rendezvous_error(error, detail),
    ensures
        error matches HostError::Other(text) && text@ == "rendezvous: "@ + detail,
{
}

/// A session writes the mailbox of its own role in its room, and reads that of
/// the other role.
pub proof fn mailboxes_stand_in_their_room(session: RendezvousSession)
    ensures
        session.role == RendezvousRole::Offerer ==> {
            &&& session.writes_to() == session.base@ + "/rooms/"@ + session.room@ + "/"@
                + "offerer"@
            &&& session.reads_from() == session.base@ + "/rooms/"@ + session.room@ + "/"@
                + "answerer"@
        },
        session.role == RendezvousRole::Answerer ==> {
            &&& session.writes_to() == session.base@ + "/rooms/"@ + session.room@ + "/"@
                + "answerer"@
            &&& session.reads_from() == session.base@ + "/rooms/"@ + session.room@ + "/"@
                + "offerer"@
        },
        opposite(opposite(session.role)) == session.role,
        opposite(session.role) != session.role,
{
}

/// The statuses of success are those in the two hundreds.
pub proof fn successes_are_the_two_hundreds(status: u16)
    ensures
        is_success(status) <==> status / 100 == 2,
{
}

/// Flags are read in pairs, in order: each sets its own value and nothing
/// else, so that the last of repeated ones counts.
pub proof fn flags_set_their_own_value(flags: Flags, value: Seq<char>, rest: Seq<Seq<char>>)
    ensures
        read_flags(flags, Seq::empty()) == Some(flags),
        read_flags(flags, seq!["--server"@, value] + rest) == read_flags(
            Flags { server: Some(value), ..flags },
            rest,
        ),
        read_flags(flags, seq!["--room"@, value] + rest) == read_flags(
            Flags { room: Some(value), ..flags },
            rest,
        ),
        read_flags(flags, seq!["--message"@, value] + rest) == read_flags(
            Flags { message: value, ..flags },
            rest,
        ),
        read_flags(flags, seq!["--role"@, "client"@] + rest) == read_flags(
            Flags { role: Some(DemoRole::Client), ..flags },
            rest,
        ),
        read_flags(flags, seq!["--role"@, "server"@] + rest) == read_flags(
            Flags { role: Some(DemoRole::Server), ..flags },
            rest,
        ),
{
    reveal_strlit("--role");
    reveal_strlit("--server");
    reveal_strlit("--room");
    reveal_strlit("--message");
    reveal_strlit("client");
    reveal_strlit("server");
    assert("--role"@[2] != "--server"@[2]);
    assert("--room"@[4] != "--role"@[4]);
    assert("client"@[0] != "server"@[0]);
    assert("--room"@.len() != "--server"@.len());
    assert("--message"@.len() != "--server"@.len());
    assert("--message"@.len() != "--room"@.len());
    assert((seq!["--server"@, value] + rest).skip(2) =~= rest);
    assert((seq!["--room"@, value] + rest).skip(2) =~= rest);
    assert((seq!["--message"@, value] + rest).skip(2) =~= rest);
    assert((seq!["--role"@, "client"@] + rest).skip(2) =~= rest);
    assert((seq!["--role"@, "server"@] + rest).skip(2) =~= rest);
}

/// A flag that is unknown, lacks its value, or names no role makes no sense.
pub proof fn senseless_flags_are_refused(
    flags: Flags,
    flag: Seq<char>,
    value: Seq<char>,
    rest: Seq<Seq<char>>,
)
    ensures
        read_flags(flags, seq![flag]) is None,
        flag != "--role"@ && flag != "--server"@ && flag != "--room"@ && flag != "--message"@
            ==> read_flags(flags, seq![flag, value] + rest) is None,
        value != "client"@ && value != "server"@ ==> read_flags(
            flags,
            seq!["--role"@, value] + rest,
        ) is None,
{
}

/// Without a flag nothing is said but the default message; the role, the
/// server and the room have to be.
pub proof fn flags_start_with_the_default_message(flags: Flags)
    ensures
        no_flags().role is None,
        no_flags().server is None,
        no_flags().room is None,
        no_flags().message == "hello over QUIC over a data channel"@,
        is_complete(Some(flags)) <==> flags.role is Some && flags.server is Some && flags.room
            is Some,
        !is_complete(None),
{
}

/// A role is named in reports as on the command line.
pub proof fn roles_are_named_alike(role: DemoRole, text: String)
    ensures
        demo_role_named(role_name(role)) == Some(role),
        role_name(DemoRole::Client) == "client"@,
        opt_text(Some(text)) == Some(text@),
        opt_text(None) is None,
{
    reveal_strlit("client");
    reveal_strlit("server");
    assert("client"@[0] != "server"@[0]);
}

} // verus!
