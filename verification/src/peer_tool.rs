//! The interop peer: its command line and the echo it expects.

use crate::demo::DemoRole;
use crate::hexadecimal::first_bad;
use crate::hexadecimal::hex_decode;
use crate::hexadecimal::hex_error_text;
use crate::hexadecimal::spells;
use crate::hexadecimal::HexError;
use crate::addr::Id;
use crate::bytes::array_at;
use crate::rendezvous::demo_role_named;
use crate::rendezvous::opt_text;
use crate::text::concat;
use crate::text::debug_string;
use crate::text::debug_text;
use crate::text::lossy_string;
use crate::text::lossy_text;
use crate::text::same_text;
use crate::text::texts;
use crate::text::uppercase_string;
use crate::text::uppercase_text;
use vstd::prelude::*;
use vstd::string::*;
use vstd::utf8::encode_utf8;

verus! {

/// The application protocol.
pub const ALPN: &'static str = "iroh-demo/0";

/// How much of an echo is read at most.
pub const MAX_ECHO: usize = 65536;

/// How to call the tool.
pub const USAGE: &'static str =
    "usage: iroh-peer --role <client|server> [--direct <ip:port>] [--message M] [--peer <endpoint-id-hex>]";

/// What a client sends unless told otherwise.
pub const DEFAULT_MESSAGE: &'static str = "hello from upstream iroh";

pub const ID_LENGTH: &'static str = "endpoint id is not 32 bytes";

/// What the command line asks for.
pub struct Cli {
    pub role: DemoRole,
    pub peer: Option<String>,
    pub direct: Option<String>,
    pub message: String,
}

/// What the flags have said so far.
pub struct Flags {
    pub role: Option<DemoRole>,
    pub peer: Option<Seq<char>>,
    pub direct: Option<Seq<char>>,
    pub message: Seq<char>,
}

/// What one flag with its value says; nothing for an unknown flag or role.
pub open spec fn with_flag(flags: Flags, flag: Seq<char>, value: Seq<char>) -> Option<Flags> {
    if flag == "--role"@ {
        match demo_role_named(value) {
            Some(role) => Some(Flags { role: Some(role), ..flags }),
            None => None,
        }
    } else if flag == "--peer"@ {
        Some(Flags { peer: Some(value), ..flags })
    } else if flag == "--direct"@ {
        Some(Flags { direct: Some(value), ..flags })
    } else if flag == "--message"@ {
        Some(Flags { message: value, ..flags })
    } else {
        None
    }
}

/// What all flags say, in order; nothing where one makes no sense or lacks
/// its value.
pub open spec fn read_flags(flags: Flags, args: Seq<Seq<char>>) -> Option<Flags>
    decreases args.len(),
{
    if args.len() == 0 {
        Some(flags)
    } else if args.len() == 1 {
        None
    } else {
        match with_flag(flags, args[0], args[1]) {
            Some(next) => read_flags(next, args.skip(2)),
            None => None,
        }
    }
}

/// What no flags say.
pub open spec fn no_flags() -> Flags {
    Flags { role: None, peer: None, direct: None, message: DEFAULT_MESSAGE@ }
}

/// How to call the tool.
pub fn usage() -> (text: String)
    ensures
        text@ == USAGE@,
{
    USAGE.to_owned()
}

/// Read the command line: flags with values, of which only the role is
/// needed. The last of repeated flags counts.
pub fn parse_args(args: &Vec<String>) -> (cli: Result<Cli, String>)
    ensures
        match cli {
            Ok(cli) => {
                &&& read_flags(no_flags(), texts(args@)) matches Some(flags)
                &&& flags.role == Some(cli.role)
                &&& flags.peer == opt_text(cli.peer)
                &&& flags.direct == opt_text(cli.direct)
                &&& flags.message == cli.message@
            },
            Err(text) => text@ == USAGE@ && !(read_flags(no_flags(), texts(args@)) matches Some(
                flags,
            ) && flags.role is Some),
        },
{
    let ghost all = texts(args@);
    let len: usize = args.len();
    let mut role: Option<DemoRole> = None;
    let mut peer: Option<String> = None;
    let mut direct: Option<String> = None;
    let mut message: String = DEFAULT_MESSAGE.to_owned();
    let ghost mut flags = no_flags();
    let mut i: usize = 0;
    assert(all.skip(0) =~= all);
    while i < len
        invariant
            i <= len == args@.len(),
            all == texts(args@),
            flags.role == role,
            flags.peer == opt_text(peer),
            flags.direct == opt_text(direct),
            flags.message == message@,
            read_flags(no_flags(), all) == read_flags(flags, all.skip(i as int)),
        decreases len - i,
    {
        let ghost rest = all.skip(i as int);
        assert(rest[0] == args@[i as int]@);
        if i + 1 >= len {
            return Err(usage());
        }
        assert(rest[1] == args@[i + 1]@);
        assert(rest.skip(2) =~= all.skip(i + 2));
        let flag: &str = args[i].as_str();
        let value: &str = args[i + 1].as_str();
        if same_text(flag, "--role") {
            if same_text(value, "client") {
                role = Some(DemoRole::Client);
            } else if same_text(value, "server") {
                role = Some(DemoRole::Server);
            } else {
                return Err(usage());
            }
        } else if same_text(flag, "--peer") {
            peer = Some(value.to_owned());
        } else if same_text(flag, "--direct") {
            direct = Some(value.to_owned());
        } else if same_text(flag, "--message") {
            message = value.to_owned();
        } else {
            return Err(usage());
        }
        proof {
            flags = with_flag(flags, rest[0], rest[1])->0;
        }
        i = i + 2;
    }
    assert(all.skip(i as int) =~= Seq::<Seq<char>>::empty());
    match role {
        Some(role) => Ok(Cli { role, peer, direct, message }),
        None => Err(usage()),
    }
}

/// The peer that a client was given: needed, in hexadecimal, 32 bytes.
pub fn client_peer(cli: &Cli) -> (peer: Result<Id, String>)
    ensures
        match cli.peer {
            None => peer matches Err(text) && text@ == USAGE@,
            Some(given) => {
                let digits = encode_utf8(given@);
                match peer {
                    Ok(id) => digits.len() == 64 && spells(digits, id@),
                    Err(message) => {
                        ||| digits.len() % 2 == 1 && message@ == hex_error_text(HexError::OddLength)
                        ||| digits.len() % 2 == 0 && exists|i: usize, c: char| #[trigger]
                            first_bad(digits, i as int) && c as int == digits[i as int]
                                && message@ == #[trigger] hex_error_text(
                                HexError::InvalidCharacter { c, index: i },
                            )
                        ||| digits.len() != 64 && (exists|bytes: Seq<u8>| #[trigger]
                            spells(digits, bytes)) && message@ == ID_LENGTH@
                    },
                }
            },
        },
{
    match &cli.peer {
        None => Err(usage()),
        Some(given) => match hex_decode(given.as_str()) {
            Err(error) => {
                let message: String = error.message();
                assert(message@ == hex_error_text(error));
                Err(message)
            },
            Ok(bytes) => {
                if bytes.len() != 32 {
                    assert(spells(encode_utf8(given@), bytes@));
                    return Err(ID_LENGTH.to_owned());
                }
                let id: Id = array_at::<32>(bytes.as_slice(), 0);
                assert(id@ =~= bytes@);
                Ok(id)
            },
        },
    }
}

/// Check the echo of `message`: it has to come back in upper case. Returns
/// the text that was received.
pub fn check_echo(message: &str, echoed: &[u8]) -> (checked: Result<String, String>)
    ensures
        match checked {
            Ok(text) => text@ == lossy_text(echoed@) && text@ == uppercase_text(message@),
            Err(problem) => lossy_text(echoed@) != uppercase_text(message@) && problem@
                == "echo mismatch: sent "@ + debug_text(message@) + ", got "@ + debug_text(
                lossy_text(echoed@),
            ),
        },
{
    let text: String = lossy_string(echoed);
    let expected: String = uppercase_string(message);
    if same_text(text.as_str(), expected.as_str()) {
        return Ok(text);
    }
    let sent: String = debug_string(message);
    let got: String = debug_string(text.as_str());
    let mut problem: String = concat("echo mismatch: sent ", sent.as_str());
    problem.append(", got ");
    problem.append(got.as_str());
    Err(problem)
}

/// Flags are read in pairs, in order: each sets its own value and nothing
/// else, so that the last of repeated ones counts.
pub proof fn flags_set_their_own_value(flags: Flags, value: Seq<char>, rest: Seq<Seq<char>>)
    ensures
        read_flags(flags, Seq::empty()) == Some(flags),
        read_flags(flags, seq!["--peer"@, value] + rest) == read_flags(
            Flags { peer: Some(value), ..flags },
            rest,
        ),
        read_flags(flags, seq!["--direct"@, value] + rest) == read_flags(
            Flags { direct: Some(value), ..flags },
            rest,
        ),
        read_flags(flags, seq!["--message"@, value] + rest) == read_flags(
            Flags { message: value, ..flags },
            rest,
        ),
        read_flags(flags, seq!["--role"@, "client"@] + rest) == read_flags(
            Flags { role: Some(DemoRole::Client), ..flags },
            rest,
        ),
        read_flags(flags, seq!["--role"@, "server"@] + rest) == read_flags(
            Flags { role: Some(DemoRole::Server), ..flags },
            rest,
        ),
{
    reveal_strlit("--role");
    reveal_strlit("--peer");
    reveal_strlit("--direct");
    reveal_strlit("--message");
    reveal_strlit("client");
    reveal_strlit("server");
    assert("--role"@[2] != "--peer"@[2]);
    assert("client"@[0] != "server"@[0]);
    assert("--direct"@.len() != "--peer"@.len());
    assert("--direct"@.len() != "--role"@.len());
    assert("--message"@.len() != "--role"@.len());
    assert("--message"@.len() != "--peer"@.len());
    assert("--message"@.len() != "--direct"@.len());
    assert((seq!["--peer"@, value] + rest).skip(2) =~= rest);
    assert((seq!["--direct"@, value] + rest).skip(2) =~= rest);
    assert((seq!["--message"@, value] + rest).skip(2) =~= rest);
    assert((seq!["--role"@, "client"@] + rest).skip(2) =~= rest);
    assert((seq!["--role"@, "server"@] + rest).skip(2) =~= rest);
}

/// A flag that is unknown, lacks its value, or names no role makes no sense;
/// without flags nothing is said but the default message.
pub proof fn senseless_flags_are_refused(
    flags: Flags,
    flag: Seq<char>,
    value: Seq<char>,
    rest: Seq<Seq<char>>,
)
    ensures
        read_flags(flags, seq![flag]) is None,
        flag != "--role"@ && flag != "--peer"@ && flag != "--direct"@ && flag != "--message"@
            ==> read_flags(flags, seq![flag, value] + rest) is None,
        value != "client"@ && value != "server"@ ==> read_flags(
            flags,
            seq!["--role"@, value] + rest,
        ) is None,
        no_flags().role is None,
        no_flags().peer is None,
        no_flags().direct is None,
        no_flags().message == "hello from upstream iroh"@,
{
}

/// The protocol, the limit and the refusal of the tool.
pub proof fn names_of_the_tool()
    ensures
        ALPN@ == "iroh-demo/0"@,
        MAX_ECHO == 65536,
        ID_LENGTH@ == "endpoint id is not 32 bytes"@,
{
}

} // verus!
