//! The endpoint demo: what an application asks of the endpoint for one echo
//! each way, and what it makes of the answers.

use crate::addr::SocketAddr;
use crate::bytes::contents;
use crate::bytes::copy_bytes;
use crate::bytes::flattened;
use crate::bytes::join_chunks;
use crate::demo::bad_id_text;
use crate::echo::millis_between;
use crate::endpoint::dial::TransportAddr;
use crate::endpoint::path::PathKind;
use crate::hexadecimal::first_bad;
use crate::hexadecimal::hex_decode;
use crate::hexadecimal::hex_encode;
use crate::hexadecimal::hex_text;
use crate::hexadecimal::spells;
use crate::hexadecimal::HexError;
use crate::text::concat;
use crate::text::decimal;
use crate::text::decimal_string;
use crate::text::lossy_string;
use crate::text::lossy_text;
use crate::text::uppercase_string;
use crate::text::uppercase_text;
use vstd::prelude::*;
use vstd::string::*;
use vstd::utf8::encode_utf8;

verus! {

/// The demo's application protocol.
pub const ALPN: &'static str = "iroh-demo/0";

/// Cap on one read call.
pub const READ_MAX: u32 = 16384;

/// Polling quantum in nanoseconds while waiting for the WebRTC upgrade.
pub const UPGRADE_POLL_NS: u64 = 5_000_000;

/// How often the upgrade is polled for at most: for thirty seconds.
pub const UPGRADE_DEADLINE_POLLS: u32 = 6000;

/// Up to this length a server answers in upper case and reports the text.
pub const SUMMARY_LIMIT: usize = 4096;

pub const NEEDS_PEER: &'static str = "the client role requires the server's endpoint id (peer)";

pub const NO_UPGRADE: &'static str = "webrtc upgrade did not complete";

/// A path's name in reports.
pub open spec fn path_text(path: PathKind) -> Seq<char> {
    match path {
        PathKind::Relay => "relay"@,
        PathKind::Ip => "ip"@,
        PathKind::Webrtc => "webrtc"@,
    }
}

/// A path's name in reports.
pub fn path_name(path: PathKind) -> (name: String)
    ensures
        name@ == path_text(path),
{
    match path {
        PathKind::Relay => "relay".to_owned(),
        PathKind::Ip => "ip".to_owned(),
        PathKind::Webrtc => "webrtc".to_owned(),
    }
}

/// An endpoint operation failed; `shown` renders its error.
pub fn fail(what: &str, shown: &str) -> (text: String)
    ensures
        text@ == what@ + ": "@ + shown@,
{
    let mut text: String = concat(what, ": ");
    text.append(shown);
    text
}

/// What a run was asked to do.
pub struct RunConfig {
    pub relay_url: String,
    pub peer: Option<String>,
    pub alpn: Option<String>,
    pub peer_relay: Option<String>,
    /// A socket address to dial, where the text given was one; `Some(None)`
    /// where it was not.
    pub direct: Option<Option<SocketAddr>>,
    pub webrtc: bool,
    pub payload_bytes: Option<u32>,
    pub message: String,
}

/// What a run reports.
pub struct RunReport {
    pub endpoint_id: String,
    pub peer_id: String,
    pub path: String,
    pub handshake_ms: u64,
    pub roundtrip_ms: u64,
    pub received: String,
}

/// The relay that the peer is on: its own, or this side's.
pub open spec fn peer_relay_of(config: RunConfig) -> Seq<char> {
    match config.peer_relay {
        Some(url) => url@,
        None => config.relay_url@,
    }
}

/// The peer's endpoint ID, which a client needs, from its hexadecimal form.
/// Its length is the endpoint's to check.
pub fn client_peer(config: &RunConfig) -> (peer: Result<Vec<u8>, String>)
    ensures
        match config.peer {
            Some(given) => {
                let digits = encode_utf8(given@);
                match peer {
                    Ok(bytes) => spells(digits, bytes@),
                    Err(message) => {
                        ||| digits.len() % 2 == 1 && message@ == bad_id_text(HexError::OddLength)
                        ||| digits.len() % 2 == 0 && exists|i: usize, c: char| #[trigger]
                            first_bad(digits, i as int) && c as int == digits[i as int]
                                && message@ == #[trigger] bad_id_text(
                                HexError::InvalidCharacter { c, index: i },
                            )
                    },
                }
            },
            None => peer matches Err(text) && text@ == NEEDS_PEER@,
        },
{
    match &config.peer {
        Some(given) => match hex_decode(given.as_str()) {
            Ok(bytes) => Ok(bytes),
            Err(error) => {
                let detail: String = error.message();
                let message: String = concat("bad endpoint id: ", detail.as_str());
                assert(message@ == bad_id_text(error));
                Err(message)
            },
        },
        None => Err(NEEDS_PEER.to_owned()),
    }
}

/// The protocol to offer.
pub fn client_alpn(config: &RunConfig) -> (alpn: Vec<u8>)
    ensures
        alpn@ == encode_utf8(
            match config.alpn {
                Some(text) => text@,
                None => ALPN@,
            },
        ),
{
    match &config.alpn {
        Some(text) => copy_bytes(text.as_str().as_bytes()),
        None => copy_bytes(ALPN.as_bytes()),
    }
}

/// `addr` is a way through the relay at `url`.
pub open spec fn is_relay(addr: TransportAddr, url: Seq<char>) -> bool {
    addr matches TransportAddr::Relay(text) && text@ == url
}

/// `addr` is a channel signaled through the relay at `url`.
pub open spec fn is_webrtc(addr: TransportAddr, url: Seq<char>) -> bool {
    addr matches TransportAddr::Webrtc(text) && text@ == url
}

/// The ways to reach the peer: the direct one if given, the channel if
/// wanted, and always the relay, in that order.
pub fn client_addrs(config: &RunConfig) -> (addrs: Vec<TransportAddr>)
    ensures
        ({
            let url = peer_relay_of(*config);
            let direct: int = if config.direct is Some {
                1
            } else {
                0
            };
            let channel: int = if config.webrtc {
                1
            } else {
                0
            };
            &&& addrs@.len() == direct + channel + 1
            &&& config.direct matches Some(addr) ==> addrs@[0] == TransportAddr::Ip(addr)
            &&& config.webrtc ==> is_webrtc(addrs@[direct], url)
            &&& is_relay(addrs@[direct + channel], url)
        }),
{
    let url: String = match &config.peer_relay {
        Some(url) => url.clone(),
        None => config.relay_url.clone(),
    };
    let mut addrs: Vec<TransportAddr> = Vec::new();
    if let Some(direct) = config.direct {
        addrs.push(TransportAddr::Ip(direct));
    }
    if config.webrtc {
        addrs.push(TransportAddr::Webrtc(url.clone()));
    }
    addrs.push(TransportAddr::Relay(url));
    addrs
}

/// Whether the upgrade that a client waits for is there, is still awaited, or
/// has taken too long.
pub enum UpgradeWait {
    Upgraded,
    /// Wait one quantum, then ask again.
    Again,
    Failed(String),
}

/// Poll for the upgrade once more; `polls` counts the polls that found
/// another path.
pub fn poll_upgrade(path: PathKind, polls: &mut u32) -> (wait: UpgradeWait)
    requires
        *old(polls) <= UPGRADE_DEADLINE_POLLS,
    ensures
        match wait {
            UpgradeWait::Upgraded => path == PathKind::Webrtc && *final(polls) == *old(polls),
            UpgradeWait::Again => path != PathKind::Webrtc && *final(polls) == *old(polls) + 1
                && *final(polls) <= UPGRADE_DEADLINE_POLLS,
            UpgradeWait::Failed(text) => path != PathKind::Webrtc && *old(polls)
                == UPGRADE_DEADLINE_POLLS && *final(polls) == *old(polls) + 1 && text@
                == NO_UPGRADE@,
        },
{
    if path == PathKind::Webrtc {
        return UpgradeWait::Upgraded;
    }
    *polls = *polls + 1;
    if *polls > UPGRADE_DEADLINE_POLLS {
        UpgradeWait::Failed(NO_UPGRADE.to_owned())
    } else {
        UpgradeWait::Again
    }
}

/// What a client sends: the message, or as many zero bytes as it was asked
/// for.
pub open spec fn payload_of(config: RunConfig) -> Seq<u8> {
    match config.payload_bytes {
        Some(n) => Seq::new(n as nat, |i: int| 0u8),
        None => encode_utf8(config.message@),
    }
}

/// What a client sends: the message, or as many zero bytes as it was asked
/// for.
pub fn client_payload(config: &RunConfig) -> (payload: Vec<u8>)
    ensures
        payload@ == payload_of(*config),
{
    match config.payload_bytes {
        None => copy_bytes(config.message.as_str().as_bytes()),
        Some(n) => {
            let mut payload: Vec<u8> = Vec::new();
            let mut i: u32 = 0;
            while i < n
                invariant
                    i <= n,
                    payload@.len() == i,
                    forall|j: int| 0 <= j < payload@.len() ==> payload@[j] == 0,
                decreases n - i,
            {
                payload.push(0);
                i = i + 1;
            }
            assert(payload@ =~= payload_of(*config));
            payload
        },
    }
}

/// What came back, whole: it has to be as long as what was sent.
pub fn collect_echo(payload: &[u8], chunks: &Vec<Vec<u8>>) -> (echoed: Result<Vec<u8>, String>)
    ensures
        ({
            let whole = flattened(contents(chunks@));
            match echoed {
                Ok(bytes) => whole.len() == payload@.len() && bytes@ == whole,
                Err(text) => whole.len() != payload@.len() && text@ == mismatch_text(
                    payload@.len(),
                    whole.len(),
                ),
            }
        }),
{
    let echoed: Vec<u8> = join_chunks(chunks);
    if echoed.len() != payload.len() {
        let sent_text: String = decimal_string(payload.len() as u64);
        let got_text: String = decimal_string(echoed.len() as u64);
        let mut text: String = concat("echo length mismatch: sent ", sent_text.as_str());
        text.append(", got ");
        text.append(got_text.as_str());
        return Err(text);
    }
    Ok(echoed)
}

/// The text about an echo of another length.
pub open spec fn mismatch_text(sent: nat, got: nat) -> Seq<char> {
    "echo length mismatch: sent "@ + decimal(sent) + ", got "@ + decimal(got)
}

/// A length in words.
pub open spec fn bytes_text(len: nat) -> Seq<char> {
    decimal(len) + " bytes"@
}

fn bytes_string(len: usize) -> (text: String)
    ensures
        text@ == bytes_text(len as nat),
{
    let mut text: String = decimal_string(len as u64);
    text.append(" bytes");
    text
}

/// What a client reports of its run, from what the endpoint said and the
/// chunks that came back: the echo has to be as long as what was sent.
pub fn run_client(
    config: &RunConfig,
    chunks: &Vec<Vec<u8>>,
    peer: &[u8],
    path: PathKind,
    handshake_ms: u64,
    roundtrip_ms: u64,
) -> (report: Result<RunReport, String>)
    ensures
        ({
            let sent = payload_of(*config);
            let echoed = flattened(contents(chunks@));
            match report {
                Ok(report) => {
                    &&& echoed.len() == sent.len()
                    &&& report.endpoint_id@ == Seq::<char>::empty()
                    &&& report.peer_id@ == hex_text(peer@)
                    &&& report.path@ == path_text(path)
                    &&& report.handshake_ms == handshake_ms
                    &&& report.roundtrip_ms == roundtrip_ms
                    &&& report.received@ == (match config.payload_bytes {
                        Some(_) => bytes_text(echoed.len()),
                        None => lossy_text(echoed),
                    })
                },
                Err(text) => echoed.len() != sent.len() && text@ == mismatch_text(
                    sent.len(),
                    echoed.len(),
                ),
            }
        }),
{
    let payload: Vec<u8> = client_payload(config);
    let echoed: Vec<u8> = match collect_echo(payload.as_slice(), chunks) {
        Ok(echoed) => echoed,
        Err(text) => {
            return Err(text);
        },
    };
    let received: String = match config.payload_bytes {
        Some(_) => bytes_string(echoed.len()),
        None => lossy_string(echoed.as_slice()),
    };
    Ok(
        RunReport {
            endpoint_id: String::new(),
            peer_id: hex_encode(peer),
            path: path_name(path),
            handshake_ms,
            roundtrip_ms,
            received,
        },
    )
}

/// What a server answers, and what it reports having received.
pub struct Answer {
    pub echo: Vec<u8>,
    pub received: String,
}

/// A server's answer to the chunks of a message: small messages come back in
/// upper case, bulk payloads verbatim and reported by their length.
pub fn answer(chunks: &Vec<Vec<u8>>) -> (answer: Answer)
    ensures
        ({
            let inbound = flattened(contents(chunks@));
            if inbound.len() <= SUMMARY_LIMIT {
                &&& answer.received@ == lossy_text(inbound)
                &&& answer.echo@ == encode_utf8(uppercase_text(lossy_text(inbound)))
            } else {
                &&& answer.received@ == bytes_text(inbound.len())
                &&& answer.echo@ == inbound
            }
        }),
{
    let inbound: Vec<u8> = join_chunks(chunks);
    if inbound.len() <= SUMMARY_LIMIT {
        let text: String = lossy_string(inbound.as_slice());
        let upper: String = uppercase_string(text.as_str());
        Answer { echo: copy_bytes(upper.as_str().as_bytes()), received: text }
    } else {
        let received: String = bytes_string(inbound.len());
        Answer { echo: inbound, received }
    }
}

/// What a server reports of its run.
pub fn run_server(received: String, peer: &[u8], path: PathKind) -> (report: RunReport)
    ensures
        report.endpoint_id@ == Seq::<char>::empty(),
        report.peer_id@ == hex_text(peer@),
        report.path@ == path_text(path),
        report.handshake_ms == 0,
        report.roundtrip_ms == 0,
        report.received@ == received@,
{
    RunReport {
        endpoint_id: String::new(),
        peer_id: hex_encode(peer),
        path: path_name(path),
        handshake_ms: 0,
        roundtrip_ms: 0,
        received,
    }
}

/// The report of either role with this side's identity in it.
pub fn run(endpoint_id: &[u8], report: RunReport) -> (whole: RunReport)
    ensures
        whole.endpoint_id@ == hex_text(endpoint_id@),
        whole.peer_id@ == report.peer_id@,
        whole.path@ == report.path@,
        whole.handshake_ms == report.handshake_ms,
        whole.roundtrip_ms == report.roundtrip_ms,
        whole.received@ == report.received@,
{
    RunReport {
        endpoint_id: hex_encode(endpoint_id),
        peer_id: report.peer_id,
        path: report.path,
        handshake_ms: report.handshake_ms,
        roundtrip_ms: report.roundtrip_ms,
        received: report.received,
    }
}

/// The milliseconds that passed from `start` to `now`, in nanoseconds on the
/// caller's clock.
pub fn elapsed_ms(start: u64, now: u64) -> (ms: u64)
    ensures
        ms == millis_between(start, now),
{
    if now >= start {
        (now - start) / 1_000_000
    } else {
        0
    }
}

/// A path's name in reports.
pub proof fn paths_are_named()
    ensures
        path_text(PathKind::Relay) == "relay"@,
        path_text(PathKind::Ip) == "ip"@,
        path_text(PathKind::Webrtc) == "webrtc"@,
{
}

/// The peer is looked for on the relay that was named for it, and on this
/// side's if none was.
pub proof fn peers_are_on_their_own_relay(config: RunConfig)
    ensures
        config.peer_relay matches Some(url) ==> peer_relay_of(config) == url@,
        config.peer_relay is None ==> peer_relay_of(config) == config.relay_url@,
{
}

/// A wanted length is sent as that many zero bytes; otherwise the message is
/// sent, every byte of it.
pub proof fn payloads_are_zeros_or_the_message(config: RunConfig, i: int)
    ensures
        config.payload_bytes matches Some(n) ==> {
            &&& payload_of(config).len() == n
            &&& 0 <= i < n ==> payload_of(config)[i] == 0
        },
        config.payload_bytes is None ==> payload_of(config) == encode_utf8(config.message@),
{
}

/// Lengths are told in decimals: those of an echo that differs, and that of a
/// bulk payload.
pub proof fn lengths_are_told_in_decimals(sent: nat, got: nat)
    ensures
        mismatch_text(sent, got) == "echo length mismatch: sent "@ + decimal(sent) + ", got "@
            + decimal(got),
        bytes_text(got) == decimal(got) + " bytes"@,
{
}

/// A way through a relay, or a channel, names just the relay at the URL.
pub proof fn ways_name_their_relay(addr: TransportAddr, url: Seq<char>)
    ensures
        is_relay(addr, url) ==> (addr matches TransportAddr::Relay(text) && text@ == url),
        is_webrtc(addr, url) ==> (addr matches TransportAddr::Webrtc(text) && text@ == url),
{
}

/// The demo's limits: texts are answered in upper case up to 4096 bytes, and
/// the upgrade is polled for over thirty seconds.
pub proof fn limits_of_the_demo()
    ensures
        SUMMARY_LIMIT == 4096,
        UPGRADE_DEADLINE_POLLS * UPGRADE_POLL_NS == 30_000_000_000,
        READ_MAX == 16384,
        ALPN@ == "iroh-demo/0"@,
{
}

/// The texts of the demo's refusals.
pub proof fn texts_of_the_demo()
    ensures
        NEEDS_PEER@ == "the client role requires the server's endpoint id (peer)"@,
        NO_UPGRADE@ == "webrtc upgrade did not complete"@,
{
}

} // verus!
