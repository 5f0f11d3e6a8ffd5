//! Choosing the path to dial, and what binding an endpoint asks for.

use super::error::Error;
use super::error::ErrorModel;
use crate::addr::Id;
use crate::addr::SocketAddr;
use crate::bytes::array_at;
use crate::text::same_text;
use crate::text::trim_end;
use crate::text::trim_end_matches;
use vstd::prelude::*;

verus! {

/// The fixed, conservative datagram size every wire carries: the relay and
/// the data channel fragment transparently, so probing for more would
/// measure nothing, and this size never engages that fragmentation.
pub const INITIAL_MTU: u16 = 1200;

pub const NEEDS_RELAY: &'static str =
    "bind requires a relay-url (the relay wire is the only path yet)";

pub const NEEDS_ALPN: &'static str = "bind requires at least one alpn";

pub const ID_LENGTH: &'static str = "endpoint id is not 32 bytes";

pub const CROSS_RELAY: &'static str = "cross-relay dialing is not implemented yet";

pub const FOREIGN_SIGNALING: &'static str =
    "webrtc signaling through a foreign relay is not implemented yet";

/// One way to reach a peer.
pub enum TransportAddr {
    Relay(String),
    /// A socket address, where the text was one.
    Ip(Option<SocketAddr>),
    Webrtc(String),
    Custom,
}

/// The path that is dialed.
#[derive(Clone, Copy, Debug, PartialEq, Eq, Structural)]
pub enum DialPath {
    Direct(SocketAddr),
    Relay,
}

/// Whom to dial, and how.
pub struct DialPlan {
    pub peer: Id,
    pub path: DialPath,
    /// Once the connection is up, signal a data channel in the background
    /// for it to move to.
    pub upgrade: bool,
}

/// How QUIC sizes what it sends.
#[derive(Clone, Copy, Debug, PartialEq, Eq, Structural)]
pub struct TransportProfile {
    pub initial_mtu: u16,
    /// Probe for a larger size.
    pub mtu_discovery: bool,
    /// Datagrams per transmit.
    pub max_datagrams: usize,
}

/// The profile that every wire shares: the fixed size, no discovery, one
/// datagram per transmit.
pub fn transport_profile() -> (profile: TransportProfile)
    ensures
        profile.initial_mtu == 1200,
        !profile.mtu_discovery,
        profile.max_datagrams == 1,
{
    TransportProfile { initial_mtu: INITIAL_MTU, mtu_discovery: false, max_datagrams: 1 }
}

/// Two relay URLs name one relay: they differ in trailing slashes at most.
pub open spec fn same_relay(a: Seq<char>, b: Seq<char>) -> bool {
    trim_end(a, '/') == trim_end(b, '/')
}

/// Why `addr` cannot be dialed from an endpoint at `relay_url`, if it cannot.
pub open spec fn refusal(
    addr: TransportAddr,
    relay_url: Seq<char>,
    webrtc_enabled: bool,
) -> Option<ErrorModel> {
    match addr {
        TransportAddr::Relay(url) => if same_relay(url@, relay_url) {
            None
        } else {
            Some(ErrorModel::ConnectFailed(CROSS_RELAY@))
        },
        TransportAddr::Webrtc(url) => if !webrtc_enabled || same_relay(url@, relay_url) {
            None
        } else {
            Some(ErrorModel::ConnectFailed(FOREIGN_SIGNALING@))
        },
        _ => None,
    }
}

/// The first refusal among `addrs`.
pub open spec fn first_refusal(
    addrs: Seq<TransportAddr>,
    relay_url: Seq<char>,
    webrtc_enabled: bool,
) -> Option<ErrorModel>
    decreases addrs.len(),
{
    if addrs.len() == 0 {
        None
    } else {
        match first_refusal(addrs.drop_last(), relay_url, webrtc_enabled) {
            Some(error) => Some(error),
            None => refusal(addrs.last(), relay_url, webrtc_enabled),
        }
    }
}

/// The first socket address among `addrs`.
pub open spec fn first_direct(addrs: Seq<TransportAddr>) -> Option<SocketAddr>
    decreases addrs.len(),
{
    if addrs.len() == 0 {
        None
    } else {
        match (first_direct(addrs.drop_last()), addrs.last()) {
            (Some(addr), _) => Some(addr),
            (None, TransportAddr::Ip(addr)) => addr,
            (None, _) => None,
        }
    }
}

/// `addrs` offer a WebRTC channel.
pub open spec fn offers_webrtc(addrs: Seq<TransportAddr>) -> bool {
    exists|i: int| 0 <= i < addrs.len() && #[trigger] addrs[i] is Webrtc
}

/// The path by fixed precedence: a socket address (with a bound socket), then
/// the relay.
pub open spec fn chosen_path(addrs: Seq<TransportAddr>, has_udp: bool) -> DialPath {
    if has_udp && first_direct(addrs) is Some {
        DialPath::Direct(first_direct(addrs)->0)
    } else {
        DialPath::Relay
    }
}

/// A connection dialed through the relay is to move to a data channel: one is
/// offered, and this endpoint uses them.
pub open spec fn wants_upgrade(
    addrs: Seq<TransportAddr>,
    has_udp: bool,
    webrtc_enabled: bool,
) -> bool {
    webrtc_enabled && offers_webrtc(addrs) && chosen_path(addrs, has_udp) is Relay
}

/// The plan for dialing `endpoint_id` at `addrs`, where nothing is refused.
pub open spec fn plan_fits(
    endpoint_id: Seq<u8>,
    addrs: Seq<TransportAddr>,
    relay_url: Seq<char>,
    has_udp: bool,
    webrtc_enabled: bool,
    plan: DialPlan,
) -> bool {
    &&& endpoint_id.len() == 32
    &&& plan.peer@ == endpoint_id
    &&& first_refusal(addrs, relay_url, webrtc_enabled) is None
    &&& plan.path == chosen_path(addrs, has_udp)
    &&& plan.upgrade == wants_upgrade(addrs, has_udp, webrtc_enabled)
}

fn is_same_relay(a: &str, b: &str) -> (same: bool)
    ensures
        same == same_relay(a@, b@),
{
    let x: String = trim_end_matches(a, '/');
    let y: String = trim_end_matches(b, '/');
    same_text(x.as_str(), y.as_str())
}

/// Decide whom to dial and how. One path is dialed, a socket address or the
/// relay; there is no racing, so a chosen path that never answers fails by
/// timeout rather than falling back. A WebRTC entry is not dialed: it upgrades
/// a connection dialed through the relay.
pub fn plan_dial(
    endpoint_id: &[u8],
    addrs: &Vec<TransportAddr>,
    relay_url: &str,
    has_udp: bool,
    webrtc_enabled: bool,
) -> (plan: Result<DialPlan, Error>)
    ensures
        match plan {
            Ok(plan) => plan_fits(
                endpoint_id@,
                addrs@,
                relay_url@,
                has_udp,
                webrtc_enabled,
                plan,
            ),
            Err(error) => if endpoint_id@.len() != 32 {
                error@ == ErrorModel::InvalidArgument(ID_LENGTH@)
            } else {
                first_refusal(addrs@, relay_url@, webrtc_enabled) == Some(error@)
            },
        },
{
    if endpoint_id.len() != 32 {
        return Err(Error::InvalidArgument(ID_LENGTH.to_owned()));
    }
    let peer: Id = array_at::<32>(endpoint_id, 0);
    assert(peer@ =~= endpoint_id@);
    let mut direct: Option<SocketAddr> = None;
    let mut offered: bool = false;
    let mut i: usize = 0;
    while i < addrs.len()
        invariant
            i <= addrs@.len(),
            first_refusal(addrs@.take(i as int), relay_url@, webrtc_enabled) is None,
            direct == (if has_udp {
                first_direct(addrs@.take(i as int))
            } else {
                None
            }),
            offered == (webrtc_enabled && offers_webrtc(addrs@.take(i as int))),
            endpoint_id@.len() == 32,
        decreases addrs@.len() - i,
    {
        let ghost seen = addrs@.take(i as int);
        let ghost next = addrs@.take(i + 1);
        assert(next.drop_last() =~= seen);
        assert(next.last() == addrs@[i as int]);
        assert(offers_webrtc(next) <==> offers_webrtc(seen) || addrs@[i as int] is Webrtc) by {
            if offers_webrtc(seen) {
                let k = choose|k: int| 0 <= k < seen.len() && #[trigger] seen[k] is Webrtc;
                assert(next[k] is Webrtc);
            }
            if addrs@[i as int] is Webrtc {
                assert(next[i as int] is Webrtc);
            }
            if offers_webrtc(next) {
                let k = choose|k: int| 0 <= k < next.len() && #[trigger] next[k] is Webrtc;
                if k < i {
                    assert(seen[k] is Webrtc);
                }
            }
        }
        match &addrs[i] {
            TransportAddr::Relay(url) => {
                if !is_same_relay(url.as_str(), relay_url) {
                    proof {
                        refusal_is_first(addrs@, relay_url@, webrtc_enabled, i as int);
                    }
                    return Err(Error::ConnectFailed(CROSS_RELAY.to_owned()));
                }
            },
            TransportAddr::Ip(addr) => {
                if direct.is_none() && has_udp {
                    direct = *addr;
                }
            },
            TransportAddr::Webrtc(url) => {
                if webrtc_enabled {
                    if !is_same_relay(url.as_str(), relay_url) {
                        proof {
                            refusal_is_first(addrs@, relay_url@, webrtc_enabled, i as int);
                        }
                        return Err(Error::ConnectFailed(FOREIGN_SIGNALING.to_owned()));
                    }
                    offered = true;
                }
            },
            TransportAddr::Custom => {},
        }
        i = i + 1;
    }
    assert(addrs@.take(i as int) =~= addrs@);
    match direct {
        Some(addr) => Ok(DialPlan { peer, path: DialPath::Direct(addr), upgrade: false }),
        None => Ok(DialPlan { peer, path: DialPath::Relay, upgrade: offered }),
    }
}

/// Where nothing before position `i` is refused, the refusal at `i` is the
/// first.
proof fn refusal_is_first(
    addrs: Seq<TransportAddr>,
    relay_url: Seq<char>,
    webrtc_enabled: bool,
    i: int,
)
    requires
        0 <= i < addrs.len(),
        first_refusal(addrs.take(i), relay_url, webrtc_enabled) is None,
        refusal(addrs[i], relay_url, webrtc_enabled) is Some,
    ensures
        first_refusal(addrs, relay_url, webrtc_enabled) == refusal(
            addrs[i],
            relay_url,
            webrtc_enabled,
        ),
    decreases addrs.len(),
{
    if i == addrs.len() - 1 {
        assert(addrs.take(i) =~= addrs.drop_last());
    } else {
        assert(addrs.drop_last().take(i) =~= addrs.take(i));
        refusal_is_first(addrs.drop_last(), relay_url, webrtc_enabled, i);
    }
}

/// Check what `bind` was given: a relay URL, then at least one protocol.
pub fn check_bind(relay_url: Option<String>, alpns: &Vec<Vec<u8>>) -> (checked: Result<
    String,
    Error,
>)
    ensures
        match checked {
            Ok(url) => relay_url is Some && url@ == relay_url->0@ && alpns@.len() > 0,
            Err(error) => if relay_url is None {
                error@ == ErrorModel::InvalidArgument(NEEDS_RELAY@)
            } else {
                alpns@.len() == 0 && error@ == ErrorModel::InvalidArgument(NEEDS_ALPN@)
            },
        },
{
    match relay_url {
        None => Err(Error::InvalidArgument(NEEDS_RELAY.to_owned())),
        Some(url) => {
            if alpns.len() == 0 {
                Err(Error::InvalidArgument(NEEDS_ALPN.to_owned()))
            } else {
                Ok(url)
            }
        },
    }
}

/// A direct address takes precedence wherever it stands: with a bound socket
/// the first one listed is dialed, whatever else is offered.
pub proof fn direct_addresses_take_precedence(
    endpoint_id: Seq<u8>,
    addrs: Seq<TransportAddr>,
    relay_url: Seq<char>,
    webrtc_enabled: bool,
    plan: DialPlan,
    i: int,
    addr: SocketAddr,
)
    requires
        plan_fits(endpoint_id, addrs, relay_url, true, webrtc_enabled, plan),
        0 <= i < addrs.len(),
        addrs[i] == TransportAddr::Ip(Some(addr)),
        forall|j: int|
            0 <= j < i ==> !(#[trigger] addrs[j] matches TransportAddr::Ip(other) && other is Some),
    ensures
        plan.path == DialPath::Direct(addr),
        !plan.upgrade,
{
    first_direct_is_first(addrs, i, addr);
}

/// The relay is dialed exactly where no direct address can be, and the dialed
/// peer is the one that was asked for.
pub proof fn the_relay_is_the_last_resort(
    endpoint_id: Seq<u8>,
    addrs: Seq<TransportAddr>,
    relay_url: Seq<char>,
    has_udp: bool,
    webrtc_enabled: bool,
    plan: DialPlan,
)
    requires
        plan_fits(endpoint_id, addrs, relay_url, has_udp, webrtc_enabled, plan),
    ensures
        plan.path is Relay <==> !has_udp || forall|i: int|
            0 <= i < addrs.len() ==> !(#[trigger] addrs[i] matches TransportAddr::Ip(addr)
                && addr is Some),
        plan.upgrade <==> webrtc_enabled && plan.path is Relay && exists|i: int|
            0 <= i < addrs.len() && #[trigger] addrs[i] is Webrtc,
        plan.peer@ == endpoint_id,
        forall|i: int|
            0 <= i < addrs.len() ==> !names_foreign_relay(
                #[trigger] addrs[i],
                relay_url,
                webrtc_enabled,
            ),
{
    assert forall|i: int| 0 <= i < addrs.len() implies !names_foreign_relay(
        #[trigger] addrs[i],
        relay_url,
        webrtc_enabled,
    ) by {
        unrefused_entries_are_own(addrs, relay_url, webrtc_enabled, i);
    }
    if first_direct(addrs) is Some {
        first_direct_is_listed(addrs);
        let i = choose|i: int|
            0 <= i < addrs.len() && #[trigger] addrs[i] == TransportAddr::Ip(first_direct(addrs));
        assert(addrs[i] matches TransportAddr::Ip(addr) && addr is Some);
    } else {
        assert forall|i: int| 0 <= i < addrs.len() implies !(
        #[trigger] addrs[i] matches TransportAddr::Ip(addr) && addr is Some) by {
            no_direct_is_listed(addrs, i);
        }
    }
}

/// A dial is refused exactly for the first entry, in the order listed, that
/// names a foreign relay: one to relay through, or one to signal through on an
/// endpoint that uses WebRTC.
pub proof fn dials_are_refused_for_foreign_relays(
    addrs: Seq<TransportAddr>,
    relay_url: Seq<char>,
    webrtc_enabled: bool,
    i: int,
)
    requires
        0 <= i < addrs.len(),
        forall|j: int|
            0 <= j < i ==> !names_foreign_relay(#[trigger] addrs[j], relay_url, webrtc_enabled),
    ensures
        names_foreign_relay(addrs[i], relay_url, webrtc_enabled) ==> first_refusal(
            addrs,
            relay_url,
            webrtc_enabled,
        ) == Some(
            ErrorModel::ConnectFailed(
                if addrs[i] is Relay {
                    "cross-relay dialing is not implemented yet"@
                } else {
                    "webrtc signaling through a foreign relay is not implemented yet"@
                },
            ),
        ),
        !names_foreign_relay(addrs[i], relay_url, webrtc_enabled) && i == addrs.len() - 1
            ==> first_refusal(addrs, relay_url, webrtc_enabled) is None,
    decreases addrs.len(),
{
    if i == addrs.len() - 1 {
        let rest = addrs.drop_last();
        if rest.len() > 0 {
            assert forall|j: int| 0 <= j < i implies !names_foreign_relay(
                #[trigger] rest[j],
                relay_url,
                webrtc_enabled,
            ) by {
                assert(rest[j] == addrs[j]);
            }
            assert(!names_foreign_relay(addrs[i - 1], relay_url, webrtc_enabled));
            dials_are_refused_for_foreign_relays(rest, relay_url, webrtc_enabled, i - 1);
        }
    } else {
        let rest = addrs.drop_last();
        assert forall|j: int| 0 <= j < i implies !names_foreign_relay(
            #[trigger] rest[j],
            relay_url,
            webrtc_enabled,
        ) by {
            assert(rest[j] == addrs[j]);
        }
        dials_are_refused_for_foreign_relays(rest, relay_url, webrtc_enabled, i);
    }
}

/// The entry needs a relay other than the endpoint's own.
pub open spec fn names_foreign_relay(
    addr: TransportAddr,
    relay_url: Seq<char>,
    webrtc_enabled: bool,
) -> bool {
    match addr {
        TransportAddr::Relay(url) => !same_relay(url@, relay_url),
        TransportAddr::Webrtc(url) => webrtc_enabled && !same_relay(url@, relay_url),
        _ => false,
    }
}

/// Trailing slashes are all that two URLs of one relay can differ in.
pub proof fn relays_differ_in_trailing_slashes(a: Seq<char>, b: Seq<char>, n: nat, k: nat)
    requires
        a.len() == 0 || a.last() != '/',
        b.len() == 0 || b.last() != '/',
    ensures
        same_relay(a + Seq::new(n, |i: int| '/'), b + Seq::new(k, |i: int| '/')) <==> a == b,
{
    slashes_are_trimmed(a, n);
    slashes_are_trimmed(b, k);
}

proof fn slashes_are_trimmed(a: Seq<char>, n: nat)
    requires
        a.len() == 0 || a.last() != '/',
    ensures
        trim_end(a + Seq::new(n, |i: int| '/'), '/') == a,
    decreases n,
{
    let s = a + Seq::new(n, |i: int| '/');
    if n == 0 {
        assert(s =~= a);
    } else {
        assert(s.drop_last() =~= a + Seq::new((n - 1) as nat, |i: int| '/'));
        slashes_are_trimmed(a, (n - 1) as nat);
    }
}

proof fn first_direct_is_first(addrs: Seq<TransportAddr>, i: int, addr: SocketAddr)
    requires
        0 <= i < addrs.len(),
        addrs[i] == TransportAddr::Ip(Some(addr)),
        forall|j: int|
            0 <= j < i ==> !(#[trigger] addrs[j] matches TransportAddr::Ip(other) && other is Some),
    ensures
        first_direct(addrs) == Some(addr),
    decreases addrs.len(),
{
    let rest = addrs.drop_last();
    if i == addrs.len() - 1 {
        if first_direct(rest) is Some {
            first_direct_is_listed(rest);
            let j = choose|j: int|
                0 <= j < rest.len() && #[trigger] rest[j] == TransportAddr::Ip(first_direct(rest));
            assert(addrs[j] == rest[j]);
        }
    } else {
        assert forall|j: int| 0 <= j < i implies !(
        #[trigger] rest[j] matches TransportAddr::Ip(other) && other is Some) by {
            assert(rest[j] == addrs[j]);
        }
        first_direct_is_first(rest, i, addr);
    }
}

proof fn first_direct_is_listed(addrs: Seq<TransportAddr>)
    requires
        first_direct(addrs) is Some,
    ensures
        exists|i: int|
            0 <= i < addrs.len() && #[trigger] addrs[i] == TransportAddr::Ip(first_direct(addrs)),
    decreases addrs.len(),
{
    let rest = addrs.drop_last();
    if first_direct(rest) is Some {
        first_direct_is_listed(rest);
        let i = choose|i: int|
            0 <= i < rest.len() && #[trigger] rest[i] == TransportAddr::Ip(first_direct(rest));
        assert(addrs[i] == rest[i]);
    } else {
        assert(addrs[addrs.len() - 1] == TransportAddr::Ip(first_direct(addrs)));
    }
}

proof fn no_direct_is_listed(addrs: Seq<TransportAddr>, i: int)
    requires
        0 <= i < addrs.len(),
        first_direct(addrs) is None,
    ensures
        !(addrs[i] matches TransportAddr::Ip(addr) && addr is Some),
    decreases addrs.len(),
{
    if i < addrs.len() - 1 {
        no_direct_is_listed(addrs.drop_last(), i);
        assert(addrs.drop_last()[i] == addrs[i]);
    }
}

/// The size of the first packets, and the texts of what binding and dialing refuse.
pub proof fn texts_of_binding_and_dialing()
    ensures
        INITIAL_MTU == 1200,
        ID_LENGTH@ == "endpoint id is not 32 bytes"@,
        NEEDS_ALPN@ == "bind requires at least one alpn"@,
        NEEDS_RELAY@ == "bind requires a relay-url (the relay wire is the only path yet)"@,
{
}

/// Where nothing is refused, no entry needs a foreign relay.
proof fn unrefused_entries_are_own(
    addrs: Seq<TransportAddr>,
    relay_url: Seq<char>,
    webrtc_enabled: bool,
    i: int,
)
    requires
        0 <= i < addrs.len(),
        first_refusal(addrs, relay_url, webrtc_enabled) is None,
    ensures
        !names_foreign_relay(addrs[i], relay_url, webrtc_enabled),
    decreases addrs.len(),
{
    if i < addrs.len() - 1 {
        unrefused_entries_are_own(addrs.drop_last(), relay_url, webrtc_enabled, i);
    }
}

} // verus!
