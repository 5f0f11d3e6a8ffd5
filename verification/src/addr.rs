//! Socket addresses and endpoint identities as plain values.

use vstd::prelude::*;

verus! {

/// An endpoint identity: a raw Ed25519 public key.
pub type Id = [u8; 32];

/// An IP address with a port.
#[derive(Clone, Copy, Debug, PartialEq, Eq, Structural)]
pub enum SocketAddr {
    V4 { ip: u32, port: u16 },
    V6 { hi: u64, lo: u64, port: u16, flowinfo: u32, scope_id: u32 },
}

/// The port every synthetic address carries.
pub const SYNTHETIC_PORT: u16 = 4433;

/// The first eight bytes of `2001:db8:<space>::`.
pub open spec fn doc_prefix(space: u16) -> int {
    0x2001_0db8_0000_0000 + space * 0x1_0000
}

/// The synthetic address `2001:db8:<space>::<host>`, port 4433.
pub open spec fn doc_prefix_addr_spec(space: u16, host: u32) -> SocketAddr {
    SocketAddr::V6 {
        hi: doc_prefix(space) as u64,
        lo: host as u64,
        port: SYNTHETIC_PORT,
        flowinfo: 0,
        scope_id: 0,
    }
}

/// A synthetic socket address under the IPv6 documentation prefix
/// (`2001:db8::/32`): `2001:db8:<space>::<hi>:<lo>`, port 4433.
/// Documentation addresses are never routable, so synthetic spaces cannot
/// collide with real peers.
pub fn doc_prefix_addr(space: u16, host: u32) -> (addr: SocketAddr)
    ensures
        addr == doc_prefix_addr_spec(space, host),
{
    SocketAddr::V6 {
        hi: 0x2001_0db8_0000_0000u64 + (space as u64) * 0x1_0000u64,
        lo: host as u64,
        port: SYNTHETIC_PORT,
        flowinfo: 0,
        scope_id: 0,
    }
}

/// Different spaces, and different hosts in one space, never share an
/// address.
pub proof fn doc_prefix_addr_is_injective(space: u16, host: u32, other_space: u16, other_host: u32)
    ensures
        doc_prefix_addr_spec(space, host) == doc_prefix_addr_spec(other_space, other_host)
            <==> space == other_space && host == other_host,
{
}

/// Whether two identities are the same key.
pub fn same_id(a: &Id, b: &Id) -> (same: bool)
    ensures
        same == (*a == *b),
{
    let mut i: usize = 0;
    while i < 32
        invariant
            i <= 32,
            forall|j: int| 0 <= j < i ==> a@[j] == b@[j],
        decreases 32 - i,
    {
        if a[i] != b[i] {
            assert(a@[i as int] != b@[i as int]);
            return false;
        }
        i = i + 1;
    }
    assert(*a =~= *b);
    true
}

/// A synthetic address lies in the documentation prefix: its groups are
/// `2001`, `db8`, the space and zero, then two of zero and the host's two; its
/// port is 4433.
pub proof fn synthetic_addresses_lie_in_the_prefix(space: u16, host: u32)
    ensures
        doc_prefix_addr_spec(space, host) matches SocketAddr::V6 { hi, lo, port, flowinfo, scope_id }
            && hi == 0x2001 * 0x1_0000_0000_0000 + 0xdb8 * 0x1_0000_0000 + space * 0x1_0000 && lo
            == host && port == 4433 && flowinfo == 0 && scope_id == 0,
{
}

/// The port of every synthetic address.
pub proof fn the_synthetic_port()
    ensures
        SYNTHETIC_PORT == 4433,
{
}

} // verus!
