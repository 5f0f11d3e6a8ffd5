//! Raw public keys: the certificate message carries a bare Ed25519
//! `SubjectPublicKeyInfo`, and the key inside it is the peer's identity.

use crate::addr::Id;
use crate::bytes::array_at;
use vstd::prelude::*;

verus! {

/// The SNI placeholder sent on outgoing connections; identity lives in the
/// key pin, not the name.
pub const SERVER_NAME: &'static str = "endpoint.iroh.invalid";

/// What precedes the key in an Ed25519 `SubjectPublicKeyInfo`: the outer and
/// inner sequences, OID 1.3.101.112, and the bit string's header.
pub open spec fn spki_prefix() -> Seq<u8> {
    seq![0x30, 0x2a, 0x30, 0x05, 0x06, 0x03, 0x2b, 0x65, 0x70, 0x03, 0x21, 0x00]
}

/// The DER encoding of `id` as an Ed25519 `SubjectPublicKeyInfo`.
pub open spec fn ed25519_spki(id: Seq<u8>) -> Seq<u8> {
    spki_prefix() + id
}

/// The endpoint ID inside a raw-public-key certificate, if it is a
/// well-formed Ed25519 `SubjectPublicKeyInfo`.
pub fn endpoint_id_from_spki(spki: &[u8]) -> (id: Option<Id>)
    ensures
        match id {
            Some(id) => spki@ == ed25519_spki(id@),
            None => forall|id: Id| spki@ != #[trigger] ed25519_spki(id@),
        },
{
    let prefix: [u8; 12] = [
        0x30, 0x2a, 0x30, 0x05, 0x06, 0x03, 0x2b, 0x65, 0x70, 0x03, 0x21, 0x00,
    ];
    assert(prefix@ =~= spki_prefix());
    if spki.len() != 44 {
        return None;
    }
    let mut i: usize = 0;
    while i < 12
        invariant
            i <= 12,
            spki@.len() == 44,
            prefix@ == spki_prefix(),
            forall|j: int| 0 <= j < i ==> spki@[j] == prefix@[j],
        decreases 12 - i,
    {
        if spki[i] != prefix[i] {
            assert forall|id: Id| spki@ != #[trigger] ed25519_spki(id@) by {
                assert(ed25519_spki(id@)[i as int] == prefix@[i as int]);
            }
            return None;
        }
        i = i + 1;
    }
    let id: Id = array_at::<32>(spki, 12);
    assert(spki@ =~= ed25519_spki(id@));
    Some(id)
}

/// A certificate names at most one identity, and every identity has one.
pub proof fn spki_names_one_identity(a: Id, b: Id)
    ensures
        ed25519_spki(a@) == ed25519_spki(b@) <==> a == b,
{
    if ed25519_spki(a@) == ed25519_spki(b@) {
        assert forall|i: int| 0 <= i < 32 implies a@[i] == b@[i] by {
            assert(ed25519_spki(a@)[12 + i] == a@[i]);
            assert(ed25519_spki(b@)[12 + i] == b@[i]);
        }
        assert(a =~= b);
    }
}

/// The certificate of a key, byte by byte: 44 bytes, of which the last 32 are
/// the key's.
pub proof fn certificates_byte_by_byte(id: Id, i: int)
    ensures
        ({
            let spki = ed25519_spki(id@);
            &&& spki.len() == 44
            &&& spki[0] == 0x30 && spki[1] == 0x2a
            &&& spki[2] == 0x30 && spki[3] == 0x05
            &&& spki[4] == 0x06 && spki[5] == 0x03
            &&& spki[6] == 0x2b && spki[7] == 0x65 && spki[8] == 0x70
            &&& spki[9] == 0x03 && spki[10] == 0x21 && spki[11] == 0x00
            &&& 0 <= i < 32 ==> spki[12 + i] == id@[i]
        }),
{
}

/// The name sent on outgoing connections.
pub proof fn the_server_name_is_a_placeholder()
    ensures
        SERVER_NAME@ == "endpoint.iroh.invalid"@,
{
}

} // verus!
