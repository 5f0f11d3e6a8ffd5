//! Ed25519 signature verification through a handle that the caller holds.

use crate::tls::ed25519_spki;
use vstd::prelude::*;

verus! {

/// A signature that does not verify.
#[derive(Clone, Copy, Debug, PartialEq, Eq, Structural)]
pub struct InvalidSignature;

/// The only verification algorithm.
#[derive(Clone, Copy, Debug)]
pub struct Ed25519Webcrypto;

/// The DER algorithm identifier of Ed25519: OID 1.3.101.112.
pub open spec fn ed25519_alg_id() -> Seq<u8> {
    seq![0x06, 0x03, 0x2b, 0x65, 0x70]
}

impl Ed25519Webcrypto {
    /// A signature is valid exactly if the key could be imported and took it.
    pub fn verify_signature(&self, imported: bool, verified: bool) -> (valid: Result<
        (),
        InvalidSignature,
    >)
        ensures
            valid is Ok <==> imported && verified,
    {
        if imported && verified {
            Ok(())
        } else {
            Err(InvalidSignature)
        }
    }

    pub fn public_key_alg_id(&self) -> (id: [u8; 5])
        ensures
            id@ == ed25519_alg_id(),
    {
        let id: [u8; 5] = [0x06, 0x03, 0x2b, 0x65, 0x70];
        assert(id@ =~= ed25519_alg_id());
        id
    }

    pub fn signature_alg_id(&self) -> (id: [u8; 5])
        ensures
            id@ == ed25519_alg_id(),
    {
        self.public_key_alg_id()
    }
}

/// The algorithm identifier is that inside an Ed25519 certificate.
pub proof fn algorithms_are_named_as_in_certificates(key: Seq<u8>, i: int)
    ensures
        ed25519_alg_id().len() == 5,
        0 <= i < 5 ==> ed25519_alg_id()[i] == ed25519_spki(key)[4 + i],
{
}

} // verus!
