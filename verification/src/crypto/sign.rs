//! The node identity: an Ed25519 key whose private half is a handle that the
//! caller holds. The public half is the endpoint ID, presented to TLS as a
//! raw public key.

use crate::addr::Id;
use crate::bytes::array_at;
use crate::bytes::contents;
use crate::bytes::copy_bytes;
use crate::text::concat;
use crate::text::decimal;
use crate::text::decimal_string;
use crate::text::same_text;
use crate::tls::ed25519_spki;
use crate::tls::spki_names_one_identity;
use vstd::prelude::*;
use vstd::string::*;

verus! {

/// What an adopted signing key signs to show that it is the private half:
/// a fixed message that matches no protocol's signing format.
pub const PROBE: &'static str = "polymorph:iroh endpoint identity possession probe";

/// The algorithm an identity key must be of.
pub const ALGORITHM: &'static str = "Ed25519";

pub const CANNOT_SIGN: &'static str = "identity signing key does not permit sign";

pub const MISMATCH: &'static str =
    "identity mismatch: the verifying key is not the signing key's public half";

/// TLS's code point for Ed25519 signatures.
pub const ED25519_SCHEME: u16 = 0x0807;

/// How a signing key is minted.
#[derive(Clone, Copy, Debug, PartialEq, Eq, Structural)]
pub struct SigningKeyOptions {
    pub sign: bool,
    pub extractable: bool,
}

/// `rustls::sign::public_key_to_spki` with the Ed25519 algorithm identifier:
/// the DER encoding of a 32-byte key.
#[verifier::external_body]
pub(crate) fn encode_spki(key: &[u8; 32]) -> (spki: Vec<u8>)
    ensures
        spki@ == ed25519_spki(key@),
{
    rustls::sign::public_key_to_spki(&rustls::pki_types::alg_id::ED25519, key).to_vec()
}

/// A node identity's public half.
pub struct Identity {
    /// The raw Ed25519 public key.
    pub endpoint_id: Id,
    /// The key as a DER `SubjectPublicKeyInfo`.
    pub spki: Vec<u8>,
}

/// Why an identity could not be minted.
pub enum MintFailure {
    Generate(String),
    Export(String),
}

/// The text of a mint failure.
pub open spec fn mint_failure_text(failure: MintFailure) -> Seq<char> {
    match failure {
        MintFailure::Generate(detail) => "generate identity: "@ + detail@,
        MintFailure::Export(detail) => "export identity public key: "@ + detail@,
    }
}

/// The text about a public key of the wrong length.
pub open spec fn key_length_text(len: nat) -> Seq<char> {
    "expected 32-byte Ed25519 public key, got "@ + decimal(len)
}

/// The text about a key of the wrong algorithm.
pub open spec fn key_algorithm_text(half: Seq<char>, name: Seq<char>) -> Seq<char> {
    "identity "@ + half + " key is "@ + name + ", not Ed25519"@
}

fn key_algorithm_message(half: &str, name: &str) -> (text: String)
    ensures
        text@ == key_algorithm_text(half@, name@),
{
    let mut text: String = concat("identity ", half);
    text.append(" key is ");
    text.append(name);
    text.append(", not Ed25519");
    text
}

/// The keys of an embedder-supplied pair, as far as they can be asked
/// without using them.
pub struct Injected {
    pub signing_algorithm: String,
    pub verifying_algorithm: String,
    pub can_sign: bool,
}

/// Why a pair is refused before it is used, if it is.
pub open spec fn injected_refusal(pair: Injected) -> Option<Seq<char>> {
    if pair.signing_algorithm@ != ALGORITHM@ {
        Some(key_algorithm_text("signing"@, pair.signing_algorithm@))
    } else if pair.verifying_algorithm@ != ALGORITHM@ {
        Some(key_algorithm_text("verifying"@, pair.verifying_algorithm@))
    } else if !pair.can_sign {
        Some(CANNOT_SIGN@)
    } else {
        None
    }
}

impl Identity {
    /// The certificate is the key's.
    pub open spec fn wf(&self) -> bool {
        self.spki@ == ed25519_spki(self.endpoint_id@)
    }

    /// How the signing key of a fresh identity is minted: the handle can
    /// sign, nothing can read it.
    pub fn key_options() -> (options: SigningKeyOptions)
        ensures
            options.sign,
            !options.extractable,
    {
        SigningKeyOptions { sign: true, extractable: false }
    }

    /// The identity of a public key.
    fn adopt(endpoint_id: Id) -> (identity: Self)
        ensures
            identity.wf(),
            identity.endpoint_id == endpoint_id,
    {
        Identity { endpoint_id, spki: encode_spki(&endpoint_id) }
    }

    /// The endpoint ID in an exported public key.
    fn endpoint_id_of(raw: &Vec<u8>) -> (id: Result<Id, String>)
        ensures
            match id {
                Ok(id) => raw@.len() == 32 && id@ == raw@,
                Err(text) => raw@.len() != 32 && text@ == key_length_text(raw@.len()),
            },
    {
        if raw.len() != 32 {
            let len: String = decimal_string(raw.len() as u64);
            return Err(concat("expected 32-byte Ed25519 public key, got ", len.as_str()));
        }
        let id: Id = array_at::<32>(raw.as_slice(), 0);
        assert(id@ =~= raw@);
        Ok(id)
    }

    /// The identity of a freshly minted key pair, from its exported public
    /// half.
    pub fn generate(exported: Result<Vec<u8>, MintFailure>) -> (identity: Result<Self, String>)
        ensures
            match identity {
                Ok(identity) => exported matches Ok(raw) && identity.wf()
                    && identity.endpoint_id@ == raw@,
                Err(text) => match exported {
                    Ok(raw) => raw@.len() != 32 && text@ == key_length_text(raw@.len()),
                    Err(failure) => text@ == mint_failure_text(failure),
                },
            },
    {
        match exported {
            Err(MintFailure::Generate(detail)) => Err(
                concat("generate identity: ", detail.as_str()),
            ),
            Err(MintFailure::Export(detail)) => Err(
                concat("export identity public key: ", detail.as_str()),
            ),
            Ok(raw) => match Self::endpoint_id_of(&raw) {
                Ok(id) => Ok(Self::adopt(id)),
                Err(text) => Err(text),
            },
        }
    }

    /// Check a pair before it is used: algorithms, then the permission to
    /// sign.
    pub fn check_injected(pair: &Injected) -> (checked: Result<(), String>)
        ensures
            match checked {
                Ok(()) => injected_refusal(*pair) is None,
                Err(text) => injected_refusal(*pair) == Some(text@),
            },
    {
        if !same_text(pair.signing_algorithm.as_str(), ALGORITHM) {
            return Err(key_algorithm_message("signing", pair.signing_algorithm.as_str()));
        }
        if !same_text(pair.verifying_algorithm.as_str(), ALGORITHM) {
            return Err(key_algorithm_message("verifying", pair.verifying_algorithm.as_str()));
        }
        if !pair.can_sign {
            return Err(CANNOT_SIGN.to_owned());
        }
        Ok(())
    }

    /// The endpoint ID of a pair whose verifying key was exported.
    pub fn injected_id(exported: Result<Vec<u8>, String>) -> (id: Result<Id, String>)
        ensures
            match id {
                Ok(id) => exported matches Ok(raw) && id@ == raw@,
                Err(text) => match exported {
                    Ok(raw) => raw@.len() != 32 && text@ == key_length_text(raw@.len()),
                    Err(detail) => text@ == "export identity public key: "@ + detail@,
                },
            },
    {
        match exported {
            Ok(raw) => Self::endpoint_id_of(&raw),
            Err(detail) => Err(concat("export identity public key: ", detail.as_str())),
        }
    }

    /// Adopt an embedder-supplied pair, from the answers its halves gave: the
    /// exported public key, whether signing the probe worked, and whether the
    /// verifying half took the signature. The pair is checked here, so that a
    /// bad one fails at bind rather than as handshake failures against every
    /// peer.
    pub fn from_injected(
        pair: &Injected,
        exported: Result<Vec<u8>, String>,
        signed: Result<(), String>,
        verified: bool,
    ) -> (identity: Result<Self, String>)
        ensures
            match identity {
                Ok(identity) => {
                    &&& injected_refusal(*pair) is None
                    &&& exported matches Ok(raw)
                    &&& signed is Ok
                    &&& verified
                    &&& identity.wf()
                    &&& identity.endpoint_id@ == raw@
                },
                Err(text) => if injected_refusal(*pair) is Some {
                    injected_refusal(*pair) == Some(text@)
                } else {
                    match exported {
                        Err(detail) => text@ == "export identity public key: "@ + detail@,
                        Ok(raw) => if raw@.len() != 32 {
                            text@ == key_length_text(raw@.len())
                        } else {
                            match signed {
                                Err(detail) => text@ == "identity probe signature: "@ + detail@,
                                Ok(()) => !verified && text@ == MISMATCH@,
                            }
                        },
                    }
                },
            },
    {
        match Self::check_injected(pair) {
            Ok(()) => {},
            Err(text) => {
                return Err(text);
            },
        }
        match Self::injected_id(exported) {
            Err(text) => Err(text),
            Ok(id) => match signed {
                Err(detail) => Err(concat("identity probe signature: ", detail.as_str())),
                Ok(()) => if verified {
                    Ok(Self::adopt(id))
                } else {
                    Err(MISMATCH.to_owned())
                },
            },
        }
    }

    /// The certificates presented to a peer: the bare key.
    pub fn certified_key(&self) -> (certificates: Vec<Vec<u8>>)
        ensures
            contents(certificates@) == seq![self.spki@],
    {
        let mut certificates: Vec<Vec<u8>> = Vec::new();
        certificates.push(copy_bytes(self.spki.as_slice()));
        assert(contents(certificates@) =~= seq![self.spki@]);
        certificates
    }

    /// What the identity key's signature over a message comes to.
    pub fn sign(signature: Result<Vec<u8>, String>) -> (signed: Result<Vec<u8>, String>)
        ensures
            match signature {
                Ok(bytes) => signed matches Ok(out) && out@ == bytes@,
                Err(detail) => signed matches Err(text) && text@ == "webcrypto ed25519 sign: "@
                    + detail@,
            },
    {
        match signature {
            Ok(bytes) => Ok(bytes),
            Err(detail) => Err(concat("webcrypto ed25519 sign: ", detail.as_str())),
        }
    }
}

/// Whether one of the offered signature schemes is Ed25519, the only one an
/// identity signs with.
pub fn choose_scheme(offered: &Vec<u16>) -> (chosen: bool)
    ensures
        chosen == offered@.contains(ED25519_SCHEME),
{
    let mut i: usize = 0;
    while i < offered.len()
        invariant
            i <= offered@.len(),
            forall|j: int| 0 <= j < i ==> offered@[j] != ED25519_SCHEME,
        decreases offered@.len() - i,
    {
        if offered[i] == ED25519_SCHEME {
            assert(offered@[i as int] == ED25519_SCHEME);
            return true;
        }
        i = i + 1;
    }
    false
}

/// The certificate that an identity presents names that identity and no
/// other.
pub proof fn certificate_names_identity(identity: Identity, id: Id)
    requires
        identity.wf(),
    ensures
        identity.spki@ == ed25519_spki(id@) <==> identity.endpoint_id == id,
{
    spki_names_one_identity(identity.endpoint_id, id);
}

/// A pair is taken exactly if both halves are Ed25519 and the first may sign;
/// otherwise the first of these that fails is told, the signing half's
/// algorithm, then the verifying half's, then the permission.
pub proof fn pairs_are_refused_in_order(pair: Injected)
    ensures
        injected_refusal(pair) is None <==> pair.signing_algorithm@ == "Ed25519"@
            && pair.verifying_algorithm@ == "Ed25519"@ && pair.can_sign,
        pair.signing_algorithm@ != "Ed25519"@ ==> injected_refusal(pair) == Some(
            "identity "@ + "signing"@ + " key is "@ + pair.signing_algorithm@ + ", not Ed25519"@,
        ),
        pair.signing_algorithm@ == "Ed25519"@ && pair.verifying_algorithm@ != "Ed25519"@
            ==> injected_refusal(pair) == Some(
            "identity "@ + "verifying"@ + " key is "@ + pair.verifying_algorithm@
                + ", not Ed25519"@,
        ),
        pair.signing_algorithm@ == "Ed25519"@ && pair.verifying_algorithm@ == "Ed25519"@
            && !pair.can_sign ==> injected_refusal(pair) == Some(
            "identity signing key does not permit sign"@,
        ),
{
}

/// A mint failure tells its stage, and a key of the wrong length its length.
pub proof fn mint_failures_tell_their_stage(detail: String, len: nat)
    ensures
        mint_failure_text(MintFailure::Generate(detail)) == "generate identity: "@ + detail@,
        mint_failure_text(MintFailure::Export(detail)) == "export identity public key: "@
            + detail@,
        key_length_text(len) == "expected 32-byte Ed25519 public key, got "@ + decimal(len),
{
}

/// The code point and the probe of the identity's signatures.
pub proof fn identity_signatures_are_ed25519()
    ensures
        ED25519_SCHEME == 0x0807,
        ALGORITHM@ == "Ed25519"@,
        PROBE@ == "polymorph:iroh endpoint identity possession probe"@,
        MISMATCH@
            == "identity mismatch: the verifying key is not the signing key's public half"@,
{
}

} // verus!
