//! The outside primitives everything else here is built on. Each function
//! makes one call; what the call computes has a name that contracts use.

use aes::cipher::BlockEncrypt;
use aes::cipher::KeyInit;
use aes_gcm::AeadInPlace;
use hmac::Mac;
use sha2::Digest;
use vstd::prelude::*;

verus! {

/// The longest plaintext AES-GCM seals: 2^36 bytes.
pub const GCM_MAX_LEN: u64 = 0x10_0000_0000;

/// The SHA-256 digest of `data`.
pub uninterp spec fn sha256(data: Seq<u8>) -> Seq<u8>;

/// `sha2::Sha256::digest`: the digest of `data`, a function of the bytes
/// alone.
#[verifier::external_body]
pub(crate) fn sha256_digest(data: &[u8]) -> (digest: [u8; 32])
    ensures
        digest@ == sha256(data@),
{
    sha2::Sha256::digest(data).into()
}

/// The HMAC-SHA-256 tag of `message` under `key`.
pub uninterp spec fn hmac_sha256(key: Seq<u8>, message: Seq<u8>) -> Seq<u8>;

/// `hmac::Hmac<sha2::Sha256>`, keyed with `key` (any length is accepted),
/// fed `message`, and finalized: a function of both alone.
#[verifier::external_body]
pub(crate) fn hmac_sha256_tag(key: &[u8], message: &[u8]) -> (tag: [u8; 32])
    ensures
        tag@ == hmac_sha256(key@, message@),
{
    let mut mac = <hmac::Hmac<sha2::Sha256> as Mac>::new_from_slice(key).expect("any key length");
    mac.update(message);
    mac.finalize().into_bytes().into()
}

/// The AES-128-GCM ciphertext and tag of `plain` under `key` and `nonce`,
/// with `aad` authenticated beside it.
pub uninterp spec fn gcm_seal(
    key: Seq<u8>,
    nonce: Seq<u8>,
    aad: Seq<u8>,
    plain: Seq<u8>,
) -> (Seq<u8>, Seq<u8>);

/// The lengths that AES-GCM takes.
pub open spec fn gcm_fits(aad: Seq<u8>, plain: Seq<u8>) -> bool {
    aad.len() <= GCM_MAX_LEN && plain.len() <= GCM_MAX_LEN
}

/// `Aes128Gcm::encrypt_in_place_detached`: the buffer becomes the ciphertext
/// and the tag is returned; refused, with the buffer untouched, exactly if
/// the plaintext or the associated data is over-long.
#[verifier::external_body]
pub(crate) fn gcm_encrypt(
    key: &[u8; 16],
    nonce: &[u8; 12],
    aad: &[u8],
    buffer: &mut [u8],
) -> (tag: Option<[u8; 16]>)
    ensures
        final(buffer)@.len() == old(buffer)@.len(),
        match tag {
            Some(tag) => gcm_fits(aad@, old(buffer)@) && (final(buffer)@, tag@) == gcm_seal(
                key@,
                nonce@,
                aad@,
                old(buffer)@,
            ),
            None => !gcm_fits(aad@, old(buffer)@) && final(buffer)@ == old(buffer)@,
        },
{
    let cipher = aes_gcm::Aes128Gcm::new(key.into());
    match cipher.encrypt_in_place_detached(nonce.into(), aad, buffer) {
        Ok(tag) => Some(tag.into()),
        Err(_) => None,
    }
}

/// `Aes128Gcm::decrypt_in_place_detached`: succeeds exactly on what sealing
/// some plaintext gives, and then the buffer holds that plaintext; otherwise
/// the buffer is untouched. Left unsaid: what a ciphertext longer than any
/// sealed one opens to.
#[verifier::external_body]
pub(crate) fn gcm_decrypt(
    key: &[u8; 16],
    nonce: &[u8; 12],
    aad: &[u8],
    buffer: &mut [u8],
    tag: &[u8; 16],
) -> (opened: bool)
    ensures
        final(buffer)@.len() == old(buffer)@.len(),
        !opened ==> final(buffer)@ == old(buffer)@,
        opened && gcm_fits(aad@, old(buffer)@) ==> gcm_seal(key@, nonce@, aad@, final(buffer)@) == (
            old(buffer)@,
            tag@,
        ),
        forall|plain: Seq<u8>| #[trigger]
            gcm_seal(key@, nonce@, aad@, plain) == (old(buffer)@, tag@) && gcm_fits(aad@, plain)
                && plain.len() == old(buffer)@.len() ==> opened && final(buffer)@ == plain,
{
    let cipher = aes_gcm::Aes128Gcm::new(key.into());
    cipher.decrypt_in_place_detached(nonce.into(), aad, buffer, tag.into()).is_ok()
}

/// The AES-128 encryption of one block.
pub uninterp spec fn aes128_block(key: Seq<u8>, block: Seq<u8>) -> Seq<u8>;

/// `aes::Aes128::encrypt_block`: the encryption of `block` under `key`, a
/// function of both alone.
#[verifier::external_body]
pub(crate) fn aes128_encrypt(key: &[u8; 16], block: &[u8; 16]) -> (out: [u8; 16])
    ensures
        out@ == aes128_block(key@, block@),
{
    let cipher = aes::Aes128::new(key.into());
    let mut out = aes::Block::clone_from_slice(block);
    cipher.encrypt_block(&mut out);
    out.into()
}

/// AES-GCM takes up to 2^36 bytes of plaintext, and of associated data.
pub proof fn gcm_takes_up_to_its_limit(aad: Seq<u8>, plain: Seq<u8>)
    ensures
        gcm_fits(aad, plain) <==> aad.len() <= 64 * 1024 * 1024 * 1024 && plain.len() <= 64 * 1024
            * 1024 * 1024,
{
}

} // verus!
