//! QUIC packet and header protection.

use super::primitives::aes128_block;
use super::primitives::aes128_encrypt;
use super::primitives::gcm_decrypt;
use super::primitives::gcm_encrypt;
use super::primitives::gcm_fits;
use super::primitives::gcm_seal;
use super::primitives::GCM_MAX_LEN;
use super::suite::is_forged;
use super::suite::nonce;
use super::suite::nonce_for;
use super::suite::opens_to;
use super::suite::CryptoError;
use super::suite::GCM_TAG_LEN;
use super::suite::HEADER_SAMPLE_LEN;
use super::suite::KEY_LEN;
use super::suite::PACKET_CONFIDENTIALITY_LIMIT;
use super::suite::PACKET_INTEGRITY_LIMIT;
use crate::bytes::array_at;
use vstd::prelude::*;

verus! {

/// The bit of a packet's first byte that marks a long header.
pub const LONG_HEADER_FORM: u8 = 0x80;

/// The suite's QUIC algorithms.
pub struct Aes128GcmQuic;

impl Aes128GcmQuic {
    /// The packet protection key.
    pub fn packet_key(&self, key: [u8; 16], iv: [u8; 12]) -> (packet: QuicPacketKey)
        ensures
            packet.key@ == key@,
            packet.iv@ == iv@,
    {
        QuicPacketKey { key, iv }
    }

    /// The header protection key.
    pub fn header_protection_key(&self, key: [u8; 16]) -> (header: QuicHeaderKey)
        ensures
            header.key@ == key@,
    {
        QuicHeaderKey { key }
    }

    pub fn aead_key_len(&self) -> (len: usize)
        ensures
            len == KEY_LEN,
    {
        KEY_LEN
    }
}

/// Protects packet payloads under one key.
pub struct QuicPacketKey {
    pub key: [u8; 16],
    pub iv: [u8; 12],
}

/// What `QuicPacketKey::encrypt_in_place` makes of a payload: the payload
/// behind it, and the tag or a refusal.
pub open spec fn packet_encrypted(
    key: Seq<u8>,
    iv: Seq<u8>,
    number: u64,
    header: Seq<u8>,
    plain: Seq<u8>,
    after: Seq<u8>,
    tag: Result<Seq<u8>, CryptoError>,
) -> bool {
    &&& after.len() == plain.len()
    &&& match tag {
        Ok(tag) => gcm_fits(header, plain) && tag.len() == GCM_TAG_LEN && (after, tag) == gcm_seal(
            key,
            nonce_for(iv, number),
            header,
            plain,
        ),
        Err(error) => error == CryptoError::EncryptError && !gcm_fits(header, plain) && after
            == plain,
    }
}

/// What `QuicPacketKey::decrypt_in_place` makes of a payload with its tag:
/// the payload behind it, and the plaintext's length or a refusal.
pub open spec fn packet_decrypted(
    key: Seq<u8>,
    iv: Seq<u8>,
    number: u64,
    header: Seq<u8>,
    payload: Seq<u8>,
    after: Seq<u8>,
    len: Result<usize, CryptoError>,
) -> bool {
    let n = payload.len() - GCM_TAG_LEN;
    let nonce = nonce_for(iv, number);
    let sealed = (payload.take(n), payload.skip(n));
    let refused = len == Err::<usize, CryptoError>(CryptoError::DecryptError) && after == payload;
    if n < 0 {
        refused
    } else if n > GCM_MAX_LEN || header.len() > GCM_MAX_LEN {
        refused || len == Ok::<usize, CryptoError>(n as usize)
    } else {
        ||| len == Ok::<usize, CryptoError>(n as usize) && after.len() == payload.len()
            && after.skip(n) == payload.skip(n) && opens_to(
            key,
            nonce,
            header,
            sealed,
            after.take(n),
        )
        ||| refused && is_forged(key, nonce, header, sealed)
    }
}

impl QuicPacketKey {
    /// Seal `payload` in place as packet `packet_number`, authenticating
    /// `header` beside it. Returns the tag that follows the payload.
    pub fn encrypt_in_place(
        &self,
        packet_number: u64,
        header: &[u8],
        payload: &mut [u8],
    ) -> (tag: Result<[u8; 16], CryptoError>)
        ensures
            packet_encrypted(
                self.key@,
                self.iv@,
                packet_number,
                header@,
                old(payload)@,
                final(payload)@,
                match tag {
                    Ok(tag) => Ok(tag@),
                    Err(error) => Err(error),
                },
            ),
    {
        let nonce: [u8; 12] = nonce(&self.iv, packet_number);
        match gcm_encrypt(&self.key, &nonce, header, payload) {
            Some(tag) => Ok(tag),
            None => Err(CryptoError::EncryptError),
        }
    }

    /// Open `payload`, which ends in its tag, in place as packet
    /// `packet_number`. Returns the length of the plaintext in front of the
    /// tag; on failure the payload is untouched.
    pub fn decrypt_in_place(
        &self,
        packet_number: u64,
        header: &[u8],
        payload: &mut [u8],
    ) -> (plain_len: Result<usize, CryptoError>)
        ensures
            packet_decrypted(
                self.key@,
                self.iv@,
                packet_number,
                header@,
                old(payload)@,
                final(payload)@,
                plain_len,
            ),
    {
        let len: usize = payload.len();
        if len < GCM_TAG_LEN {
            return Err(CryptoError::DecryptError);
        }
        let plain_len: usize = len - GCM_TAG_LEN;
        let nonce: [u8; 12] = nonce(&self.iv, packet_number);
        let tag: [u8; 16] = array_at::<16>(payload, plain_len);
        let ghost whole = payload@;
        assert(tag@ =~= whole.skip(plain_len as int));
        assert(whole.subrange(0, plain_len as int) =~= whole.take(plain_len as int));
        let ghost mut plain = whole;
        let (body, _rest) = payload.split_at_mut(plain_len);
        let opened: bool = gcm_decrypt(&self.key, &nonce, header, body, &tag);
        proof {
            plain = body@;
        }
        assert(payload@.take(plain_len as int) =~= plain);
        assert(payload@.skip(plain_len as int) =~= whole.skip(plain_len as int));
        if opened {
            proof {
                let sealed = (whole.take(plain_len as int), whole.skip(plain_len as int));
                if plain_len <= GCM_MAX_LEN && header@.len() <= GCM_MAX_LEN {
                    assert(opens_to(self.key@, nonce@, header@, sealed, plain));
                }
            }
            Ok(plain_len)
        } else {
            assert(payload@ =~= whole);
            Err(CryptoError::DecryptError)
        }
    }

    pub fn tag_len(&self) -> (len: usize)
        ensures
            len == GCM_TAG_LEN,
    {
        GCM_TAG_LEN
    }

    pub fn confidentiality_limit(&self) -> (limit: u64)
        ensures
            limit == PACKET_CONFIDENTIALITY_LIMIT,
    {
        PACKET_CONFIDENTIALITY_LIMIT
    }

    pub fn integrity_limit(&self) -> (limit: u64)
        ensures
            limit == PACKET_INTEGRITY_LIMIT,
    {
        PACKET_INTEGRITY_LIMIT
    }
}

/// A payload that was sealed opens to itself, under the same key, number and
/// header.
pub proof fn packet_roundtrip(
    key: Seq<u8>,
    iv: Seq<u8>,
    number: u64,
    header: Seq<u8>,
    plain: Seq<u8>,
    sealed: Seq<u8>,
    tag: Seq<u8>,
    after: Seq<u8>,
    len: Result<usize, CryptoError>,
)
    requires
        packet_encrypted(key, iv, number, header, plain, sealed, Ok(tag)),
        packet_decrypted(key, iv, number, header, sealed + tag, after, len),
    ensures
        len == Ok::<usize, CryptoError>(plain.len() as usize),
        after.take(plain.len() as int) == plain,
{
    let n = plain.len() as int;
    assert((sealed + tag).take(n) =~= sealed);
    assert((sealed + tag).skip(n) =~= tag);
    assert(gcm_seal(key, nonce_for(iv, number), header, plain) == (sealed, tag));
}

/// Protects packet headers under one key: the mask is one AES block over the
/// ciphertext sample.
pub struct QuicHeaderKey {
    pub key: [u8; 16],
}

/// The bits of the first byte that protection covers.
pub open spec fn protected_bits(first: u8) -> u8 {
    if first & LONG_HEADER_FORM == LONG_HEADER_FORM {
        0x0f
    } else {
        0x1f
    }
}

/// The first byte with its protected bits flipped by the mask.
pub open spec fn flipped_first(first: u8, mask: Seq<u8>) -> u8 {
    first ^ (mask[0] & protected_bits(first))
}

/// The length of the packet number, which the unprotected first byte holds.
pub open spec fn number_len(plain_first: u8) -> int {
    (plain_first & 0x03) + 1
}

/// The first `n` bytes of the packet number flipped by the mask.
pub open spec fn flipped_number(number: Seq<u8>, mask: Seq<u8>, n: int) -> Seq<u8> {
    Seq::new(
        number.len(),
        |i: int|
            if i < n {
                number[i] ^ mask[i + 1]
            } else {
                number[i]
            },
    )
}

/// The packet number's bytes after the mask: as many as the unprotected
/// first byte says are flipped.
pub open spec fn number_after(first: u8, number: Seq<u8>, mask: Seq<u8>, masked: bool) -> Seq<u8> {
    let plain_first = if masked {
        flipped_first(first, mask)
    } else {
        first
    };
    flipped_number(number, mask, number_len(plain_first))
}

/// Apply `mask` to a header: flip the protected bits of the first byte, and
/// as many bytes of the packet number as the unprotected first byte says.
/// `masked` says that the header is protected and the mask comes off.
pub fn apply_mask(mask: &[u8; 16], first: &mut u8, packet_number: &mut [u8], masked: bool)
    requires
        old(packet_number)@.len() <= 15,
    ensures
        *final(first) == flipped_first(*old(first), mask@),
        final(packet_number)@ == number_after(*old(first), old(packet_number)@, mask@, masked),
{
    let bits: u8 = if *first & LONG_HEADER_FORM == LONG_HEADER_FORM {
        0x0f
    } else {
        0x1f
    };
    let first_plain: u8 = if masked {
        *first ^ (mask[0] & bits)
    } else {
        *first
    };
    let pn_len: usize = (first_plain & 0x03) as usize + 1;
    let ghost before = packet_number@;
    *first = *first ^ (mask[0] & bits);
    let mut i: usize = 0;
    while i < packet_number.len() && i < pn_len
        invariant
            i <= packet_number@.len(),
            packet_number@.len() == before.len() <= 15,
            forall|j: int| 0 <= j < i ==> packet_number@[j] == before[j] ^ mask@[j + 1],
            forall|j: int| i <= j < before.len() ==> packet_number@[j] == before[j],
            i <= pn_len,
        decreases packet_number@.len() - i,
    {
        packet_number[i] = packet_number[i] ^ mask[i + 1];
        i = i + 1;
    }
    assert(packet_number@ =~= flipped_number(before, mask@, pn_len as int));
}

/// What protecting (or unprotecting) a header comes to.
pub open spec fn header_masked(
    key: Seq<u8>,
    sample: Seq<u8>,
    first: u8,
    number: Seq<u8>,
    masked: bool,
    first_after: u8,
    number_bytes: Seq<u8>,
    out: Result<(), CryptoError>,
) -> bool {
    let mask = aes128_block(key, sample);
    if sample.len() != HEADER_SAMPLE_LEN {
        out == Err::<(), CryptoError>(CryptoError::SampleLength) && first_after == first
            && number_bytes == number
    } else if number.len() > 15 {
        out == Err::<(), CryptoError>(CryptoError::PacketNumberLength) && first_after == first
            && number_bytes == number
    } else {
        out is Ok && first_after == flipped_first(first, mask) && number_bytes == number_after(
            first,
            number,
            mask,
            masked,
        )
    }
}

impl QuicHeaderKey {
    /// Protect (or, where `masked`, unprotect) a header with the mask that
    /// `sample` gives.
    pub fn xor_in_place(
        &self,
        sample: &[u8],
        first: &mut u8,
        packet_number: &mut [u8],
        masked: bool,
    ) -> (done: Result<(), CryptoError>)
        ensures
            header_masked(
                self.key@,
                sample@,
                *old(first),
                old(packet_number)@,
                masked,
                *final(first),
                final(packet_number)@,
                done,
            ),
    {
        if sample.len() != HEADER_SAMPLE_LEN {
            return Err(CryptoError::SampleLength);
        }
        let block: [u8; 16] = array_at::<16>(sample, 0);
        assert(block@ =~= sample@);
        let mask: [u8; 16] = aes128_encrypt(&self.key, &block);
        if packet_number.len() > 15 {
            return Err(CryptoError::PacketNumberLength);
        }
        apply_mask(&mask, first, packet_number, masked);
        Ok(())
    }

    /// Protect a header.
    pub fn encrypt_in_place(
        &self,
        sample: &[u8],
        first: &mut u8,
        packet_number: &mut [u8],
    ) -> (done: Result<(), CryptoError>)
        ensures
            header_masked(
                self.key@,
                sample@,
                *old(first),
                old(packet_number)@,
                false,
                *final(first),
                final(packet_number)@,
                done,
            ),
    {
        self.xor_in_place(sample, first, packet_number, false)
    }

    /// Unprotect a header.
    pub fn decrypt_in_place(
        &self,
        sample: &[u8],
        first: &mut u8,
        packet_number: &mut [u8],
    ) -> (done: Result<(), CryptoError>)
        ensures
            header_masked(
                self.key@,
                sample@,
                *old(first),
                old(packet_number)@,
                true,
                *final(first),
                final(packet_number)@,
                done,
            ),
    {
        self.xor_in_place(sample, first, packet_number, true)
    }

    pub fn sample_len(&self) -> (len: usize)
        ensures
            len == HEADER_SAMPLE_LEN,
    {
        HEADER_SAMPLE_LEN
    }
}

/// The form bit survives protection, and protecting twice gives the first
/// byte back.
proof fn first_flips_back(first: u8, m: u8)
    ensures
        ({
            let bits = protected_bits(first);
            let flipped = first ^ (m & bits);
            &&& protected_bits(flipped) == bits
            &&& flipped ^ (m & bits) == first
        }),
{
    assert((first & 0x80) == 0x80 ==> ((first ^ (m & 0x0f)) & 0x80) == 0x80) by (bit_vector);
    assert((first & 0x80) != 0x80 ==> ((first ^ (m & 0x1f)) & 0x80) != 0x80) by (bit_vector);
    assert((first ^ (m & 0x0f)) ^ (m & 0x0f) == first) by (bit_vector);
    assert((first ^ (m & 0x1f)) ^ (m & 0x1f) == first) by (bit_vector);
}

/// Unprotecting a protected header with the same mask gives the header back.
pub proof fn header_roundtrip(first: u8, number: Seq<u8>, mask: Seq<u8>)
    requires
        number.len() <= 15,
    ensures
        ({
            let protected = flipped_first(first, mask);
            let bytes = number_after(first, number, mask, false);
            &&& flipped_first(protected, mask) == first
            &&& number_after(protected, bytes, mask, true) == number
        }),
{
    first_flips_back(first, mask[0]);
    let protected = flipped_first(first, mask);
    let bytes = number_after(first, number, mask, false);
    let back = number_after(protected, bytes, mask, true);
    assert forall|i: int| 0 <= i < number.len() implies back[i] == number[i] by {
        let b = number[i];
        let m = mask[i + 1];
        assert((b ^ m) ^ m == b) by (bit_vector);
    }
    assert(back =~= number);
}

/// Header protection byte by byte: the low bits of the first byte (four in a
/// long header, five in a short one) are flipped by the mask's first byte, and
/// byte `i` of the packet number by the mask's byte `i + 1`, for as many bytes
/// as the unprotected first byte's two lowest bits say, and one more. The mask
/// is the AES encryption of the sample.
pub proof fn headers_are_masked_byte_by_byte(
    key: Seq<u8>,
    sample: Seq<u8>,
    first: u8,
    number: Seq<u8>,
    masked: bool,
    first_after: u8,
    number_bytes: Seq<u8>,
    out: Result<(), CryptoError>,
)
    requires
        header_masked(key, sample, first, number, masked, first_after, number_bytes, out),
        sample.len() == 16,
        number.len() <= 15,
    ensures
        out is Ok,
        first >= 0x80 ==> first_after == first ^ (aes128_block(key, sample)[0] & 0x0f),
        first < 0x80 ==> first_after == first ^ (aes128_block(key, sample)[0] & 0x1f),
        number_bytes.len() == number.len(),
        ({
            let plain_first = if masked {
                first_after
            } else {
                first
            };
            forall|i: int|
                0 <= i < number.len() ==> #[trigger] number_bytes[i] == (if i <= plain_first & 0x03 {
                    number[i] ^ aes128_block(key, sample)[i + 1]
                } else {
                    number[i]
                })
        }),
{
    assert(first >= 0x80 <==> first & 0x80 == 0x80) by (bit_vector);
}

/// A sample of another length, or a packet number that the mask cannot cover,
/// is refused, and the header stays as it was.
pub proof fn unmaskable_headers_stay(
    key: Seq<u8>,
    sample: Seq<u8>,
    first: u8,
    number: Seq<u8>,
    masked: bool,
    first_after: u8,
    number_bytes: Seq<u8>,
    out: Result<(), CryptoError>,
)
    requires
        header_masked(key, sample, first, number, masked, first_after, number_bytes, out),
        sample.len() != 16 || number.len() > 15,
    ensures
        out is Err,
        first_after == first,
        number_bytes == number,
{
}

/// A packet is sealed under the nonce whose last eight bytes are the IV's
/// flipped by the packet number, most significant byte first, with the header
/// authenticated beside it.
pub proof fn packets_are_sealed_under_their_number(
    key: Seq<u8>,
    iv: Seq<u8>,
    number: u64,
    header: Seq<u8>,
    plain: Seq<u8>,
    after: Seq<u8>,
    tag: Seq<u8>,
    nonce: Seq<u8>,
)
    requires
        packet_encrypted(key, iv, number, header, plain, after, Ok(tag)),
        nonce.len() == 12,
        forall|i: int| 0 <= i < 4 ==> nonce[i] == iv[i],
        forall|i: int|
            4 <= i < 12 ==> #[trigger] nonce[i] == iv[i] ^ (((number >> ((8 * (11 - i)) as u64))
                & 0xff) as u8),
    ensures
        tag.len() == 16,
        after.len() == plain.len(),
        (after, tag) == gcm_seal(key, nonce, header, plain),
{
    assert(nonce =~= nonce_for(iv, number));
}

/// What opens as a packet was sealed as that packet: the plaintext comes from
/// nothing but its own sealing under the same key, number and header.
pub proof fn opened_packets_were_sealed(
    key: Seq<u8>,
    iv: Seq<u8>,
    number: u64,
    header: Seq<u8>,
    payload: Seq<u8>,
    after: Seq<u8>,
    len: usize,
)
    requires
        packet_decrypted(key, iv, number, header, payload, after, Ok(len)),
        payload.len() <= GCM_MAX_LEN,
        payload.len() <= usize::MAX,
        header.len() <= GCM_MAX_LEN,
    ensures
        payload.len() == len + 16,
        gcm_seal(key, nonce_for(iv, number), header, after.take(len as int)) == (
            payload.take(len as int),
            payload.skip(len as int),
        ),
{
}

/// A packet is refused exactly if it, or its header, is longer than what can
/// be sealed; its payload then stays as it was.
pub proof fn oversized_packets_are_refused(
    key: Seq<u8>,
    iv: Seq<u8>,
    number: u64,
    header: Seq<u8>,
    plain: Seq<u8>,
    after: Seq<u8>,
    tag: Result<Seq<u8>, CryptoError>,
)
    requires
        packet_encrypted(key, iv, number, header, plain, after, tag),
    ensures
        tag is Err <==> header.len() > 0x10_0000_0000 || plain.len() > 0x10_0000_0000,
        tag matches Err(error) ==> error == CryptoError::EncryptError && after == plain,
{
}

/// A packet that nothing seals to, and one without room for a tag, are
/// refused, and stay as they were.
pub proof fn forged_packets_are_refused(
    key: Seq<u8>,
    iv: Seq<u8>,
    number: u64,
    header: Seq<u8>,
    payload: Seq<u8>,
    after: Seq<u8>,
    len: Result<usize, CryptoError>,
)
    requires
        packet_decrypted(key, iv, number, header, payload, after, len),
        payload.len() <= GCM_MAX_LEN,
        header.len() <= GCM_MAX_LEN,
        payload.len() < 16 || forall|plain: Seq<u8>| #[trigger]
            gcm_seal(key, nonce_for(iv, number), header, plain) != (
                payload.take(payload.len() - 16),
                payload.skip(payload.len() - 16),
            ),
    ensures
        len == Err::<usize, CryptoError>(CryptoError::DecryptError),
        after == payload,
{
}

/// A packet opens to the plaintext that it was sealed from, and the tag behind
/// it stays.
pub proof fn sealed_packets_open(
    key: Seq<u8>,
    iv: Seq<u8>,
    number: u64,
    header: Seq<u8>,
    payload: Seq<u8>,
    after: Seq<u8>,
    len: Result<usize, CryptoError>,
    plain: Seq<u8>,
)
    requires
        packet_decrypted(key, iv, number, header, payload, after, len),
        16 <= payload.len() <= GCM_MAX_LEN,
        payload.len() <= usize::MAX,
        header.len() <= GCM_MAX_LEN,
        plain.len() == payload.len() - 16,
        gcm_seal(key, nonce_for(iv, number), header, plain) == (
            payload.take(payload.len() - 16),
            payload.skip(payload.len() - 16),
        ),
    ensures
        len matches Ok(n) && n == plain.len(),
        after == plain + payload.skip(payload.len() - 16),
{
    let n = payload.len() - 16;
    assert(after.take(n) == plain);
    assert(after =~= after.take(n) + after.skip(n));
}

} // verus!
