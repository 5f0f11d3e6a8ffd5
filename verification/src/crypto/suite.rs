//! TLS_AES_128_GCM_SHA256: SHA-256, HMAC, AES-128-GCM record protection, and
//! QUIC packet and header protection.

use super::primitives::gcm_decrypt;
use super::primitives::gcm_encrypt;
use super::primitives::gcm_fits;
use super::primitives::gcm_seal;
use super::primitives::hmac_sha256;
use super::primitives::hmac_sha256_tag;
use super::primitives::sha256;
use super::primitives::sha256_digest;
use super::primitives::GCM_MAX_LEN;
use crate::bytes::append_range;
use crate::bytes::array_at;
use crate::bytes::copy_bytes;
use vstd::prelude::*;

verus! {

/// How many records one key may protect.
pub const RECORD_CONFIDENTIALITY_LIMIT: u64 = 0x100_0000;

/// How many packets one key may protect.
pub const PACKET_CONFIDENTIALITY_LIMIT: u64 = 0x80_0000;

/// How many packets one key may fail to open.
pub const PACKET_INTEGRITY_LIMIT: u64 = 0x10_0000_0000_0000;

pub const HASH_LEN: usize = 32;

pub const KEY_LEN: usize = 16;

pub const GCM_TAG_LEN: usize = 16;

pub const HEADER_SAMPLE_LEN: usize = 16;

/// The longest TLS record fragment.
pub const MAX_FRAGMENT_LEN: usize = 16384;

/// The record content type of change_cipher_spec.
pub const CHANGE_CIPHER_SPEC: u8 = 20;

/// Why a cryptographic operation failed.
#[derive(Clone, Copy, Debug, PartialEq, Eq, Structural)]
pub enum CryptoError {
    EncryptError,
    DecryptError,
    SampleLength,
    PacketNumberLength,
    PeerSentOversizedRecord,
    IllegalTlsInnerPlaintext,
    IllegalMiddleboxChangeCipherSpec,
}

impl CryptoError {
    /// The description of a failure that has one.
    pub open spec fn detail_spec(self) -> Option<Seq<char>> {
        match self {
            CryptoError::SampleLength => Some("sample of invalid length"@),
            CryptoError::PacketNumberLength => Some("packet number too long"@),
            _ => None,
        }
    }

    /// The description of a failure that has one.
    pub fn detail(&self) -> (detail: Option<String>)
        ensures
            match detail {
                Some(text) => self.detail_spec() == Some(text@),
                None => self.detail_spec() is None,
            },
    {
        match self {
            CryptoError::SampleLength => Some("sample of invalid length".to_owned()),
            CryptoError::PacketNumberLength => Some("packet number too long".to_owned()),
            _ => None,
        }
    }
}

// SHA-256.

/// The suite's hash.
pub struct Sha256Hash;

impl Sha256Hash {
    /// A context that has absorbed nothing.
    pub fn start(&self) -> (context: Sha256Context)
        ensures
            context@ == Seq::<u8>::empty(),
    {
        Sha256Context { absorbed: Vec::new() }
    }

    /// The digest of `data`.
    pub fn hash(&self, data: &[u8]) -> (digest: [u8; 32])
        ensures
            digest@ == sha256(data@),
    {
        sha256_digest(data)
    }

    pub fn output_len(&self) -> (len: usize)
        ensures
            len == HASH_LEN,
    {
        HASH_LEN
    }
}

/// A hash in progress; its view is what it has absorbed.
pub struct Sha256Context {
    absorbed: Vec<u8>,
}

impl View for Sha256Context {
    type V = Seq<u8>;

    closed spec fn view(&self) -> Seq<u8> {
        self.absorbed@
    }
}

impl Sha256Context {
    /// The digest of what was absorbed; the context stays as it is.
    pub fn fork_finish(&self) -> (digest: [u8; 32])
        ensures
            digest@ == sha256(self@),
    {
        sha256_digest(self.absorbed.as_slice())
    }

    /// A second context that has absorbed the same.
    pub fn fork(&self) -> (context: Sha256Context)
        ensures
            context@ == self@,
    {
        Sha256Context { absorbed: copy_bytes(self.absorbed.as_slice()) }
    }

    /// The digest of what was absorbed.
    pub fn finish(self) -> (digest: [u8; 32])
        ensures
            digest@ == sha256(self@),
    {
        sha256_digest(self.absorbed.as_slice())
    }

    /// Absorb `data`.
    pub fn update(&mut self, data: &[u8])
        ensures
            final(self)@ == old(self)@ + data@,
    {
        append_range(&mut self.absorbed, data, 0, data.len());
        assert(data@.subrange(0, data@.len() as int) =~= data@);
    }
}

// HMAC-SHA-256.

/// The suite's MAC, which drives the TLS 1.3 key schedule.
pub struct HmacSha256;

impl HmacSha256 {
    /// A MAC key; any length is accepted.
    pub fn with_key(&self, key: &[u8]) -> (mac: HmacSha256Key)
        ensures
            mac@ == key@,
    {
        HmacSha256Key { key: copy_bytes(key) }
    }

    pub fn hash_output_len(&self) -> (len: usize)
        ensures
            len == HASH_LEN,
    {
        HASH_LEN
    }
}

/// A MAC key; its view is the key's bytes.
pub struct HmacSha256Key {
    key: Vec<u8>,
}

impl View for HmacSha256Key {
    type V = Seq<u8>;

    closed spec fn view(&self) -> Seq<u8> {
        self.key@
    }
}

/// The chunks one after the other.
pub open spec fn joined(chunks: Seq<&[u8]>) -> Seq<u8>
    decreases chunks.len(),
{
    if chunks.len() == 0 {
        Seq::empty()
    } else {
        joined(chunks.drop_last()) + chunks.last()@
    }
}

impl HmacSha256Key {
    /// The tag of `first`, every chunk of `middle`, and `last`, one after the
    /// other.
    pub fn sign_concat(&self, first: &[u8], middle: &[&[u8]], last: &[u8]) -> (tag: [u8; 32])
        ensures
            tag@ == hmac_sha256(self@, first@ + joined(middle@) + last@),
    {
        let mut message: Vec<u8> = copy_bytes(first);
        let mut i: usize = 0;
        assert(message@ =~= first@ + joined(middle@.take(0)));
        while i < middle.len()
            invariant
                i <= middle@.len(),
                message@ == first@ + joined(middle@.take(i as int)),
            decreases middle@.len() - i,
        {
            let chunk: &[u8] = middle[i];
            append_range(&mut message, chunk, 0, chunk.len());
            assert(chunk@.subrange(0, chunk@.len() as int) =~= chunk@);
            assert(middle@.take(i + 1).drop_last() =~= middle@.take(i as int));
            assert(middle@.take(i + 1).last() == middle@[i as int]);
            assert(message@ =~= first@ + joined(middle@.take(i + 1)));
            i = i + 1;
        }
        assert(middle@.take(i as int) =~= middle@);
        append_range(&mut message, last, 0, last.len());
        assert(last@.subrange(0, last@.len() as int) =~= last@);
        hmac_sha256_tag(self.key.as_slice(), message.as_slice())
    }

    pub fn tag_len(&self) -> (len: usize)
        ensures
            len == HASH_LEN,
    {
        HASH_LEN
    }
}

// Nonces and associated data.

/// Byte `i` of `seq`, most significant first.
pub open spec fn be_byte(seq: u64, i: int) -> u8 {
    ((seq >> ((56 - 8 * i) as u64)) & 0xff) as u8
}

/// The per-record nonce: the IV, its last eight bytes masked with the record
/// (or packet) number.
pub open spec fn nonce_for(iv: Seq<u8>, seq: u64) -> Seq<u8> {
    Seq::new(
        12,
        |i: int|
            if i < 4 {
                iv[i]
            } else {
                iv[i] ^ be_byte(seq, i - 4)
            },
    )
}

/// The nonce for number `seq` under `iv`.
pub fn nonce(iv: &[u8; 12], seq: u64) -> (nonce: [u8; 12])
    ensures
        nonce@ == nonce_for(iv@, seq),
{
    let mut out: [u8; 12] = *iv;
    let mut i: usize = 4;
    while i < 12
        invariant
            4 <= i <= 12,
            forall|j: int| 0 <= j < i ==> out@[j] == nonce_for(iv@, seq)[j],
            forall|j: int| i <= j < 12 ==> out@[j] == iv@[j],
        decreases 12 - i,
    {
        let shift: u64 = 56 - 8 * (i as u64 - 4);
        let byte: u8 = ((seq >> shift) & 0xff) as u8;
        out[i] = iv[i] ^ byte;
        i = i + 1;
    }
    assert(out@ =~= nonce_for(iv@, seq));
    out
}

/// The associated data of a TLS 1.3 record whose protected payload is `len`
/// bytes long: the record header.
pub open spec fn aad_for(len: int) -> Seq<u8> {
    seq![0x17, 0x03, 0x03, ((len / 256) % 256) as u8, (len % 256) as u8]
}

/// The associated data of a TLS 1.3 record whose protected payload is `len`
/// bytes long.
pub fn record_aad(len: usize) -> (aad: [u8; 5])
    ensures
        aad@ == aad_for(len as int),
{
    let aad: [u8; 5] = [0x17, 0x03, 0x03, ((len / 256) % 256) as u8, (len % 256) as u8];
    assert(aad@ =~= aad_for(len as int));
    aad
}

// AES-128-GCM record protection.

/// What `RecordEncrypter::encrypt` makes of a record.
pub open spec fn record_encrypted(
    key: Seq<u8>,
    iv: Seq<u8>,
    seq: u64,
    payload: Seq<u8>,
    typ: u8,
    out: Result<Seq<u8>, CryptoError>,
) -> bool {
    let inner = payload.push(typ);
    let aad = aad_for(payload.len() + 1 + GCM_TAG_LEN);
    match out {
        Ok(sealed) => {
            &&& gcm_fits(aad, inner)
            &&& sealed.len() == inner.len() + GCM_TAG_LEN
            &&& (sealed.take(inner.len() as int), sealed.skip(inner.len() as int)) == gcm_seal(
                key,
                nonce_for(iv, seq),
                aad,
                inner,
            )
        },
        Err(error) => error == CryptoError::EncryptError && !gcm_fits(aad, inner),
    }
}

/// Seals records under one key.
pub struct RecordEncrypter {
    pub key: [u8; 16],
    pub iv: [u8; 12],
}

impl RecordEncrypter {
    /// Seal `payload` of content type `typ` as record number `seq`: the
    /// content type joins the plaintext, and the tag follows the ciphertext.
    pub fn encrypt(&self, payload: &[u8], typ: u8, seq: u64) -> (sealed: Result<
        Vec<u8>,
        CryptoError,
    >)
        requires
            payload@.len() + 1 + GCM_TAG_LEN <= usize::MAX,
        ensures
            record_encrypted(
                self.key@,
                self.iv@,
                seq,
                payload@,
                typ,
                match sealed {
                    Ok(bytes) => Ok(bytes@),
                    Err(error) => Err(error),
                },
            ),
    {
        let total_len: usize = self.encrypted_payload_len(payload.len());
        let mut buffer: Vec<u8> = copy_bytes(payload);
        buffer.push(typ);
        let ghost inner = buffer@;
        let nonce: [u8; 12] = nonce(&self.iv, seq);
        let aad: [u8; 5] = record_aad(total_len);
        match gcm_encrypt(&self.key, &nonce, aad.as_slice(), buffer.as_mut_slice()) {
            Some(tag) => {
                let ghost body = buffer@;
                append_range(&mut buffer, tag.as_slice(), 0, 16);
                assert(tag@.subrange(0, 16) =~= tag@);
                assert(buffer@.take(inner.len() as int) =~= body);
                assert(buffer@.skip(inner.len() as int) =~= tag@);
                Ok(buffer)
            },
            None => Err(CryptoError::EncryptError),
        }
    }

    /// The length of a sealed record's payload.
    pub fn encrypted_payload_len(&self, payload_len: usize) -> (len: usize)
        requires
            payload_len + 1 + GCM_TAG_LEN <= usize::MAX,
        ensures
            len == payload_len + 1 + GCM_TAG_LEN,
    {
        payload_len + 1 + GCM_TAG_LEN
    }
}

/// The position behind the last nonzero byte of `p`.
pub open spec fn unpadded_len(p: Seq<u8>) -> nat
    decreases p.len(),
{
    if p.len() > 0 && p.last() == 0 {
        unpadded_len(p.drop_last())
    } else {
        p.len()
    }
}

/// The inner plaintext of a TLS 1.3 record: trailing zeros are padding, the
/// last other byte is the content type, and what precedes it is the content.
pub open spec fn unpadded(p: Seq<u8>) -> Result<(u8, Seq<u8>), CryptoError> {
    let n = unpadded_len(p);
    if p.len() > MAX_FRAGMENT_LEN + 1 {
        Err(CryptoError::PeerSentOversizedRecord)
    } else if n == 0 {
        Err(CryptoError::IllegalTlsInnerPlaintext)
    } else if p[n - 1] == CHANGE_CIPHER_SPEC {
        Err(CryptoError::IllegalMiddleboxChangeCipherSpec)
    } else {
        Ok((p[n - 1], p.take(n - 1)))
    }
}

/// A record's content and its type.
pub struct Plain {
    pub typ: u8,
    pub payload: Vec<u8>,
}

/// A record's content and its type as mathematical values.
pub open spec fn plain_view(r: Result<Plain, CryptoError>) -> Result<(u8, Seq<u8>), CryptoError> {
    match r {
        Ok(plain) => Ok((plain.typ, plain.payload@)),
        Err(error) => Err(error),
    }
}

/// Strip a TLS 1.3 record's padding and take its content type off.
pub fn unpad(p: Vec<u8>) -> (plain: Result<Plain, CryptoError>)
    ensures
        plain_view(plain) == unpadded(p@),
{
    let mut p: Vec<u8> = p;
    let ghost whole = p@;
    if p.len() > MAX_FRAGMENT_LEN + 1 {
        return Err(CryptoError::PeerSentOversizedRecord);
    }
    let mut n: usize = p.len();
    assert(whole.take(n as int) =~= whole);
    while n > 0 && p[n - 1] == 0
        invariant
            n <= p@.len(),
            p@ == whole,
            unpadded_len(whole) == unpadded_len(whole.take(n as int)),
        decreases n,
    {
        assert(whole.take(n as int).drop_last() =~= whole.take(n - 1));
        n = n - 1;
    }
    if n == 0 {
        return Err(CryptoError::IllegalTlsInnerPlaintext);
    }
    let typ: u8 = p[n - 1];
    if typ == CHANGE_CIPHER_SPEC {
        return Err(CryptoError::IllegalMiddleboxChangeCipherSpec);
    }
    p.truncate(n - 1);
    assert(p@ =~= whole.take(n - 1));
    Ok(Plain { typ, payload: p })
}

/// `plain` is the one plaintext that seals to `sealed`.
pub open spec fn opens_to(
    key: Seq<u8>,
    nonce: Seq<u8>,
    aad: Seq<u8>,
    sealed: (Seq<u8>, Seq<u8>),
    plain: Seq<u8>,
) -> bool {
    &&& plain.len() == sealed.0.len()
    &&& gcm_seal(key, nonce, aad, plain) == sealed
    &&& forall|other: Seq<u8>|
        other.len() == sealed.0.len() && #[trigger] gcm_seal(key, nonce, aad, other) == sealed
            ==> other == plain
}

/// No plaintext seals to `sealed`.
pub open spec fn is_forged(
    key: Seq<u8>,
    nonce: Seq<u8>,
    aad: Seq<u8>,
    sealed: (Seq<u8>, Seq<u8>),
) -> bool {
    forall|plain: Seq<u8>|
        plain.len() == sealed.0.len() ==> #[trigger] gcm_seal(key, nonce, aad, plain) != sealed
}

/// What `RecordDecrypter::decrypt` makes of a record.
pub open spec fn record_decrypted(
    key: Seq<u8>,
    iv: Seq<u8>,
    seq: u64,
    payload: Seq<u8>,
    out: Result<(u8, Seq<u8>), CryptoError>,
) -> bool {
    let n = payload.len() - GCM_TAG_LEN;
    let nonce = nonce_for(iv, seq);
    let aad = aad_for(payload.len() as int);
    let sealed = (payload.take(n), payload.skip(n));
    if n < 0 {
        out == Err::<(u8, Seq<u8>), CryptoError>(CryptoError::DecryptError)
    } else if n > GCM_MAX_LEN {
        out is Err
    } else {
        ||| exists|plain: Seq<u8>|
            #[trigger] opens_to(key, nonce, aad, sealed, plain) && out == unpadded(plain)
        ||| is_forged(key, nonce, aad, sealed) && out == Err::<(u8, Seq<u8>), CryptoError>(
            CryptoError::DecryptError,
        )
    }
}

/// Opens records under one key.
pub struct RecordDecrypter {
    pub key: [u8; 16],
    pub iv: [u8; 12],
}

impl RecordDecrypter {
    /// Open record number `seq`: authenticate, decrypt, and strip the padding.
    pub fn decrypt(&self, payload: Vec<u8>, seq: u64) -> (plain: Result<Plain, CryptoError>)
        ensures
            record_decrypted(self.key@, self.iv@, seq, payload@, plain_view(plain)),
    {
        let mut payload: Vec<u8> = payload;
        let ghost whole = payload@;
        let len: usize = payload.len();
        if len < GCM_TAG_LEN {
            return Err(CryptoError::DecryptError);
        }
        let plain_len: usize = len - GCM_TAG_LEN;
        let nonce: [u8; 12] = nonce(&self.iv, seq);
        let aad: [u8; 5] = record_aad(len);
        let tag: [u8; 16] = array_at::<16>(payload.as_slice(), plain_len);
        payload.truncate(plain_len);
        assert(payload@ =~= whole.take(plain_len as int));
        assert(tag@ =~= whole.skip(plain_len as int));
        if !gcm_decrypt(&self.key, &nonce, aad.as_slice(), payload.as_mut_slice(), &tag) {
            return Err(CryptoError::DecryptError);
        }
        let ghost plain = payload@;
        assert(plain_len <= GCM_MAX_LEN ==> opens_to(
            self.key@,
            nonce@,
            aad@,
            (whole.take(plain_len as int), whole.skip(plain_len as int)),
            plain,
        ));
        unpad(payload)
    }
}

/// What was sealed as a record opens as the same content, under the same key
/// and number.
pub proof fn record_roundtrip(
    key: Seq<u8>,
    iv: Seq<u8>,
    seq: u64,
    payload: Seq<u8>,
    typ: u8,
    sealed: Seq<u8>,
    opened: Result<(u8, Seq<u8>), CryptoError>,
)
    requires
        payload.len() <= MAX_FRAGMENT_LEN,
        typ != 0,
        typ != CHANGE_CIPHER_SPEC,
        record_encrypted(key, iv, seq, payload, typ, Ok(sealed)),
        record_decrypted(key, iv, seq, sealed, opened),
    ensures
        opened == Ok::<(u8, Seq<u8>), CryptoError>((typ, payload)),
{
    let inner = payload.push(typ);
    let n = inner.len() as int;
    let nonce = nonce_for(iv, seq);
    let aad = aad_for(sealed.len() as int);
    assert(gcm_seal(key, nonce, aad, inner) == (sealed.take(n), sealed.skip(n)));
    assert(inner.take(n - 1) =~= payload);
}

/// The nonce byte by byte: the IV, its last eight bytes flipped by the number,
/// most significant byte first.
pub proof fn nonces_are_flipped_by_the_number(iv: Seq<u8>, seq: u64)
    ensures
        nonce_for(iv, seq).len() == 12,
        forall|i: int| 0 <= i < 4 ==> #[trigger] nonce_for(iv, seq)[i] == iv[i],
        forall|i: int|
            4 <= i < 12 ==> #[trigger] nonce_for(iv, seq)[i] == iv[i] ^ (((seq >> ((8 * (11
                - i)) as u64)) & 0xff) as u8),
{
}

/// A record is sealed with its content type behind the content, under its
/// header: type 23, version 3.3, and the lower two bytes of the sealed
/// length, the higher one first. The tag follows the ciphertext.
pub proof fn records_are_sealed_under_their_header(
    key: Seq<u8>,
    iv: Seq<u8>,
    seq: u64,
    payload: Seq<u8>,
    typ: u8,
    sealed: Seq<u8>,
    header: Seq<u8>,
)
    requires
        record_encrypted(key, iv, seq, payload, typ, Ok(sealed)),
        header.len() == 5,
        header[0] == 23 && header[1] == 3 && header[2] == 3,
        header[3] * 256 + header[4] == (payload.len() + 17) % 0x1_0000,
    ensures
        sealed.len() == payload.len() + 17,
        gcm_seal(key, nonce_for(iv, seq), header, payload.push(typ)) == (
            sealed.take(payload.len() as int + 1),
            sealed.skip(payload.len() as int + 1),
        ),
{
    assert(header =~= aad_for(payload.len() as int + 17));
}

/// A record's content and type come out of any padding: zeros behind the type
/// are dropped, and nothing else.
pub proof fn padding_comes_off(content: Seq<u8>, typ: u8, padding: nat)
    requires
        typ != 0,
        typ != 20,
        content.len() + 1 + padding <= 16385,
    ensures
        unpadded(content.push(typ) + Seq::new(padding, |i: int| 0u8)) == Ok::<
            (u8, Seq<u8>),
            CryptoError,
        >((typ, content)),
{
    let p = content.push(typ) + Seq::new(padding, |i: int| 0u8);
    padding_is_not_counted(content.push(typ), padding);
    assert(p.take(content.len() as int) =~= content);
}

/// Nothing but padding, and a change of cipher, are no records.
pub proof fn empty_records_are_refused(content: Seq<u8>, padding: nat)
    requires
        content.len() + 1 + padding <= 16385,
    ensures
        unpadded(Seq::new(padding, |i: int| 0u8)) == Err::<(u8, Seq<u8>), CryptoError>(
            CryptoError::IllegalTlsInnerPlaintext,
        ),
        unpadded(content.push(20) + Seq::new(padding, |i: int| 0u8)) == Err::<
            (u8, Seq<u8>),
            CryptoError,
        >(CryptoError::IllegalMiddleboxChangeCipherSpec),
{
    let zeros = Seq::new(padding, |i: int| 0u8);
    padding_is_not_counted(Seq::empty(), padding);
    assert(Seq::<u8>::empty() + zeros =~= zeros);
    padding_is_not_counted(content.push(20), padding);
}

/// Longer plaintexts than a record can hold are refused.
pub proof fn oversized_records_are_refused(p: Seq<u8>)
    requires
        p.len() > 16385,
    ensures
        unpadded(p) == Err::<(u8, Seq<u8>), CryptoError>(CryptoError::PeerSentOversizedRecord),
{
}

proof fn padding_is_not_counted(p: Seq<u8>, padding: nat)
    requires
        p.len() == 0 || p.last() != 0,
    ensures
        unpadded_len(p + Seq::new(padding, |i: int| 0u8)) == p.len(),
    decreases padding,
{
    let whole = p + Seq::new(padding, |i: int| 0u8);
    if padding == 0 {
        assert(whole =~= p);
    } else {
        assert(whole.drop_last() =~= p + Seq::new((padding - 1) as nat, |i: int| 0u8));
        padding_is_not_counted(p, (padding - 1) as nat);
    }
}

/// Chunks are signed one after the other: a chunk in front of others, and one
/// behind them, stand where they were put.
pub proof fn chunks_join_in_order(chunks: Seq<&[u8]>, chunk: &[u8])
    ensures
        joined(seq![chunk]) == chunk@,
        joined(chunks.push(chunk)) == joined(chunks) + chunk@,
        joined(seq![chunk] + chunks) == chunk@ + joined(chunks),
    decreases chunks.len(),
{
    let one = seq![chunk];
    reveal_with_fuel(joined, 2);
    assert(one.drop_last() =~= Seq::<&[u8]>::empty());
    assert(joined(one) =~= chunk@);
    assert(chunks.push(chunk).drop_last() =~= chunks);
    let whole = one + chunks;
    if chunks.len() == 0 {
        assert(whole =~= one);
        assert(joined(whole) =~= chunk@ + joined(chunks));
    } else {
        assert(whole.drop_last() =~= one + chunks.drop_last());
        chunks_join_in_order(chunks.drop_last(), chunk);
        assert(joined(whole) =~= chunk@ + joined(chunks));
    }
}

/// A record that opens was sealed: some plaintext seals, under the record's
/// key, number and header, to just its ciphertext and tag, and the content is
/// what that plaintext holds.
pub proof fn opened_records_were_sealed(
    key: Seq<u8>,
    iv: Seq<u8>,
    seq: u64,
    payload: Seq<u8>,
    typ: u8,
    content: Seq<u8>,
    header: Seq<u8>,
)
    requires
        record_decrypted(key, iv, seq, payload, Ok((typ, content))),
        payload.len() < 0x10_0000_0000,
        header.len() == 5,
        header[0] == 23 && header[1] == 3 && header[2] == 3,
        header[3] * 256 + header[4] == payload.len() % 0x1_0000,
    ensures
        payload.len() >= 16,
        exists|plain: Seq<u8>|
            {
                &&& #[trigger] gcm_seal(key, nonce_for(iv, seq), header, plain) == (
                    payload.take(payload.len() - 16),
                    payload.skip(payload.len() - 16),
                )
                &&& plain.len() == payload.len() - 16
                &&& unpadded(plain) == Ok::<(u8, Seq<u8>), CryptoError>((typ, content))
            },
        forall|other: Seq<u8>|
            other.len() == payload.len() - 16 && #[trigger] gcm_seal(
                key,
                nonce_for(iv, seq),
                header,
                other,
            ) == (payload.take(payload.len() - 16), payload.skip(payload.len() - 16))
                ==> unpadded(other) == Ok::<(u8, Seq<u8>), CryptoError>((typ, content)),
{
    assert(header =~= aad_for(payload.len() as int));
    let n = payload.len() - 16;
    let sealed = (payload.take(n), payload.skip(n));
    let plain = choose|plain: Seq<u8>| #[trigger]
        opens_to(key, nonce_for(iv, seq), aad_for(payload.len() as int), sealed, plain)
            && unpadded(plain) == Ok::<(u8, Seq<u8>), CryptoError>((typ, content));
    assert(gcm_seal(key, nonce_for(iv, seq), header, plain) == sealed);
}

/// A record that nothing seals to, and one without room for a tag, are
/// refused as undecryptable.
pub proof fn forged_records_are_refused(
    key: Seq<u8>,
    iv: Seq<u8>,
    seq: u64,
    payload: Seq<u8>,
    out: Result<(u8, Seq<u8>), CryptoError>,
    header: Seq<u8>,
)
    requires
        record_decrypted(key, iv, seq, payload, out),
        payload.len() < 0x10_0000_0000,
        header.len() == 5,
        header[0] == 23 && header[1] == 3 && header[2] == 3,
        header[3] * 256 + header[4] == payload.len() % 0x1_0000,
        payload.len() < 16 || forall|plain: Seq<u8>| #[trigger]
            gcm_seal(key, nonce_for(iv, seq), header, plain) != (
                payload.take(payload.len() - 16),
                payload.skip(payload.len() - 16),
            ),
    ensures
        out == Err::<(u8, Seq<u8>), CryptoError>(CryptoError::DecryptError),
{
    assert(header =~= aad_for(payload.len() as int));
}

/// Only two failures have a description, and a record is seen whole.
pub proof fn failures_and_records_are_described(error: CryptoError, plain: Plain)
    ensures
        CryptoError::SampleLength.detail_spec() == Some("sample of invalid length"@),
        CryptoError::PacketNumberLength.detail_spec() == Some("packet number too long"@),
        error != CryptoError::SampleLength && error != CryptoError::PacketNumberLength
            ==> error.detail_spec() is None,
        plain_view(Ok(plain)) == Ok::<(u8, Seq<u8>), CryptoError>((plain.typ, plain.payload@)),
        plain_view(Err(error)) == Err::<(u8, Seq<u8>), CryptoError>(error),
{
}

/// The sizes and limits of the suite.
pub proof fn limits_of_the_suite()
    ensures
        GCM_TAG_LEN == 16,
        KEY_LEN == 16,
        HASH_LEN == 32,
        HEADER_SAMPLE_LEN == 16,
        PACKET_CONFIDENTIALITY_LIMIT == 8 * 1024 * 1024,
        PACKET_INTEGRITY_LIMIT == 4096 * 1024 * 1024 * 1024 * 1024,
        RECORD_CONFIDENTIALITY_LIMIT == 16 * 1024 * 1024,
{
}

/// A record is refused exactly if it is longer than what can be sealed.
pub proof fn unsealable_records_are_refused(
    key: Seq<u8>,
    iv: Seq<u8>,
    seq: u64,
    payload: Seq<u8>,
    typ: u8,
    out: Result<Seq<u8>, CryptoError>,
)
    requires
        record_encrypted(key, iv, seq, payload, typ, out),
    ensures
        out is Err <==> payload.len() + 1 > 0x10_0000_0000,
        out matches Err(error) ==> error == CryptoError::EncryptError,
{
}

} // verus!
