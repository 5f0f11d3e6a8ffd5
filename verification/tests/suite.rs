use component_iroh::crypto::quic::{apply_mask, Aes128GcmQuic, QuicHeaderKey, QuicPacketKey};
use component_iroh::crypto::suite::{
    nonce, record_aad, unpad, CryptoError, HmacSha256, HmacSha256Key, RecordDecrypter,
    RecordEncrypter, Sha256Context, Sha256Hash,
};
use rustls::crypto::cipher::{
    AeadKey, InboundOpaqueMessage, InboundPlainMessage, Iv, MessageDecrypter, MessageEncrypter,
    OutboundOpaqueMessage, OutboundPlainMessage, Tls13AeadAlgorithm, UnsupportedOperationError,
};
use rustls::crypto::tls13::HkdfUsingHmac;
use rustls::crypto::{hash, hmac, CipherSuiteCommon};
use rustls::quic::{Keys, Version};
use rustls::{quic, CipherSuite, ConnectionTrafficSecrets, Error, Side, Tls13CipherSuite};

// The suite behind rustls's traits.

struct HashAdapter;

struct ContextAdapter(Sha256Context);

impl hash::Hash for HashAdapter {
    fn start(&self) -> Box<dyn hash::Context> {
        Box::new(ContextAdapter(Sha256Hash.start()))
    }

    fn hash(&self, data: &[u8]) -> hash::Output {
        hash::Output::new(&Sha256Hash.hash(data))
    }

    fn output_len(&self) -> usize {
        Sha256Hash.output_len()
    }

    fn algorithm(&self) -> hash::HashAlgorithm {
        hash::HashAlgorithm::SHA256
    }
}

impl hash::Context for ContextAdapter {
    fn fork_finish(&self) -> hash::Output {
        hash::Output::new(&self.0.fork_finish())
    }

    fn fork(&self) -> Box<dyn hash::Context> {
        Box::new(ContextAdapter(self.0.fork()))
    }

    fn finish(self: Box<Self>) -> hash::Output {
        hash::Output::new(&self.0.finish())
    }

    fn update(&mut self, data: &[u8]) {
        self.0.update(data)
    }
}

struct HmacAdapter;

struct HmacKeyAdapter(HmacSha256Key);

impl hmac::Hmac for HmacAdapter {
    fn with_key(&self, key: &[u8]) -> Box<dyn hmac::Key> {
        Box::new(HmacKeyAdapter(HmacSha256.with_key(key)))
    }

    fn hash_output_len(&self) -> usize {
        HmacSha256.hash_output_len()
    }
}

impl hmac::Key for HmacKeyAdapter {
    fn sign_concat(&self, first: &[u8], middle: &[&[u8]], last: &[u8]) -> hmac::Tag {
        hmac::Tag::new(&self.0.sign_concat(first, middle, last))
    }

    fn tag_len(&self) -> usize {
        self.0.tag_len()
    }
}

/// Initial keys protect no TLS records, so nothing reaches this half.
struct RecordAdapter;

struct NoRecords;

impl Tls13AeadAlgorithm for RecordAdapter {
    fn encrypter(&self, _key: AeadKey, _iv: Iv) -> Box<dyn MessageEncrypter> {
        Box::new(NoRecords)
    }

    fn decrypter(&self, _key: AeadKey, _iv: Iv) -> Box<dyn MessageDecrypter> {
        Box::new(NoRecords)
    }

    fn key_len(&self) -> usize {
        16
    }

    fn extract_keys(
        &self,
        key: AeadKey,
        iv: Iv,
    ) -> Result<ConnectionTrafficSecrets, UnsupportedOperationError> {
        Ok(ConnectionTrafficSecrets::Aes128Gcm { key, iv })
    }
}

impl MessageEncrypter for NoRecords {
    fn encrypt(
        &mut self,
        _msg: OutboundPlainMessage<'_>,
        _seq: u64,
    ) -> Result<OutboundOpaqueMessage, Error> {
        Err(Error::EncryptError)
    }

    fn encrypted_payload_len(&self, payload_len: usize) -> usize {
        payload_len
    }
}

impl MessageDecrypter for NoRecords {
    fn decrypt<'a>(
        &mut self,
        _msg: InboundOpaqueMessage<'a>,
        _seq: u64,
    ) -> Result<InboundPlainMessage<'a>, Error> {
        Err(Error::DecryptError)
    }
}

struct QuicAdapter;

struct PacketAdapter(QuicPacketKey);

struct HeaderAdapter(QuicHeaderKey);

fn fixed<const N: usize>(bytes: &[u8]) -> [u8; N] {
    bytes.try_into().unwrap()
}

fn crypto_error(error: CryptoError) -> Error {
    Error::General(format!("{error:?}"))
}

impl quic::Algorithm for QuicAdapter {
    fn packet_key(&self, key: AeadKey, iv: Iv) -> Box<dyn quic::PacketKey> {
        Box::new(PacketAdapter(
            Aes128GcmQuic.packet_key(fixed::<16>(key.as_ref()), fixed::<12>(iv.as_ref())),
        ))
    }

    fn header_protection_key(&self, key: AeadKey) -> Box<dyn quic::HeaderProtectionKey> {
        Box::new(HeaderAdapter(
            Aes128GcmQuic.header_protection_key(fixed::<16>(key.as_ref())),
        ))
    }

    fn aead_key_len(&self) -> usize {
        Aes128GcmQuic.aead_key_len()
    }
}

impl quic::PacketKey for PacketAdapter {
    fn encrypt_in_place(
        &self,
        packet_number: u64,
        header: &[u8],
        payload: &mut [u8],
    ) -> Result<quic::Tag, Error> {
        match self.0.encrypt_in_place(packet_number, header, payload) {
            Ok(tag) => Ok(quic::Tag::from(&tag[..])),
            Err(error) => Err(crypto_error(error)),
        }
    }

    fn decrypt_in_place<'a>(
        &self,
        packet_number: u64,
        header: &[u8],
        payload: &'a mut [u8],
    ) -> Result<&'a [u8], Error> {
        match self.0.decrypt_in_place(packet_number, header, payload) {
            Ok(len) => Ok(&payload[..len]),
            Err(error) => Err(crypto_error(error)),
        }
    }

    fn tag_len(&self) -> usize {
        self.0.tag_len()
    }

    fn confidentiality_limit(&self) -> u64 {
        self.0.confidentiality_limit()
    }

    fn integrity_limit(&self) -> u64 {
        self.0.integrity_limit()
    }
}

impl quic::HeaderProtectionKey for HeaderAdapter {
    fn encrypt_in_place(
        &self,
        sample: &[u8],
        first: &mut u8,
        packet_number: &mut [u8],
    ) -> Result<(), Error> {
        self.0
            .encrypt_in_place(sample, first, packet_number)
            .map_err(crypto_error)
    }

    fn decrypt_in_place(
        &self,
        sample: &[u8],
        first: &mut u8,
        packet_number: &mut [u8],
    ) -> Result<(), Error> {
        self.0
            .decrypt_in_place(sample, first, packet_number)
            .map_err(crypto_error)
    }

    fn sample_len(&self) -> usize {
        self.0.sample_len()
    }
}

fn suite() -> &'static Tls13CipherSuite {
    Box::leak(Box::new(Tls13CipherSuite {
        common: CipherSuiteCommon {
            suite: CipherSuite::TLS13_AES_128_GCM_SHA256,
            hash_provider: &HashAdapter,
            confidentiality_limit: 1 << 24,
        },
        hkdf_provider: &HkdfUsingHmac(&HmacAdapter),
        aead_alg: &RecordAdapter,
        quic: Some(&QuicAdapter),
    }))
}

/// Client Initial keys derived from the published destination connection ID:
/// the whole derivation path (HKDF over HMAC-SHA-256, AES header protection)
/// against known answers.
#[test]
fn rfc9001_client_initial_keys() {
    let dcid = hex::decode("8394c8f03e515708").unwrap();
    let suite = suite();
    let keys = Keys::initial(
        Version::V1,
        suite,
        suite.quic.unwrap(),
        &dcid,
        Side::Client,
    );

    // The sample yields the mask 437b9aec36.
    let mut first: u8 = 0xc3;
    let mut pn = [0x00u8, 0x00, 0x00, 0x02];
    let sample = hex::decode("d1b1c98dd7689fb8ec11d242b123dc9b").unwrap();
    keys.local
        .header
        .encrypt_in_place(&sample, &mut first, &mut pn)
        .unwrap();
    assert_eq!(first, 0xc0);
    assert_eq!(pn, [0x7b, 0x9a, 0xec, 0x34]);

    keys.local
        .header
        .decrypt_in_place(&sample, &mut first, &mut pn)
        .unwrap();
    assert_eq!(first, 0xc3);
    assert_eq!(pn, [0x00, 0x00, 0x00, 0x02]);
}

/// The client's local packet key opens under the server's remote key.
#[test]
fn initial_packet_key_roundtrip() {
    let dcid = hex::decode("8394c8f03e515708").unwrap();
    let suite = suite();
    let client = Keys::initial(
        Version::V1,
        suite,
        suite.quic.unwrap(),
        &dcid,
        Side::Client,
    );
    let server = Keys::initial(
        Version::V1,
        suite,
        suite.quic.unwrap(),
        &dcid,
        Side::Server,
    );

    let header = b"fake header";
    let mut payload = b"hello initial".to_vec();
    let tag = client
        .local
        .packet
        .encrypt_in_place(0, header, &mut payload)
        .unwrap();
    payload.extend_from_slice(tag.as_ref());
    let plain = server
        .remote
        .packet
        .decrypt_in_place(0, header, &mut payload)
        .unwrap();
    assert_eq!(plain, b"hello initial");
}

// Known answers of the primitives.

#[test]
fn sha256_known_answer() {
    let expected = hex::decode("ba7816bf8f01cfea414140de5dae2223b00361a396177a9cb410ff61f20015ad")
        .unwrap();
    assert_eq!(Sha256Hash.hash(b"abc").to_vec(), expected);

    let mut context = Sha256Hash.start();
    context.update(b"a");
    let mut fork = context.fork();
    context.update(b"bc");
    assert_eq!(context.fork_finish().to_vec(), expected);
    assert_eq!(context.finish().to_vec(), expected);
    fork.update(b"bc");
    assert_eq!(fork.finish().to_vec(), expected);
    assert_eq!(Sha256Hash.output_len(), 32);
}

#[test]
fn hmac_known_answer() {
    let expected = hex::decode("5bdcc146bf60754e6a042426089575c75a003f089d2739839dec58b964ec3843")
        .unwrap();
    let key = HmacSha256.with_key(b"Jefe");
    let middle: [&[u8]; 2] = [b"do ya want ", b"for "];
    assert_eq!(
        key.sign_concat(b"what ", &middle, b"nothing?").to_vec(),
        expected
    );
    assert_eq!(
        key.sign_concat(b"", &[], b"what do ya want for nothing?")
            .to_vec(),
        expected
    );
    assert_eq!(key.tag_len(), 32);
    assert_eq!(HmacSha256.hash_output_len(), 32);
}

#[test]
fn aes_block_known_answer() {
    let key = QuicHeaderKey {
        key: fixed::<16>(&hex::decode("000102030405060708090a0b0c0d0e0f").unwrap()),
    };
    // The block is 69c4e0d86a7b0430d8cdb78070b4c55a.
    let sample = hex::decode("00112233445566778899aabbccddeeff").unwrap();
    let mut first: u8 = 0x40 | 0x03;
    let mut number = [0u8; 4];
    key.encrypt_in_place(&sample, &mut first, &mut number)
        .unwrap();
    assert_eq!(first, 0x43 ^ (0x69 & 0x1f));
    assert_eq!(number, [0xc4, 0xe0, 0xd8, 0x6a]);
}

#[test]
fn gcm_known_answer() {
    let key = Aes128GcmQuic.packet_key([0; 16], [0; 12]);
    let mut payload = [0u8; 16];
    let tag = key.encrypt_in_place(0, b"", &mut payload).unwrap();
    assert_eq!(hex::encode(payload), "0388dace60b6a392f328c2b971b2fe78");
    assert_eq!(hex::encode(tag), "ab6e47d42cec13bdf53a67b21257bddf");
    let empty = key.encrypt_in_place(0, b"", &mut []).unwrap();
    assert_eq!(hex::encode(empty), "58e2fccefa7e3061367f1d57a4e7455a");
}

// Packets and headers.

#[test]
fn sealed_packets_open_to_themselves() {
    let key = Aes128GcmQuic.packet_key([3; 16], [9; 12]);
    let mut sealed = b"forward".to_vec();
    let tag = key.encrypt_in_place(77, b"head", &mut sealed).unwrap();
    assert_ne!(sealed, b"forward".to_vec());
    sealed.extend_from_slice(&tag);
    let mut opened = sealed.clone();
    let len = key.decrypt_in_place(77, b"head", &mut opened).unwrap();
    assert_eq!(&opened[..len], b"forward");
    assert_eq!(&opened[len..], &tag[..]);

    for (number, head) in [(78u64, &b"head"[..]), (77, &b"tail"[..])] {
        let mut forged = sealed.clone();
        assert_eq!(
            key.decrypt_in_place(number, head, &mut forged),
            Err(CryptoError::DecryptError)
        );
        assert_eq!(forged, sealed);
    }
    assert_eq!(
        key.decrypt_in_place(77, b"head", &mut [0u8; 15]),
        Err(CryptoError::DecryptError)
    );
    assert_eq!(key.tag_len(), 16);
    assert_eq!(key.confidentiality_limit(), 1 << 23);
    assert_eq!(key.integrity_limit(), 1 << 52);
}

#[test]
fn header_protection_comes_off_again() {
    let key = QuicHeaderKey { key: [5; 16] };
    let sample = [0x31u8; 16];
    for plain in [0xc0u8, 0xc1, 0xc3, 0x40, 0x42, 0x43] {
        let mut first = plain;
        let mut number = [1u8, 2, 3, 4];
        key.encrypt_in_place(&sample, &mut first, &mut number)
            .unwrap();
        let covered = (plain & 0x03) as usize + 1;
        assert_eq!(&number[covered..], &[1u8, 2, 3, 4][covered..]);
        key.decrypt_in_place(&sample, &mut first, &mut number)
            .unwrap();
        assert_eq!(first, plain);
        assert_eq!(number, [1, 2, 3, 4]);
    }
}

#[test]
fn malformed_headers_are_refused() {
    let key = QuicHeaderKey { key: [5; 16] };
    let mut first = 0xc3u8;
    let mut number = [0u8; 4];
    assert_eq!(
        key.encrypt_in_place(&[0; 15], &mut first, &mut number),
        Err(CryptoError::SampleLength)
    );
    let mut long = [0u8; 16];
    assert_eq!(
        key.encrypt_in_place(&[0; 16], &mut first, &mut long),
        Err(CryptoError::PacketNumberLength)
    );
    assert_eq!(first, 0xc3);
    assert_eq!(long, [0; 16]);
    assert_eq!(
        CryptoError::SampleLength.detail().unwrap(),
        "sample of invalid length"
    );
    assert_eq!(
        CryptoError::PacketNumberLength.detail().unwrap(),
        "packet number too long"
    );
    assert_eq!(CryptoError::DecryptError.detail(), None);
    assert_eq!(key.sample_len(), 16);
}

#[test]
fn the_mask_covers_what_the_first_byte_says() {
    let mask = [0xffu8; 16];
    let mut first = 0x80u8 | 0x01;
    let mut number = [0u8, 0, 0];
    apply_mask(&mask, &mut first, &mut number, false);
    assert_eq!(first, 0x8e);
    assert_eq!(number, [0xff, 0xff, 0]);
    apply_mask(&mask, &mut first, &mut number, true);
    assert_eq!(first, 0x81);
    assert_eq!(number, [0, 0, 0]);
}

// Records.

#[test]
fn nonces_mask_the_last_eight_bytes() {
    let iv = [1u8, 2, 3, 4, 5, 6, 7, 8, 9, 10, 11, 12];
    assert_eq!(nonce(&iv, 0), iv);
    assert_eq!(
        nonce(&iv, 0x0102),
        [1, 2, 3, 4, 5, 6, 7, 8, 9, 10, 11 ^ 1, 12 ^ 2]
    );
    assert_eq!(nonce(&[0; 12], u64::MAX)[4..], [0xff; 8]);
}

#[test]
fn records_authenticate_their_length() {
    assert_eq!(record_aad(0x0123), [0x17, 0x03, 0x03, 0x01, 0x23]);
    assert_eq!(record_aad(0x1_0005), [0x17, 0x03, 0x03, 0x00, 0x05]);
}

#[test]
fn sealed_records_open_to_themselves() {
    let (key, iv) = ([7u8; 16], [8u8; 12]);
    let sealed = RecordEncrypter { key, iv }.encrypt(b"record", 23, 4).unwrap();
    assert_eq!(
        sealed.len(),
        RecordEncrypter { key, iv }.encrypted_payload_len(6)
    );
    assert_eq!(sealed.len(), 23);
    let plain = RecordDecrypter { key, iv }.decrypt(sealed.clone(), 4).unwrap();
    assert_eq!(plain.typ, 23);
    assert_eq!(plain.payload, b"record");
    assert!(matches!(
        RecordDecrypter { key, iv }.decrypt(sealed.clone(), 5),
        Err(CryptoError::DecryptError)
    ));
    assert!(matches!(
        RecordDecrypter { key, iv }.decrypt(sealed[..15].to_vec(), 4),
        Err(CryptoError::DecryptError)
    ));
}

#[test]
fn inner_plaintext_is_unpadded() {
    let plain = unpad(vec![1, 2, 22, 0, 0]).ok().unwrap();
    assert_eq!((plain.typ, plain.payload), (22, vec![1, 2]));
    assert_eq!(
        unpad(vec![0, 0]).err(),
        Some(CryptoError::IllegalTlsInnerPlaintext)
    );
    assert_eq!(
        unpad(vec![]).err(),
        Some(CryptoError::IllegalTlsInnerPlaintext)
    );
    assert_eq!(
        unpad(vec![1, 20, 0]).err(),
        Some(CryptoError::IllegalMiddleboxChangeCipherSpec)
    );
    assert_eq!(
        unpad(vec![23; 16386]).err(),
        Some(CryptoError::PeerSentOversizedRecord)
    );
    assert_eq!(unpad(vec![23; 16385]).ok().unwrap().payload.len(), 16384);
}
