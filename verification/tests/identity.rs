use component_iroh::crypto::kx::WebcryptoX25519;
use component_iroh::crypto::sign::{choose_scheme, Identity, Injected, MintFailure};
use component_iroh::crypto::verify::Ed25519Webcrypto;
use component_iroh::tls::{endpoint_id_from_spki, SERVER_NAME};

fn pair() -> Injected {
    Injected {
        signing_algorithm: "Ed25519".to_string(),
        verifying_algorithm: "Ed25519".to_string(),
        can_sign: true,
    }
}

fn refused(
    pair: Injected,
    exported: Result<Vec<u8>, String>,
    signed: Result<(), String>,
    verified: bool,
) -> String {
    Identity::from_injected(&pair, exported, signed, verified)
        .err()
        .unwrap()
}

#[test]
fn certificates_name_their_identity() {
    let identity = Identity::generate(Ok(vec![0xab; 32])).ok().unwrap();
    assert_eq!(identity.endpoint_id, [0xab; 32]);
    let mut expected = hex::decode("302a300506032b6570032100").unwrap();
    expected.extend_from_slice(&[0xab; 32]);
    assert_eq!(identity.spki, expected);
    assert_eq!(identity.certified_key(), vec![expected.clone()]);
    assert_eq!(endpoint_id_from_spki(&expected), Some([0xab; 32]));
}

#[test]
fn only_ed25519_keys_name_an_identity() {
    let mut spki = hex::decode("302a300506032b6570032100").unwrap();
    spki.extend_from_slice(&[1; 32]);
    assert_eq!(endpoint_id_from_spki(&spki), Some([1; 32]));
    assert_eq!(endpoint_id_from_spki(&spki[..43]), None);
    let mut longer = spki.clone();
    longer.push(0);
    assert_eq!(endpoint_id_from_spki(&longer), None);
    let mut other = spki.clone();
    other[8] = 0x6e;
    assert_eq!(endpoint_id_from_spki(&other), None);
    assert_eq!(SERVER_NAME, "endpoint.iroh.invalid");
}

#[test]
fn minting_failures_are_described() {
    assert_eq!(
        Identity::generate(Err(MintFailure::Generate("denied".to_string())))
            .err()
            .unwrap(),
        "generate identity: denied"
    );
    assert_eq!(
        Identity::generate(Err(MintFailure::Export("denied".to_string())))
            .err()
            .unwrap(),
        "export identity public key: denied"
    );
    assert_eq!(
        Identity::generate(Ok(vec![0; 31])).err().unwrap(),
        "expected 32-byte Ed25519 public key, got 31"
    );
    assert!(Identity::key_options().sign);
    assert!(!Identity::key_options().extractable);
}

#[test]
fn injected_pairs_are_checked() {
    let id = vec![9u8; 32];
    let adopted = Identity::from_injected(&pair(), Ok(id.clone()), Ok(()), true)
        .ok()
        .unwrap();
    assert_eq!(adopted.endpoint_id.to_vec(), id);

    let mut bad = pair();
    bad.signing_algorithm = "ECDSA".to_string();
    assert_eq!(
        refused(bad, Ok(id.clone()), Ok(()), true),
        "identity signing key is ECDSA, not Ed25519"
    );
    let mut bad = pair();
    bad.verifying_algorithm = "X25519".to_string();
    assert_eq!(
        refused(bad, Ok(id.clone()), Ok(()), true),
        "identity verifying key is X25519, not Ed25519"
    );
    let mut bad = pair();
    bad.can_sign = false;
    assert_eq!(
        refused(bad, Ok(id.clone()), Ok(()), true),
        "identity signing key does not permit sign"
    );
    assert_eq!(
        refused(pair(), Err("locked".to_string()), Ok(()), true),
        "export identity public key: locked"
    );
    assert_eq!(
        refused(pair(), Ok(vec![1; 33]), Ok(()), true),
        "expected 32-byte Ed25519 public key, got 33"
    );
    assert_eq!(
        refused(pair(), Ok(id.clone()), Err("busy".to_string()), true),
        "identity probe signature: busy"
    );
    assert_eq!(
        refused(pair(), Ok(id), Ok(()), false),
        "identity mismatch: the verifying key is not the signing key's public half"
    );
}

#[test]
fn signatures_pass_through() {
    assert_eq!(Identity::sign(Ok(vec![1, 2])), Ok(vec![1, 2]));
    assert_eq!(
        Identity::sign(Err("gone".to_string())),
        Err("webcrypto ed25519 sign: gone".to_string())
    );
    assert!(choose_scheme(&vec![0x0403, 0x0807]));
    assert!(!choose_scheme(&vec![0x0403]));
    assert!(!choose_scheme(&vec![]));
}

#[test]
fn key_exchange_follows_the_handle() {
    let options = WebcryptoX25519.key_options();
    assert!(options.derive_bits && !options.derive_key && !options.extractable);
    let active = WebcryptoX25519.start(Ok(vec![4; 32])).ok().unwrap();
    assert_eq!(active.pub_key(), vec![4; 32]);
    assert_eq!(active.group(), 0x1d);
    assert_eq!(WebcryptoX25519.name(), 0x1d);
    assert_eq!(active.complete(Ok(vec![6; 32])), Ok(vec![6; 32]));
    assert_eq!(
        WebcryptoX25519.start(Err("no key".to_string())).err(),
        Some("webcrypto x25519: no key".to_string())
    );
    let active = WebcryptoX25519.start(Ok(vec![4; 32])).ok().unwrap();
    assert_eq!(
        active.complete(Err("bad point".to_string())),
        Err("webcrypto x25519: bad point".to_string())
    );
}

#[test]
fn verification_needs_both_answers() {
    assert!(Ed25519Webcrypto.verify_signature(true, true).is_ok());
    assert!(Ed25519Webcrypto.verify_signature(false, true).is_err());
    assert!(Ed25519Webcrypto.verify_signature(true, false).is_err());
    let id = hex::decode("06032b6570").unwrap();
    assert_eq!(Ed25519Webcrypto.public_key_alg_id().to_vec(), id);
    assert_eq!(Ed25519Webcrypto.signature_alg_id().to_vec(), id);
}
