//! X25519 key exchange whose scalar lives behind a handle that the caller
//! holds.

use crate::bytes::copy_bytes;
use crate::text::concat;
use vstd::prelude::*;

verus! {

/// TLS's code point for X25519.
pub const X25519_GROUP: u16 = 0x001d;

/// How many bits the agreement derives.
pub const SHARED_SECRET_BITS: u32 = 256;

/// How an agreement key is minted.
#[derive(Clone, Copy, Debug, PartialEq, Eq, Structural)]
pub struct AgreementKeyOptions {
    pub derive_bits: bool,
    pub derive_key: bool,
    pub extractable: bool,
}

/// The only key-exchange group.
#[derive(Clone, Copy, Debug)]
pub struct WebcryptoX25519;

/// The public half of an exchange in progress.
pub struct ActiveX25519 {
    pub pub_bytes: Vec<u8>,
}

/// A failure of the key handle, described.
pub fn webcrypto_error(detail: &str) -> (text: String)
    ensures
        text@ == "webcrypto x25519: "@ + detail@,
{
    concat("webcrypto x25519: ", detail)
}

impl WebcryptoX25519 {
    /// How the ephemeral key is minted: it derives bits, and nothing can read
    /// it.
    pub fn key_options(&self) -> (options: AgreementKeyOptions)
        ensures
            options.derive_bits,
            !options.derive_key,
            !options.extractable,
    {
        AgreementKeyOptions { derive_bits: true, derive_key: false, extractable: false }
    }

    /// Begin an exchange from what minting the key and exporting its public
    /// half gave.
    pub fn start(&self, exported: Result<Vec<u8>, String>) -> (started: Result<
        ActiveX25519,
        String,
    >)
        ensures
            match exported {
                Ok(bytes) => started matches Ok(active) && active.pub_bytes@ == bytes@,
                Err(detail) => started matches Err(text) && text@ == "webcrypto x25519: "@
                    + detail@,
            },
    {
        match exported {
            Ok(pub_bytes) => Ok(ActiveX25519 { pub_bytes }),
            Err(detail) => Err(webcrypto_error(detail.as_str())),
        }
    }

    pub fn name(&self) -> (group: u16)
        ensures
            group == X25519_GROUP,
    {
        X25519_GROUP
    }
}

impl ActiveX25519 {
    /// End the exchange with what importing the peer's key, agreeing and
    /// deriving gave.
    pub fn complete(self, derived: Result<Vec<u8>, String>) -> (secret: Result<Vec<u8>, String>)
        ensures
            match derived {
                Ok(bytes) => secret matches Ok(out) && out@ == bytes@,
                Err(detail) => secret matches Err(text) && text@ == "webcrypto x25519: "@ + detail@,
            },
    {
        match derived {
            Ok(bytes) => Ok(bytes),
            Err(detail) => Err(webcrypto_error(detail.as_str())),
        }
    }

    /// The public half to send.
    pub fn pub_key(&self) -> (bytes: Vec<u8>)
        ensures
            bytes@ == self.pub_bytes@,
    {
        copy_bytes(self.pub_bytes.as_slice())
    }

    pub fn group(&self) -> (group: u16)
        ensures
            group == X25519_GROUP,
    {
        X25519_GROUP
    }
}

/// The group's code point, and the length of the secret that it agrees on.
pub proof fn the_group_is_x25519()
    ensures
        X25519_GROUP == 0x001d,
        SHARED_SECRET_BITS == 8 * 32,
{
}

} // verus!
