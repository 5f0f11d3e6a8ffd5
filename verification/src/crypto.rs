//! The crypto split: hashing, the key schedule's MAC, record and packet
//! protection run here; the identity key and key exchange live behind
//! handles that the caller holds.

pub mod primitives;
pub mod suite;
pub mod quic;
pub mod kx;
pub mod sign;
pub mod verify;
