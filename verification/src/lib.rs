//! Foundation layer of a Noise Protocol Framework implementation: the catalog
//! of handshake message patterns and the generic cryptographic primitive
//! abstraction (DH, AEAD cipher, hash) with the derived HMAC and HKDF
//! constructions.

pub mod handshakepattern;
pub mod traits;
