//! Metadata-driven construction and signing of blockchain extrinsics.
//!
//! The crate turns user-supplied key material (a BIP-39 phrase or a raw
//! seed) into an sr25519 keypair, decodes opaque call bytes against a
//! runtime-published type registry, evaluates an ordered chain of
//! transaction extensions, and assembles the exact byte strings that are
//! signed and transmitted.

pub mod errors;
pub mod hexutil;
pub mod scale;
pub mod keys;
pub mod registry;
pub mod decode;
pub mod extensions;
pub mod payload;
