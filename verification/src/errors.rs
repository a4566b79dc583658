use vstd::prelude::*;

verus! {

/// Every failure the library can report. All failures are fatal for the
/// run: either a fully assembled, correctly signed extrinsic is produced,
/// or nothing is.
#[derive(Debug, Clone, Copy, PartialEq, Eq, Structural)]
pub enum TxError {
    /// The mnemonic phrase failed wordlist or checksum validation.
    InvalidMnemonic,
    /// The seed did not decode to exactly 32 bytes; carries the length seen.
    InvalidSeedLength { len: usize },
    /// A byte string that should be hex (optionally `0x`-prefixed) was not.
    InvalidHex,
    /// The secret URI (phrase plus derivation path) was rejected by the
    /// key-derivation backend.
    InvalidDerivation,
    /// The call bytes do not decode against the registry; carries the type
    /// identifier at which decoding stopped.
    DecodeError { type_id: u32 },
    /// The call bytes decoded, but not to the two-level variant shape
    /// (pallet selector wrapping a call selector); carries the type
    /// identifier whose decoded shape did not match.
    MalformedCallShape { type_id: u32 },
    /// An extension declared by the runtime matched no implemented slot;
    /// carries the position of the declaration in the runtime's list.
    UnmatchedExtension { index: usize },
}

} // verus!
