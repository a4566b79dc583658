use vstd::prelude::*;
use crate::errors::TxError;
use crate::hexutil::{decode_hex, strip_hex_prefix, valid_hex, hex_decode};

verus! {

#[verifier::external_type_specification]
#[verifier::external_body]
pub struct ExSr25519Pair(sp_core::sr25519::Pair);

/// Whether a BIP-39 phrase passes wordlist and checksum validation.
pub uninterp spec fn mnemonic_valid(phrase: Seq<char>) -> bool;

/// The sr25519 public key derived from a secret URI, or `None` when the
/// URI is rejected.
pub uninterp spec fn public_of_uri(uri: Seq<char>) -> Option<Seq<u8>>;

/// The sr25519 public key derived from a 32-byte seed.
pub uninterp spec fn public_of_seed(seed: Seq<u8>) -> Seq<u8>;

/// Whether `sig` is a 64-byte sr25519 signature by `pk` over `msg`.
pub uninterp spec fn sr25519_verifies(pk: Seq<u8>, msg: Seq<u8>, sig: Seq<u8>) -> bool;

/// An sr25519 keypair together with its public key bytes.
///
/// The fields are private: every value is built by the derivation wrappers
/// in this module, each of which sets `public` to the public key that the
/// held pair reports of itself.
pub struct Keypair {
    pair: sp_core::sr25519::Pair,
    public: [u8; 32],
}

impl Keypair {
    /// The public key bytes, as a sequence.
    pub closed spec fn spec_public(&self) -> Seq<u8> {
        self.public@
    }

    /// The public key bytes. They double as the account identifier.
    pub fn public(&self) -> (r: [u8; 32])
        ensures
            r@ == self.spec_public(),
    {
        self.public
    }
}

/// Relies on bip39::Mnemonic::parse: it accepts exactly the phrases that
/// pass wordlist and checksum validation, as a function of the phrase alone.
#[verifier::external_body]
fn parse_mnemonic(phrase: &str) -> (r: bool)
    ensures
        r == mnemonic_valid(phrase@),
{
    bip39::Mnemonic::parse(phrase).is_ok()
}

/// Relies on sp_core::crypto::Pair::from_string for sr25519, with no
/// password: deterministic derivation of a keypair from the secret URI
/// `<phrase><path>`; success and the derived public key are functions of
/// the URI alone.
#[verifier::external_body]
fn pair_from_uri(phrase: &str, path: &str) -> (r: Option<Keypair>)
    ensures
        match r {
            Some(kp) => public_of_uri(phrase@ + path@) == Some(kp.spec_public()),
            None => public_of_uri(phrase@ + path@) is None,
        },
{
    let uri = format!("{}{}", phrase, path);
    match <sp_core::sr25519::Pair as sp_core::Pair>::from_string(&uri, None) {
        Ok(pair) => {
            let public = sp_core::Pair::public(&pair).0;
            Some(Keypair { pair, public })
        },
        Err(_) => None,
    }
}

/// Relies on sp_core::crypto::Pair::from_seed_slice for sr25519: it accepts
/// every 32-byte slice (its only failure is a wrong seed length), and the
/// derived public key is a function of the seed alone.
#[verifier::external_body]
fn pair_from_seed(seed: &[u8; 32]) -> (r: Keypair)
    ensures
        r.spec_public() == public_of_seed(seed@),
{
    let pair = <sp_core::sr25519::Pair as sp_core::Pair>::from_seed_slice(seed)
        .expect("a 32-byte seed is always accepted");
    let public = sp_core::Pair::public(&pair).0;
    Keypair { pair, public }
}

/// Relies on sp_core::crypto::Pair::sign for sr25519: the signature is 64
/// bytes and verifies under the pair's public key. The signature bytes are
/// randomized, so nothing more is promised of them.
#[verifier::external_body]
fn sign_with(kp: &Keypair, msg: &[u8]) -> (r: Vec<u8>)
    ensures
        r@.len() == 64,
        sr25519_verifies(kp.spec_public(), msg@, r@),
{
    sp_core::Pair::sign(&kp.pair, msg).0.to_vec()
}

/// User-supplied signing material: a BIP-39 phrase with an optional
/// derivation path, or a raw 32-byte seed.
pub enum KeyMaterial {
    Mnemonic { phrase: String, derive_path: Option<String> },
    Seed { bytes: [u8; 32] },
}

/// The secret URI a mnemonic denotes: the phrase with the derivation path
/// appended (`<phrase><path>`; `/soft` and `//hard` segments).
pub open spec fn uri_of(phrase: Seq<char>, derive_path: Option<String>) -> Seq<char> {
    match derive_path {
        Some(p) => phrase + p@,
        None => phrase,
    }
}

/// The public key that resolving the key material yields, or `None` when
/// resolution must fail.
pub open spec fn spec_resolve(km: KeyMaterial) -> Option<Seq<u8>> {
    match km {
        KeyMaterial::Mnemonic { phrase, derive_path } => if mnemonic_valid(phrase@) {
            public_of_uri(uri_of(phrase@, derive_path))
        } else {
            None
        },
        KeyMaterial::Seed { bytes } => Some(public_of_seed(bytes@)),
    }
}

/// Validate a BIP-39 mnemonic: succeeds exactly on the phrases that pass
/// wordlist and checksum validation, and never derives from one that does
/// not.
pub fn ensure_valid_mnemonic(phrase: &str) -> (r: Result<(), TxError>)
    ensures
        match r {
            Ok(u) => mnemonic_valid(phrase@),
            Err(e) => !mnemonic_valid(phrase@) && e == TxError::InvalidMnemonic,
        },
{
    if parse_mnemonic(phrase) {
        Ok(())
    } else {
        Err(TxError::InvalidMnemonic)
    }
}

/// Choose key material from optional command-line inputs: a phrase, with
/// the optional derivation path, supersedes a seed; a seed alone is decoded
/// and length-checked; with neither, `Ok(None)` asks the caller to gather
/// input interactively.
pub fn key_material_from_args(
    phrase: Option<String>,
    seed_hex: Option<&[u8]>,
    derive_path: Option<String>,
) -> (r: Result<Option<KeyMaterial>, TxError>)
    ensures
        match r {
            Ok(o) => match phrase {
                Some(p) => (o matches Some(KeyMaterial::Mnemonic { phrase: p2, derive_path: d })
                    && p2 == p && d == derive_path),
                None => match seed_hex {
                    Some(s) => valid_hex(strip_hex_prefix(s@)) && hex_decode(
                        strip_hex_prefix(s@),
                    ).len() == 32 && (o matches Some(KeyMaterial::Seed { bytes }) && bytes@
                        == hex_decode(strip_hex_prefix(s@))),
                    None => o is None,
                },
            },
            Err(e) => phrase is None && (seed_hex matches Some(s) && (if !valid_hex(
                strip_hex_prefix(s@),
            ) {
                e == TxError::InvalidHex
            } else {
                hex_decode(strip_hex_prefix(s@)).len() != 32 && e == (TxError::InvalidSeedLength {
                    len: hex_decode(strip_hex_prefix(s@)).len() as usize,
                })
            })),
        },
{
    match phrase {
        Some(p) => Ok(Some(KeyMaterial::Mnemonic { phrase: p, derive_path })),
        None => match seed_hex {
            Some(s) => match key_material_from_seed_hex(s) {
                Ok(km) => Ok(Some(km)),
                Err(e) => Err(e),
            },
            None => Ok(None),
        },
    }
}

/// Turn key material into a keypair ready for signing.
///
/// A mnemonic is validated before any derivation is attempted; an invalid
/// phrase fails with `InvalidMnemonic`, a phrase or path the derivation
/// backend rejects fails with `InvalidDerivation`. A seed always resolves,
/// and the derived public key is a function of the input alone.
pub fn try_into_keypair(km: &KeyMaterial) -> (r: Result<Keypair, TxError>)
    ensures
        match r {
            Ok(kp) => spec_resolve(*km) == Some(kp.spec_public()),
            Err(e) => spec_resolve(*km) is None && match *km {
                KeyMaterial::Mnemonic { phrase, .. } => e == (if !mnemonic_valid(phrase@) {
                    TxError::InvalidMnemonic
                } else {
                    TxError::InvalidDerivation
                }),
                KeyMaterial::Seed { .. } => false,
            },
        },
{
    match km {
        KeyMaterial::Mnemonic { phrase, derive_path } => {
            if let Err(e) = ensure_valid_mnemonic(phrase.as_str()) {
                return Err(e);
            }
            let derived = match derive_path {
                Some(p) => pair_from_uri(phrase.as_str(), p.as_str()),
                None => {
                    let d = pair_from_uri(phrase.as_str(), "");
                    proof {
                        reveal_strlit("");
                        assert(phrase@ + ""@ =~= phrase@);
                    }
                    d
                },
            };
            match derived {
                Some(kp) => Ok(kp),
                None => Err(TxError::InvalidDerivation),
            }
        },
        KeyMaterial::Seed { bytes } => Ok(pair_from_seed(bytes)),
    }
}

/// Build seed key material from an optionally `0x`-prefixed hex string.
///
/// Fails with `InvalidHex` when the input is not hex, and with
/// `InvalidSeedLength` (carrying the decoded length) when the decoded bytes
/// are not exactly 32.
pub fn key_material_from_seed_hex(s: &[u8]) -> (r: Result<KeyMaterial, TxError>)
    ensures
        ({
            let t = strip_hex_prefix(s@);
            match r {
                Ok(km) => valid_hex(t) && hex_decode(t).len() == 32 && (km matches
                    KeyMaterial::Seed { bytes } && bytes@ == hex_decode(t)),
                Err(e) => if !valid_hex(t) {
                    e == TxError::InvalidHex
                } else {
                    hex_decode(t).len() != 32 && e == (TxError::InvalidSeedLength {
                        len: hex_decode(t).len() as usize,
                    })
                },
            }
        }),
{
    let decoded = match decode_hex(s) {
        Ok(v) => v,
        Err(e) => {
            return Err(e);
        },
    };
    if decoded.len() != 32 {
        return Err(TxError::InvalidSeedLength { len: decoded.len() });
    }
    let mut bytes: [u8; 32] = [0u8; 32];
    let mut i: usize = 0;
    while i < 32
        invariant
            i <= 32,
            decoded@.len() == 32,
            bytes@.len() == 32,
            forall|k: int| 0 <= k < i ==> bytes@[k] == decoded@[k],
        decreases 32 - i,
    {
        bytes[i] = decoded[i];
        i = i + 1;
    }
    proof {
        assert(bytes@ =~= decoded@);
    }
    Ok(KeyMaterial::Seed { bytes })
}

/// A signer wrapping a resolved keypair: it exposes the account identifier
/// and signs arbitrary byte payloads.
pub struct PairSigner {
    keypair: Keypair,
}

impl PairSigner {
    /// Wrap a keypair.
    pub fn from(keypair: Keypair) -> (r: PairSigner)
        ensures
            r.spec_public() == keypair.spec_public(),
    {
        PairSigner { keypair }
    }

    /// The signer's public key bytes.
    pub closed spec fn spec_public(&self) -> Seq<u8> {
        self.keypair.spec_public()
    }

    /// The account identifier: the 32 public key bytes.
    pub fn account_id(&self) -> (r: [u8; 32])
        ensures
            r@ == self.spec_public(),
    {
        self.keypair.public()
    }

    /// Sign a payload; the 64-byte signature verifies under `account_id`.
    pub fn sign(&self, signer_payload: &[u8]) -> (r: Vec<u8>)
        ensures
            r@.len() == 64,
            sr25519_verifies(self.spec_public(), signer_payload@, r@),
    {
        sign_with(&self.keypair, signer_payload)
    }
}

/// Resolving the same key material twice yields the same public key:
/// any two successful resolutions of equal inputs agree bit for bit.
pub proof fn lemma_resolution_deterministic(
    km: KeyMaterial,
    pk1: Seq<u8>,
    pk2: Seq<u8>,
)
    requires
        spec_resolve(km) == Some(pk1),
        spec_resolve(km) == Some(pk2),
    ensures
        pk1 == pk2,
{
}

/// The public key derived from a seed is a function of the seed alone:
/// repeated runs over the same 32 bytes give the same key.
pub proof fn lemma_seed_round_trip(seed1: Seq<u8>, seed2: Seq<u8>)
    requires
        seed1 == seed2,
    ensures
        public_of_seed(seed1) == public_of_seed(seed2),
{
}

} // verus!
