use vstd::prelude::*;
use crate::keys::{PairSigner, sr25519_verifies};
use crate::scale::{compact_bytes, encode_compact_u128};

verus! {

/// The blake2b-256 digest of a byte string.
pub uninterp spec fn blake2_256_of(data: Seq<u8>) -> Seq<u8>;

/// Relies on sp_core::Blake2Hasher::hash (blake2b, 256-bit): the digest is a
/// function of the input bytes alone.
#[verifier::external_body]
fn blake2_256(data: &[u8]) -> (r: [u8; 32])
    ensures
        r@ == blake2_256_of(data@),
{
    <sp_core::Blake2Hasher as sp_core::Hasher>::hash(data).0
}

/// The signing payload: the exact concatenation of call bytes, extra bytes,
/// and additional bytes, in that order, with no reinterpretation.
pub open spec fn signing_payload(call: Seq<u8>, extra: Seq<u8>, additional: Seq<u8>) -> Seq<u8> {
    call + extra + additional
}

/// The byte string actually signed: the payload itself, or its blake2b-256
/// digest when the payload is longer than 256 bytes.
pub open spec fn signed_message(payload: Seq<u8>) -> Seq<u8> {
    if payload.len() > 256 {
        blake2_256_of(payload)
    } else {
        payload
    }
}

/// Append a slice to a vector.
fn append_slice(out: &mut Vec<u8>, s: &[u8])
    ensures
        final(out)@ == old(out)@ + s@,
{
    let ghost pre = out@;
    let mut i: usize = 0;
    while i < s.len()
        invariant
            i <= s@.len(),
            out@ == pre + s@.take(i as int),
        decreases s@.len() - i,
    {
        proof {
            assert(s@.take(i as int).push(s@[i as int]) =~= s@.take(i + 1));
        }
        out.push(s[i]);
        i = i + 1;
    }
    proof {
        assert(s@.take(s@.len() as int) =~= s@);
    }
}

/// Assemble the signing payload: a pure, order-preserving concatenation of
/// the call bytes, the extra bytes, and the additional bytes.
pub fn assemble(call: &[u8], extra: &[u8], additional: &[u8]) -> (r: Vec<u8>)
    ensures
        r@ == signing_payload(call@, extra@, additional@),
{
    let mut r: Vec<u8> = Vec::new();
    append_slice(&mut r, call);
    append_slice(&mut r, extra);
    append_slice(&mut r, additional);
    proof {
        assert(r@ =~= call@ + extra@ + additional@);
    }
    r
}

/// Sign an assembled payload: the payload (hashed first when longer than
/// 256 bytes) is signed with the signer's key, and the 64-byte signature
/// verifies under the signer's public key over that signed message.
pub fn sign_payload(signer: &PairSigner, payload: &[u8]) -> (r: Vec<u8>)
    ensures
        r@.len() == 64,
        sr25519_verifies(signer.spec_public(), signed_message(payload@), r@),
{
    if payload.len() > 256 {
        let hashed = blake2_256(payload);
        signer.sign(hashed.as_slice())
    } else {
        signer.sign(payload)
    }
}

/// The transmitted form of a signed extrinsic: its body is the version byte
/// of a version-4 signed extrinsic, the signer's address (an identity
/// address holding the 32 account bytes), the sr25519 signature under its
/// one-byte discriminant, the extra bytes, and the call bytes; the whole is
/// prefixed with its compact-encoded length. The additional bytes are
/// absent: they are covered by the signature only.
pub open spec fn extrinsic_bytes(
    account: Seq<u8>,
    signature: Seq<u8>,
    extra: Seq<u8>,
    call: Seq<u8>,
) -> Seq<u8> {
    let body = seq![132u8, 0u8] + account + seq![1u8] + signature + extra + call;
    compact_bytes(body.len()) + body
}

/// Build the transmitted extrinsic from the signer's account, the
/// signature, and the extra and call bytes.
pub fn build_signed_extrinsic(
    account: &[u8; 32],
    signature: &[u8],
    extra: &[u8],
    call: &[u8],
) -> (r: Vec<u8>)
    requires
        signature@.len() == 64,
        call@.len() + extra@.len() + 99 <= usize::MAX,
    ensures
        r@ == extrinsic_bytes(account@, signature@, extra@, call@),
{
    let mut body: Vec<u8> = vec![132u8, 0u8];
    append_slice(&mut body, account.as_slice());
    body.push(1u8);
    append_slice(&mut body, signature);
    append_slice(&mut body, extra);
    append_slice(&mut body, call);
    proof {
        assert(body@ =~= seq![132u8, 0u8] + account@ + seq![1u8] + signature@ + extra@ + call@);
    }
    let mut r = encode_compact_u128(body.len() as u128);
    r.append(&mut body);
    r
}

/// One signing pass, end to end: assemble the payload from the call, extra
/// and additional bytes, sign it, and build the transmitted extrinsic.
/// Some 64-byte signature that verifies under the signer's key over the
/// signed message is embedded; everything around it is pinned exactly.
pub fn prepare_signed_extrinsic(
    signer: &PairSigner,
    call: &[u8],
    extra: &[u8],
    additional: &[u8],
) -> (r: Vec<u8>)
    requires
        call@.len() + extra@.len() + 99 <= usize::MAX,
        call@.len() + extra@.len() + additional@.len() <= usize::MAX,
    ensures
        exists|sig: Seq<u8>|
            #![auto]
            sig.len() == 64 && sr25519_verifies(
                signer.spec_public(),
                signed_message(signing_payload(call@, extra@, additional@)),
                sig,
            ) && r@ == extrinsic_bytes(signer.spec_public(), sig, extra@, call@),
{
    let payload = assemble(call, extra, additional);
    let signature = sign_payload(signer, payload.as_slice());
    let account = signer.account_id();
    let r = build_signed_extrinsic(&account, signature.as_slice(), extra, call);
    proof {
        assert(signature@.len() == 64 && sr25519_verifies(
            signer.spec_public(),
            signed_message(signing_payload(call@, extra@, additional@)),
            signature@,
        ) && r@ == extrinsic_bytes(signer.spec_public(), signature@, extra@, call@));
    }
    r
}

} // verus!
