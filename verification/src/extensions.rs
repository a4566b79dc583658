use vstd::prelude::*;
use vstd::string::is_ascii;
use vstd::string::StringSliceAdditionalSpecFns;
use crate::errors::TxError;
use crate::registry::Registry;
use crate::scale::{le_bytes, le_bytes_exec, compact_bytes, encode_compact_u128, encode_compact_u64,
    option_u32_bytes, encode_option_u32, encode_u32_le};

verus! {

/// Compare two strings, the right one ASCII.
pub fn str_eq_ascii(a: &str, b: &str) -> (r: bool)
    requires
        is_ascii(b),
    ensures
        r == (a@ == b@),
{
    broadcast use vstd::string::is_ascii_spec_bytes;
    broadcast use vstd::utf8::is_ascii_chars_nat_bound;

    if !a.is_ascii() {
        proof {
            assert(a@ != b@) by {
                if a@ == b@ {
                    assert(is_ascii(a));
                }
            }
        }
        return false;
    }
    let ab = a.as_bytes();
    let bb = b.as_bytes();
    proof {
        assert(a.spec_bytes().len() == a@.len());
        assert(b.spec_bytes().len() == b@.len());
    }
    if ab.len() != bb.len() {
        return false;
    }
    let n = ab.len();
    let mut i: usize = 0;
    while i < n
        invariant
            i <= n,
            n == ab@.len() == bb@.len(),
            ab@ == a.spec_bytes(),
            bb@ == b.spec_bytes(),
            is_ascii(a),
            is_ascii(b),
            a@.len() == n,
            b@.len() == n,
            forall|k: int| 0 <= k < i ==> ab@[k] == bb@[k],
        decreases n - i,
    {
        if ab[i] != bb[i] {
            proof {
                broadcast use vstd::string::is_ascii_spec_bytes;

                assert(a.spec_bytes()[i as int] == a@[i as int] as u8);
                assert(b.spec_bytes()[i as int] == b@[i as int] as u8);
                assert(a@[i as int] != b@[i as int]);
            }
            return false;
        }
        i = i + 1;
    }
    proof {
        assert forall|k: int| 0 <= k < a@.len() implies a@[k] == b@[k] by {
            assert(a.spec_bytes()[k] == a@[k] as u8);
            assert(b.spec_bytes()[k] == b@[k] as u8);
            assert((a@[k] as nat) < 128);
            assert((b@[k] as nat) < 128);
        }
        assert(a@ =~= b@);
    }
    true
}

/// The mortality of a transaction: immortal, or valid for `period` blocks
/// (a power of two) starting at a block whose number is `phase` modulo
/// the period.
#[derive(Clone, Copy, PartialEq, Eq, Structural, Debug)]
pub enum Era {
    Immortal,
    Mortal { period: u64, phase: u64 },
}

/// Base-two logarithm, rounded down.
pub open spec fn log2(p: nat) -> nat
    decreases p,
{
    if p <= 1 {
        0
    } else {
        1 + log2(p / 2)
    }
}

/// Two to the `n`th power.
pub open spec fn pow2(n: nat) -> nat
    decreases n,
{
    if n == 0 {
        1
    } else {
        2 * pow2((n - 1) as nat)
    }
}

/// The factor mortal-era phases are quantized by.
pub open spec fn quantize_factor(period: nat) -> nat {
    if period / 4096 > 1 {
        period / 4096
    } else {
        1
    }
}

/// A well-formed era: immortal, or a power-of-two period between 4 and
/// 65536 with a phase below it.
pub open spec fn era_wf(e: Era) -> bool {
    match e {
        Era::Immortal => true,
        Era::Mortal { period, phase } => 4 <= period <= 65536 && period == pow2(
            log2(period as nat),
        ) && phase < period,
    }
}

/// The SCALE encoding of an era: one zero byte for immortal; for a mortal
/// era two little-endian bytes holding the period's logarithm minus one in
/// the low four bits and the quantized phase above them.
pub open spec fn era_bytes(e: Era) -> Seq<u8> {
    match e {
        Era::Immortal => seq![0u8],
        Era::Mortal { period, phase } => le_bytes(
            ((log2(period as nat) - 1) + 16 * ((phase as nat) / quantize_factor(
                period as nat,
            ))) as nat,
            2,
        ),
    }
}

/// Base-two logarithm, rounded down.
pub fn log2_exec(p: u64) -> (r: u64)
    ensures
        r == log2(p as nat),
        r <= 63,
    decreases p,
{
    if p <= 1 {
        0
    } else {
        let rec = log2_exec(p / 2);
        proof {
            lemma_pow2_63();
            lemma_log2_lt((p / 2) as nat, 63);
        }
        1 + rec
    }
}

proof fn lemma_pow2_63()
    ensures
        pow2(63) == 0x8000000000000000,
{
    reveal_with_fuel(pow2, 64);
    assert(pow2(63) == 0x8000000000000000);
}

/// Below `pow2(n)` the logarithm is below `n`.
proof fn lemma_log2_lt(v: nat, n: nat)
    requires
        1 <= n,
        v < pow2(n),
    ensures
        log2(v) < n,
    decreases n,
{
    if v <= 1 {
    } else {
        assert(pow2(n) == 2 * pow2((n - 1) as nat));
        assert(v / 2 < pow2((n - 1) as nat)) by (nonlinear_arith)
            requires
                v < 2 * pow2((n - 1) as nat),
        ;
        if n == 1 {
            assert(pow2(1) == 2) by {
                reveal_with_fuel(pow2, 2);
            }
            assert(false);
        } else {
            lemma_log2_lt(v / 2, (n - 1) as nat);
        }
    }
}

proof fn lemma_pow2_pos(n: nat)
    ensures
        pow2(n) >= 1,
    decreases n,
{
    if n > 0 {
        lemma_pow2_pos((n - 1) as nat);
    }
}

proof fn lemma_pow2_mono(a: nat, b: nat)
    requires
        a <= b,
    ensures
        pow2(a) <= pow2(b),
    decreases b,
{
    if a < b {
        lemma_pow2_mono(a, (b - 1) as nat);
        lemma_pow2_pos((b - 1) as nat);
        assert(pow2(b) == 2 * pow2((b - 1) as nat));
    }
}

proof fn lemma_pow2_add(a: nat, b: nat)
    ensures
        pow2(a + b) == pow2(a) * pow2(b),
    decreases b,
{
    if b == 0 {
        assert(pow2(a + 0) == pow2(a) * 1) by (nonlinear_arith)
            requires
                pow2(a + 0) == pow2(a),
        ;
    } else {
        lemma_pow2_add(a, (b - 1) as nat);
        assert(pow2(a + b) == 2 * pow2((a + b - 1) as nat));
        assert((a + b - 1) as nat == a + ((b - 1) as nat));
        assert(2 * (pow2(a) * pow2((b - 1) as nat)) == pow2(a) * (2 * pow2((b - 1) as nat)))
            by (nonlinear_arith);
        assert(pow2(b) == 2 * pow2((b - 1) as nat));
    }
}

proof fn lemma_log2_bounds(p: nat)
    requires
        1 <= p,
    ensures
        pow2(log2(p)) <= p,
    decreases p,
{
    if p <= 1 {
    } else {
        lemma_log2_bounds(p / 2);
        assert(pow2(log2(p)) == 2 * pow2(log2(p / 2)));
        assert(2 * pow2(log2(p / 2)) <= 2 * (p / 2)) by (nonlinear_arith)
            requires
                pow2(log2(p / 2)) <= p / 2,
        ;
    }
}

/// Encode an era as SCALE does.
pub fn encode_era(e: &Era) -> (r: Vec<u8>)
    requires
        era_wf(*e),
    ensures
        r@ == era_bytes(*e),
{
    match e {
        Era::Immortal => {
            let r: Vec<u8> = vec![0u8];
            proof {
                assert(r@ =~= era_bytes(Era::Immortal));
            }
            r
        },
        Era::Mortal { period, phase } => {
            let period = *period;
            let phase = *phase;
            let lg = log2_exec(period);
            proof {
                lemma_log2_bounds(period as nat);
                lemma_log2_range(period as nat);
            }
            let qf: u64 = if period / 4096 > 1 {
                period / 4096
            } else {
                1
            };
            let quantized = phase / qf;
            proof {
                lemma_quantized_bound(period as nat, phase as nat);
            }
            let encoded: u64 = (lg - 1) + 16 * quantized;
            le_bytes_exec(encoded as u128, 2)
        },
    }
}

/// On a power of two between 4 and 65536 the logarithm lies between 2
/// and 16.
proof fn lemma_log2_range(period: nat)
    requires
        4 <= period <= 65536,
        period == pow2(log2(period)),
    ensures
        2 <= log2(period) <= 16,
{
    reveal_with_fuel(log2, 4);
    assert(log2(4) == 2) by {
        reveal_with_fuel(log2, 4);
    }
    lemma_log2_mono(4, period);
    lemma_log2_mono(period, 65536);
    assert(log2(65536) == 16) by {
        reveal_with_fuel(log2, 18);
    }
}

proof fn lemma_log2_mono(a: nat, b: nat)
    requires
        a <= b,
    ensures
        log2(a) <= log2(b),
    decreases b,
{
    if a <= 1 || b <= 1 {
    } else {
        lemma_log2_mono(a / 2, b / 2);
    }
}

/// The quantized phase of a well-formed mortal era is below 4096, so the
/// two-byte form can hold it.
proof fn lemma_quantized_bound(period: nat, phase: nat)
    requires
        4 <= period <= 65536,
        period == pow2(log2(period)),
        phase < period,
    ensures
        phase / quantize_factor(period) < 4096,
{
    let k = log2(period);
    assert(pow2(12) == 4096) by {
        reveal_with_fuel(pow2, 13);
    }
    if period / 4096 > 1 {
        assert(period >= 4097);
        assert(k >= 13) by {
            if k <= 12 {
                lemma_pow2_mono(k, 12);
            }
        }
        lemma_pow2_add(12, (k - 12) as nat);
        let m = pow2((k - 12) as nat);
        assert(period == 4096 * m);
        lemma_pow2_pos((k - 12) as nat);
        assert(period / 4096 == m) by (nonlinear_arith)
            requires
                period == 4096 * m,
        ;
        assert(quantize_factor(period) == m);
        assert(phase / m < 4096) by (nonlinear_arith)
            requires
                phase < 4096 * m,
                m >= 1,
        ;
    } else {
        assert(period <= 4096) by {
            if period > 4096 {
                assert(k >= 13) by {
                    if k <= 12 {
                        lemma_pow2_mono(k, 12);
                    }
                }
                assert(pow2(13) == 8192) by {
                    reveal_with_fuel(pow2, 14);
                }
                lemma_pow2_mono(13, k);
                assert(period >= 8192);
                assert(period / 4096 >= 2);
            }
        }
        assert(quantize_factor(period) == 1);
        assert(phase / 1 == phase);
    }
}

/// One slot of the transaction extension chain. Each kind contributes extra
/// bytes (transmitted with the extrinsic) and additional bytes (signed but
/// never transmitted).
#[derive(Clone, Copy, PartialEq, Eq, Structural, Debug)]
pub enum ExtensionKind {
    PassAuthenticate,
    CheckSpecVersion,
    CheckTxVersion,
    CheckNonce,
    CheckGenesis,
    CheckMortality,
    ChargeAssetTxPayment,
    ChargeTransactionPayment,
    CheckMetadataHash,
}

/// Everything the implemented extensions read: versions, nonce, tip and
/// asset, mortality, and the two hash checkpoints.
pub struct ChainParams {
    pub spec_version: u32,
    pub tx_version: u32,
    pub nonce: u64,
    pub tip: u128,
    pub asset_id: Option<u32>,
    pub era: Era,
    pub genesis_hash: [u8; 32],
    pub checkpoint_hash: [u8; 32],
}

/// Well-formed parameters: the era is well formed.
pub open spec fn params_wf(p: ChainParams) -> bool {
    era_wf(p.era)
}

/// The extra (transmitted) bytes one extension contributes. The
/// pass-through slot contributes the one constant byte of an absent
/// optional value, whatever its metadata-declared payload type; version and
/// hash checks contribute nothing here.
pub open spec fn extra_bytes(k: ExtensionKind, p: ChainParams) -> Seq<u8> {
    match k {
        ExtensionKind::PassAuthenticate => option_u32_bytes(None),
        ExtensionKind::CheckSpecVersion => Seq::empty(),
        ExtensionKind::CheckTxVersion => Seq::empty(),
        ExtensionKind::CheckNonce => compact_bytes(p.nonce as nat),
        ExtensionKind::CheckGenesis => Seq::empty(),
        ExtensionKind::CheckMortality => era_bytes(p.era),
        ExtensionKind::ChargeAssetTxPayment => compact_bytes(p.tip as nat) + option_u32_bytes(
            p.asset_id,
        ),
        ExtensionKind::ChargeTransactionPayment => compact_bytes(p.tip as nat),
        ExtensionKind::CheckMetadataHash => seq![0u8],
    }
}

/// The additional (signed-only) bytes one extension contributes. The
/// pass-through slot contributes none, whatever its declared payload type.
pub open spec fn additional_bytes(k: ExtensionKind, p: ChainParams) -> Seq<u8> {
    match k {
        ExtensionKind::PassAuthenticate => Seq::empty(),
        ExtensionKind::CheckSpecVersion => le_bytes(p.spec_version as nat, 4),
        ExtensionKind::CheckTxVersion => le_bytes(p.tx_version as nat, 4),
        ExtensionKind::CheckNonce => Seq::empty(),
        ExtensionKind::CheckGenesis => p.genesis_hash@,
        ExtensionKind::CheckMortality => p.checkpoint_hash@,
        ExtensionKind::ChargeAssetTxPayment => Seq::empty(),
        ExtensionKind::ChargeTransactionPayment => Seq::empty(),
        ExtensionKind::CheckMetadataHash => seq![0u8],
    }
}

/// Append a fixed 32-byte hash to a vector.
fn push_hash(out: &mut Vec<u8>, h: &[u8; 32])
    ensures
        final(out)@ == old(out)@ + h@,
{
    let ghost pre = out@;
    let mut i: usize = 0;
    while i < 32
        invariant
            i <= 32,
            h@.len() == 32,
            out@ == pre + h@.take(i as int),
        decreases 32 - i,
    {
        proof {
            assert(h@.take(i as int).push(h@[i as int]) =~= h@.take(i + 1));
        }
        out.push(h[i]);
        i = i + 1;
    }
    proof {
        assert(h@.take(32) =~= h@);
    }
}

/// The extra bytes one extension contributes, as transmitted.
pub fn encode_extra(k: &ExtensionKind, p: &ChainParams) -> (r: Vec<u8>)
    requires
        params_wf(*p),
    ensures
        r@ == extra_bytes(*k, *p),
{
    match k {
        ExtensionKind::PassAuthenticate => encode_option_u32(&None),
        ExtensionKind::CheckSpecVersion => Vec::new(),
        ExtensionKind::CheckTxVersion => Vec::new(),
        ExtensionKind::CheckNonce => encode_compact_u64(p.nonce),
        ExtensionKind::CheckGenesis => Vec::new(),
        ExtensionKind::CheckMortality => encode_era(&p.era),
        ExtensionKind::ChargeAssetTxPayment => {
            let mut r = encode_compact_u128(p.tip);
            let mut tail = encode_option_u32(&p.asset_id);
            r.append(&mut tail);
            r
        },
        ExtensionKind::ChargeTransactionPayment => encode_compact_u128(p.tip),
        ExtensionKind::CheckMetadataHash => {
            let r: Vec<u8> = vec![0u8];
            proof {
                assert(r@ =~= seq![0u8]);
            }
            r
        },
    }
}

/// The additional bytes one extension contributes to the signed payload.
pub fn encode_additional(k: &ExtensionKind, p: &ChainParams) -> (r: Vec<u8>)
    ensures
        r@ == additional_bytes(*k, *p),
{
    match k {
        ExtensionKind::PassAuthenticate => Vec::new(),
        ExtensionKind::CheckSpecVersion => encode_u32_le(p.spec_version),
        ExtensionKind::CheckTxVersion => encode_u32_le(p.tx_version),
        ExtensionKind::CheckNonce => Vec::new(),
        ExtensionKind::CheckGenesis => {
            let mut r: Vec<u8> = Vec::new();
            push_hash(&mut r, &p.genesis_hash);
            proof {
                assert(r@ =~= p.genesis_hash@);
            }
            r
        },
        ExtensionKind::CheckMortality => {
            let mut r: Vec<u8> = Vec::new();
            push_hash(&mut r, &p.checkpoint_hash);
            proof {
                assert(r@ =~= p.checkpoint_hash@);
            }
            r
        },
        ExtensionKind::ChargeAssetTxPayment => Vec::new(),
        ExtensionKind::ChargeTransactionPayment => Vec::new(),
        ExtensionKind::CheckMetadataHash => {
            let r: Vec<u8> = vec![0u8];
            proof {
                assert(r@ =~= seq![0u8]);
            }
            r
        },
    }
}

/// The extension kind an identifier names, if any.
pub open spec fn spec_match_extension(id: Seq<char>) -> Option<ExtensionKind> {
    if id == "PassAuthenticate"@ {
        Some(ExtensionKind::PassAuthenticate)
    } else if id == "CheckSpecVersion"@ {
        Some(ExtensionKind::CheckSpecVersion)
    } else if id == "CheckTxVersion"@ {
        Some(ExtensionKind::CheckTxVersion)
    } else if id == "CheckNonce"@ {
        Some(ExtensionKind::CheckNonce)
    } else if id == "CheckGenesis"@ {
        Some(ExtensionKind::CheckGenesis)
    } else if id == "CheckMortality"@ {
        Some(ExtensionKind::CheckMortality)
    } else if id == "ChargeAssetTxPayment"@ {
        Some(ExtensionKind::ChargeAssetTxPayment)
    } else if id == "ChargeTransactionPayment"@ {
        Some(ExtensionKind::ChargeTransactionPayment)
    } else if id == "CheckMetadataHash"@ {
        Some(ExtensionKind::CheckMetadataHash)
    } else {
        None
    }
}

/// Resolve one declared identifier to the slot that implements it.
pub fn match_extension(identifier: &str) -> (r: Option<ExtensionKind>)
    ensures
        r == spec_match_extension(identifier@),
{
    proof {
        reveal_strlit("PassAuthenticate");
        reveal_strlit("CheckSpecVersion");
        reveal_strlit("CheckTxVersion");
        reveal_strlit("CheckNonce");
        reveal_strlit("CheckGenesis");
        reveal_strlit("CheckMortality");
        reveal_strlit("ChargeAssetTxPayment");
        reveal_strlit("ChargeTransactionPayment");
        reveal_strlit("CheckMetadataHash");
    }
    if str_eq_ascii(identifier, "PassAuthenticate") {
        Some(ExtensionKind::PassAuthenticate)
    } else if str_eq_ascii(identifier, "CheckSpecVersion") {
        Some(ExtensionKind::CheckSpecVersion)
    } else if str_eq_ascii(identifier, "CheckTxVersion") {
        Some(ExtensionKind::CheckTxVersion)
    } else if str_eq_ascii(identifier, "CheckNonce") {
        Some(ExtensionKind::CheckNonce)
    } else if str_eq_ascii(identifier, "CheckGenesis") {
        Some(ExtensionKind::CheckGenesis)
    } else if str_eq_ascii(identifier, "CheckMortality") {
        Some(ExtensionKind::CheckMortality)
    } else if str_eq_ascii(identifier, "ChargeAssetTxPayment") {
        Some(ExtensionKind::ChargeAssetTxPayment)
    } else if str_eq_ascii(identifier, "ChargeTransactionPayment") {
        Some(ExtensionKind::ChargeTransactionPayment)
    } else if str_eq_ascii(identifier, "CheckMetadataHash") {
        Some(ExtensionKind::CheckMetadataHash)
    } else {
        None
    }
}

/// Resolve the runtime's declared extension identifiers, in their declared
/// order, to the slots that implement them. Fails with
/// `UnmatchedExtension` at the first identifier no slot matches: omitting
/// an extension would change the signed payload's meaning.
pub fn build_chain(names: &Vec<String>) -> (r: Result<Vec<ExtensionKind>, TxError>)
    ensures
        match r {
            Ok(kinds) => kinds@.len() == names@.len() && forall|i: int|
                0 <= i < names@.len() ==> Some(#[trigger] kinds@[i]) == spec_match_extension(
                    names@[i]@,
                ),
            Err(e) => exists|k: int|
                0 <= k < names@.len() && spec_match_extension(#[trigger] names@[k]@) is None && e
                    == (TxError::UnmatchedExtension { index: k as usize }),
        },
{
    let mut kinds: Vec<ExtensionKind> = Vec::new();
    let mut i: usize = 0;
    while i < names.len()
        invariant
            i <= names@.len(),
            kinds@.len() == i,
            forall|k: int|
                0 <= k < i ==> Some(#[trigger] kinds@[k]) == spec_match_extension(names@[k]@),
        decreases names@.len() - i,
    {
        match match_extension(names[i].as_str()) {
            Some(kind) => {
                kinds.push(kind);
            },
            None => {
                return Err(TxError::UnmatchedExtension { index: i });
            },
        }
        i = i + 1;
    }
    Ok(kinds)
}

/// The concatenated extra bytes of the chain `kinds[i..]`, in order.
pub open spec fn chain_extra_from(kinds: Seq<ExtensionKind>, i: int, p: ChainParams) -> Seq<u8>
    decreases kinds.len() - i,
{
    if !(0 <= i < kinds.len()) {
        Seq::empty()
    } else {
        extra_bytes(kinds[i], p) + chain_extra_from(kinds, i + 1, p)
    }
}

/// The concatenated extra bytes of the whole chain, in declared order.
pub open spec fn chain_extra(kinds: Seq<ExtensionKind>, p: ChainParams) -> Seq<u8> {
    chain_extra_from(kinds, 0, p)
}

/// The concatenated additional bytes of the chain `kinds[i..]`, in order.
pub open spec fn chain_additional_from(kinds: Seq<ExtensionKind>, i: int, p: ChainParams) -> Seq<
    u8,
>
    decreases kinds.len() - i,
{
    if !(0 <= i < kinds.len()) {
        Seq::empty()
    } else {
        additional_bytes(kinds[i], p) + chain_additional_from(kinds, i + 1, p)
    }
}

/// The concatenated additional bytes of the whole chain, in declared order.
pub open spec fn chain_additional(kinds: Seq<ExtensionKind>, p: ChainParams) -> Seq<u8> {
    chain_additional_from(kinds, 0, p)
}

fn encode_extra_chain_from(kinds: &Vec<ExtensionKind>, i: usize, p: &ChainParams) -> (r: Vec<u8>)
    requires
        params_wf(*p),
        i <= kinds@.len(),
    ensures
        r@ == chain_extra_from(kinds@, i as int, *p),
    decreases kinds@.len() - i,
{
    if i == kinds.len() {
        Vec::new()
    } else {
        let mut r = encode_extra(&kinds[i], p);
        let mut tail = encode_extra_chain_from(kinds, i + 1, p);
        r.append(&mut tail);
        r
    }
}

/// The extra bytes of the whole chain, transmitted with the extrinsic,
/// in the chain's declared order.
pub fn encode_extra_chain(kinds: &Vec<ExtensionKind>, p: &ChainParams) -> (r: Vec<u8>)
    requires
        params_wf(*p),
    ensures
        r@ == chain_extra(kinds@, *p),
{
    encode_extra_chain_from(kinds, 0, p)
}

fn encode_additional_chain_from(kinds: &Vec<ExtensionKind>, i: usize, p: &ChainParams) -> (r: Vec<
    u8,
>)
    requires
        i <= kinds@.len(),
    ensures
        r@ == chain_additional_from(kinds@, i as int, *p),
    decreases kinds@.len() - i,
{
    if i == kinds.len() {
        Vec::new()
    } else {
        let mut r = encode_additional(&kinds[i], p);
        let mut tail = encode_additional_chain_from(kinds, i + 1, p);
        r.append(&mut tail);
        r
    }
}

/// The additional bytes of the whole chain, covered by the signature but
/// never transmitted, in the chain's declared order.
pub fn encode_additional_chain(kinds: &Vec<ExtensionKind>, p: &ChainParams) -> (r: Vec<u8>)
    ensures
        r@ == chain_additional(kinds@, *p),
{
    encode_additional_chain_from(kinds, 0, p)
}

/// The pass-through extension: it is matched purely by its textual
/// identifier, ignores its metadata-declared payload type, and carries a
/// constant absent optional value.
pub struct PassAuthenticate {
    value: Option<u32>,
}

impl PassAuthenticate {
    /// The carried value; always absent.
    pub closed spec fn spec_value(&self) -> Option<u32> {
        self.value
    }

    /// The pass-through extension carries no value.
    pub fn new() -> (r: PassAuthenticate)
        ensures
            r.spec_value() is None,
    {
        PassAuthenticate { value: None }
    }

    /// Whether this slot implements the declared extension: true exactly for
    /// the identifier `PassAuthenticate`, whatever the declared payload type.
    pub fn matches(identifier: &str, _type_id: u32, _types: &Registry) -> (r: bool)
        ensures
            r == (identifier@ == "PassAuthenticate"@),
    {
        proof {
            reveal_strlit("PassAuthenticate");
        }
        str_eq_ascii(identifier, "PassAuthenticate")
    }

    /// Append this extension's transmitted value: the encoding of its
    /// (absent) optional payload.
    pub fn encode_value_to(&self, v: &mut Vec<u8>)
        ensures
            final(v)@ == old(v)@ + option_u32_bytes(self.spec_value()),
    {
        let mut tail = encode_option_u32(&self.value);
        v.append(&mut tail);
    }
}

/// The fixed chain configuration: which extension slots this system
/// implements, in the order they are offered to the runtime's declared
/// list.
pub struct KreivoConfig;

/// The slots `KreivoConfig` implements, in offer order.
pub open spec fn kreivo_extensions() -> Seq<ExtensionKind> {
    seq![
        ExtensionKind::PassAuthenticate,
        ExtensionKind::CheckSpecVersion,
        ExtensionKind::CheckTxVersion,
        ExtensionKind::CheckNonce,
        ExtensionKind::CheckGenesis,
        ExtensionKind::CheckMortality,
        ExtensionKind::ChargeAssetTxPayment,
        ExtensionKind::ChargeTransactionPayment,
        ExtensionKind::CheckMetadataHash,
    ]
}

impl KreivoConfig {
    /// The implemented extension slots, in offer order.
    pub fn extensions() -> (r: Vec<ExtensionKind>)
        ensures
            r@ == kreivo_extensions(),
    {
        let r: Vec<ExtensionKind> = vec![
            ExtensionKind::PassAuthenticate,
            ExtensionKind::CheckSpecVersion,
            ExtensionKind::CheckTxVersion,
            ExtensionKind::CheckNonce,
            ExtensionKind::CheckGenesis,
            ExtensionKind::CheckMortality,
            ExtensionKind::ChargeAssetTxPayment,
            ExtensionKind::ChargeTransactionPayment,
            ExtensionKind::CheckMetadataHash,
        ];
        proof {
            assert(r@ =~= kreivo_extensions());
        }
        r
    }
}

/// The pass-through slot contributes no additional-signed bytes and a
/// constant one-byte extra value, whatever the parameters are.
pub proof fn lemma_pass_through_contribution(p: ChainParams)
    ensures
        additional_bytes(ExtensionKind::PassAuthenticate, p) == Seq::<u8>::empty(),
        extra_bytes(ExtensionKind::PassAuthenticate, p) == seq![0u8],
{
    assert(extra_bytes(ExtensionKind::PassAuthenticate, p) =~= seq![0u8]);
}

/// The chain's encoded output is a function of the slots and parameters
/// alone: two evaluations over equal inputs agree byte for byte, for the
/// extra and the additional data both.
pub proof fn lemma_chain_deterministic(
    kinds: Seq<ExtensionKind>,
    p: ChainParams,
    extra1: Seq<u8>,
    extra2: Seq<u8>,
    additional1: Seq<u8>,
    additional2: Seq<u8>,
)
    requires
        extra1 == chain_extra(kinds, p),
        extra2 == chain_extra(kinds, p),
        additional1 == chain_additional(kinds, p),
        additional2 == chain_additional(kinds, p),
    ensures
        extra1 == extra2,
        additional1 == additional2,
{
}

} // verus!
