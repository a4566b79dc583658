use vstd::prelude::*;

verus! {

/// Little-endian byte decomposition of `v`, exactly `n` bytes long.
pub open spec fn le_bytes(v: nat, n: nat) -> Seq<u8>
    decreases n,
{
    if n == 0 {
        Seq::empty()
    } else {
        seq![(v % 256) as u8] + le_bytes(v / 256, (n - 1) as nat)
    }
}

/// The value little-endian bytes denote.
pub open spec fn le_val(s: Seq<u8>) -> nat
    decreases s.len(),
{
    if s.len() == 0 {
        0
    } else {
        (s[0] + 256 * le_val(s.skip(1))) as nat
    }
}

/// Fewest bytes that can hold `v` (at least one).
pub open spec fn min_bytes(v: nat) -> nat
    decreases v,
{
    if v < 256 {
        1
    } else {
        1 + min_bytes(v / 256)
    }
}

/// 256 to the `n`th power.
pub open spec fn pow256(n: nat) -> nat
    decreases n,
{
    if n == 0 {
        1
    } else {
        256 * pow256((n - 1) as nat)
    }
}

/// The SCALE compact encoding of an unsigned integer: a two-bit mode in the
/// first byte selects a one-, two- or four-byte form holding `4 * v + mode`
/// little-endian, or a big form of a header byte followed by `v`'s minimal
/// little-endian bytes.
pub open spec fn compact_bytes(v: nat) -> Seq<u8> {
    if v < 64 {
        seq![(v * 4) as u8]
    } else if v < 16384 {
        le_bytes(v * 4 + 1, 2)
    } else if v < 1073741824 {
        le_bytes(v * 4 + 2, 4)
    } else {
        seq![((min_bytes(v) - 4) * 4 + 3) as u8] + le_bytes(v, min_bytes(v))
    }
}

/// Little-endian bytes of `v`, `n` bytes long.
pub fn le_bytes_exec(v: u128, n: usize) -> (r: Vec<u8>)
    ensures
        r@ == le_bytes(v as nat, n as nat),
    decreases n,
{
    if n == 0 {
        let r: Vec<u8> = Vec::new();
        proof {
            assert(r@ =~= le_bytes(v as nat, 0));
        }
        r
    } else {
        let mut r: Vec<u8> = vec![(v % 256) as u8];
        let mut rest = le_bytes_exec(v / 256, n - 1);
        r.append(&mut rest);
        proof {
            assert(r@ =~= le_bytes(v as nat, n as nat));
        }
        r
    }
}

/// Encode a `u32` as four little-endian bytes.
pub fn encode_u32_le(v: u32) -> (r: Vec<u8>)
    ensures
        r@ == le_bytes(v as nat, 4),
{
    le_bytes_exec(v as u128, 4)
}

/// Fewest bytes that can hold `v`.
pub fn byte_len(v: u128) -> (n: usize)
    ensures
        n == min_bytes(v as nat),
        1 <= n <= 16,
    decreases v,
{
    if v < 256 {
        1
    } else {
        proof {
            lemma_pow256_16();
            lemma_min_bytes_u128(v as nat);
        }
        1 + byte_len(v / 256)
    }
}

/// `min_bytes` never exceeds 16 on a 128-bit value.
proof fn lemma_min_bytes_u128(v: nat)
    requires
        v < pow256(16),
    ensures
        min_bytes(v) <= 16,
{
    lemma_min_bytes_bound(v, 16);
}

proof fn lemma_min_bytes_bound(v: nat, n: nat)
    requires
        1 <= n,
        v < pow256(n),
    ensures
        min_bytes(v) <= n,
    decreases n,
{
    if v < 256 {
    } else {
        assert(pow256(n) == 256 * pow256((n - 1) as nat));
        assert(pow256((n - 1) as nat) >= 1) by {
            lemma_pow256_pos((n - 1) as nat);
        }
        assert(v / 256 < pow256((n - 1) as nat)) by (nonlinear_arith)
            requires
                v < 256 * pow256((n - 1) as nat),
                pow256((n - 1) as nat) >= 1,
        ;
        lemma_min_bytes_bound(v / 256, (n - 1) as nat);
    }
}

proof fn lemma_pow256_pos(n: nat)
    ensures
        pow256(n) >= 1,
    decreases n,
{
    if n > 0 {
        lemma_pow256_pos((n - 1) as nat);
    }
}

/// `min_bytes` is at least 4 on any value of the compact big form.
proof fn lemma_min_bytes_ge_4(v: nat)
    requires
        v >= 1073741824,
    ensures
        min_bytes(v) >= 4,
{
    assert(v / 256 >= 4194304);
    assert(v / 256 / 256 >= 16384) by (nonlinear_arith)
        requires
            v / 256 >= 4194304,
    ;
    assert(v / 256 / 256 / 256 >= 64) by (nonlinear_arith)
        requires
            v / 256 / 256 >= 16384,
    ;
    assert(min_bytes(v) == 1 + min_bytes(v / 256));
    assert(min_bytes(v / 256) == 1 + min_bytes(v / 256 / 256));
    assert(min_bytes(v / 256 / 256) == 1 + min_bytes(v / 256 / 256 / 256));
    assert(min_bytes(v / 256 / 256 / 256) >= 1);
}

/// SCALE compact encoding of a `u128`.
pub fn encode_compact_u128(v: u128) -> (r: Vec<u8>)
    ensures
        r@ == compact_bytes(v as nat),
{
    if v < 64 {
        let r: Vec<u8> = vec![(v as u8) * 4];
        proof {
            assert(r@ =~= compact_bytes(v as nat));
        }
        r
    } else if v < 16384 {
        le_bytes_exec(v * 4 + 1, 2)
    } else if v < 1073741824 {
        le_bytes_exec(v * 4 + 2, 4)
    } else {
        let n = byte_len(v);
        proof {
            lemma_min_bytes_ge_4(v as nat);
            lemma_pow256_16();
            lemma_min_bytes_u128(v as nat);
        }
        let mut r: Vec<u8> = vec![((n - 4) * 4 + 3) as u8];
        let mut tail = le_bytes_exec(v, n);
        r.append(&mut tail);
        proof {
            assert(r@ =~= compact_bytes(v as nat));
        }
        r
    }
}

/// SCALE compact encoding of a `u64`.
pub fn encode_compact_u64(v: u64) -> (r: Vec<u8>)
    ensures
        r@ == compact_bytes(v as nat),
{
    encode_compact_u128(v as u128)
}

proof fn lemma_pow256_16()
    ensures
        pow256(16) == 0x100000000000000000000000000000000,
{
    reveal_with_fuel(pow256, 17);
    assert(pow256(16) == 0x100000000000000000000000000000000);
}

/// `le_val` of `n` bytes is below `pow256(n)`.
proof fn lemma_le_val_bound(s: Seq<u8>)
    ensures
        le_val(s) < pow256(s.len()),
    decreases s.len(),
{
    if s.len() == 0 {
    } else {
        lemma_le_val_bound(s.skip(1));
        assert(le_val(s) == s[0] + 256 * le_val(s.skip(1)));
        assert(pow256(s.len()) == 256 * pow256((s.len() - 1) as nat));
        assert(s[0] + 256 * le_val(s.skip(1)) < 256 * pow256((s.len() - 1) as nat))
            by (nonlinear_arith)
            requires
                s[0] < 256,
                le_val(s.skip(1)) < pow256((s.len() - 1) as nat),
                pow256(s.len()) == 256 * pow256((s.len() - 1) as nat),
        ;
    }
}

/// Read `n` little-endian bytes starting at `pos`.
pub fn read_le(s: &[u8], pos: usize, n: usize) -> (r: u128)
    requires
        pos + n <= s@.len(),
        n <= 16,
    ensures
        r == le_val(s@.subrange(pos as int, pos + n)),
    decreases n,
{
    let slen = s.len();
    if n == 0 {
        proof {
            assert(s@.subrange(pos as int, pos as int) =~= Seq::<u8>::empty());
        }
        0
    } else {
        let rest = read_le(s, pos + 1, n - 1);
        let ghost sub = s@.subrange(pos as int, pos + n);
        proof {
            assert(sub.skip(1) =~= s@.subrange(pos + 1, pos + 1 + (n - 1)));
            assert(sub[0] == s@[pos as int]);
            lemma_le_val_bound(sub.skip(1));
            lemma_pow256_mono((n - 1) as nat, 15);
            lemma_pow256_16();
            assert(256 * le_val(sub.skip(1)) <= 256 * (pow256(15) - 1)) by (nonlinear_arith)
                requires
                    le_val(sub.skip(1)) <= pow256(15) - 1,
            ;
            assert(256 * pow256(15) == pow256(16));
        }
        s[pos] as u128 + 256 * rest
    }
}

proof fn lemma_pow256_mono(a: nat, b: nat)
    requires
        a <= b,
    ensures
        pow256(a) <= pow256(b),
    decreases b,
{
    if a < b {
        lemma_pow256_mono(a, (b - 1) as nat);
        lemma_pow256_pos((b - 1) as nat);
        assert(pow256(b) == 256 * pow256((b - 1) as nat));
        assert(pow256((b - 1) as nat) <= 256 * pow256((b - 1) as nat)) by (nonlinear_arith)
            requires
                pow256((b - 1) as nat) >= 1,
        ;
    }
}

/// Where a SCALE compact integer starting at `pos` ends, and its value:
/// `None` when the input is exhausted or the big form needs more than
/// sixteen bytes.
pub open spec fn spec_decode_compact(s: Seq<u8>, pos: int) -> Option<(nat, int)> {
    if !(0 <= pos < s.len()) {
        None
    } else {
        let b = s[pos];
        let mode = b % 4;
        if mode == 0 {
            Some(((b / 4) as nat, pos + 1))
        } else if mode == 1 {
            if pos + 2 <= s.len() {
                Some((le_val(s.subrange(pos, pos + 2)) / 4, pos + 2))
            } else {
                None
            }
        } else if mode == 2 {
            if pos + 4 <= s.len() {
                Some((le_val(s.subrange(pos, pos + 4)) / 4, pos + 4))
            } else {
                None
            }
        } else {
            let n = b / 4 + 4;
            if n <= 16 && pos + 1 + n <= s.len() {
                Some((le_val(s.subrange(pos + 1, pos + 1 + n)), pos + 1 + n))
            } else {
                None
            }
        }
    }
}

/// Decode a SCALE compact integer at `pos`; `None` exactly when
/// `spec_decode_compact` says so.
pub fn decode_compact(s: &[u8], pos: usize) -> (r: Option<(u128, usize)>)
    ensures
        match r {
            Some((v, end)) => spec_decode_compact(s@, pos as int) == Some((v as nat, end as int))
                && pos < end <= s@.len(),
            None => spec_decode_compact(s@, pos as int) is None,
        },
{
    if pos >= s.len() {
        return None;
    }
    let b = s[pos];
    let mode = b % 4;
    if mode == 0 {
        Some(((b / 4) as u128, pos + 1))
    } else if mode == 1 {
        if s.len() - pos >= 2 {
            let v = read_le(s, pos, 2);
            Some((v / 4, pos + 2))
        } else {
            None
        }
    } else if mode == 2 {
        if s.len() - pos >= 4 {
            let v = read_le(s, pos, 4);
            Some((v / 4, pos + 4))
        } else {
            None
        }
    } else {
        let n = (b / 4) as usize + 4;
        if n <= 16 && s.len() - pos >= n + 1 {
            let v = read_le(s, pos + 1, n);
            Some((v, pos + 1 + n))
        } else {
            None
        }
    }
}

/// SCALE encoding of an optional `u32`: a presence byte, then the value
/// little-endian when present.
pub open spec fn option_u32_bytes(o: Option<u32>) -> Seq<u8> {
    match o {
        None => seq![0u8],
        Some(v) => seq![1u8] + le_bytes(v as nat, 4),
    }
}

/// Encode an optional `u32` as SCALE does.
pub fn encode_option_u32(o: &Option<u32>) -> (r: Vec<u8>)
    ensures
        r@ == option_u32_bytes(*o),
{
    match o {
        None => {
            let r: Vec<u8> = vec![0u8];
            proof {
                assert(r@ =~= option_u32_bytes(None::<u32>));
            }
            r
        },
        Some(v) => {
            let mut r: Vec<u8> = vec![1u8];
            let mut tail = le_bytes_exec(*v as u128, 4);
            r.append(&mut tail);
            proof {
                assert(r@ =~= option_u32_bytes(Some(*v)));
            }
            r
        },
    }
}

} // verus!
