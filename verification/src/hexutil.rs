use vstd::prelude::*;
use crate::errors::TxError;

verus! {

/// ASCII code of a hexadecimal digit (`0-9`, `a-f`, `A-F`).
pub open spec fn is_hex_digit(b: u8) -> bool {
    (48 <= b && b <= 57) || (97 <= b && b <= 102) || (65 <= b && b <= 70)
}

/// Numeric value of a hexadecimal digit byte.
pub open spec fn hex_val(b: u8) -> u8
    recommends
        is_hex_digit(b),
{
    if 48 <= b && b <= 57 {
        (b - 48) as u8
    } else if 65 <= b && b <= 70 {
        (b - 55) as u8
    } else {
        (b - 87) as u8
    }
}

/// The input without a leading `0x`, if it has one.
pub open spec fn strip_hex_prefix(s: Seq<u8>) -> Seq<u8> {
    if s.len() >= 2 && s[0] == 48 && s[1] == 120 {
        s.skip(2)
    } else {
        s
    }
}

/// A well-formed hex payload: even length, hex digits throughout.
pub open spec fn valid_hex(s: Seq<u8>) -> bool {
    s.len() % 2 == 0 && (forall|i: int| 0 <= i < s.len() ==> is_hex_digit(#[trigger] s[i]))
}

/// The bytes a hex payload denotes, two digits per byte, high digit first.
pub open spec fn hex_decode(s: Seq<u8>) -> Seq<u8>
    decreases s.len(),
{
    if s.len() < 2 {
        Seq::empty()
    } else {
        seq![(hex_val(s[0]) * 16 + hex_val(s[1])) as u8] + hex_decode(s.skip(2))
    }
}

proof fn lemma_hex_decode_step(s: Seq<u8>, j: int)
    requires
        0 <= j,
        j % 2 == 0,
        j + 2 <= s.len(),
    ensures
        hex_decode(s.take(j + 2)) == hex_decode(s.take(j)) + seq![
            (hex_val(s[j]) * 16 + hex_val(s[j + 1])) as u8,
        ],
    decreases j,
{
    if j == 0 {
        let t = s.take(2);
        assert(t.skip(2) =~= Seq::<u8>::empty());
        assert(hex_decode(Seq::<u8>::empty()) == Seq::<u8>::empty());
        assert(t[0] == s[0] && t[1] == s[1]);
        assert(hex_decode(t) == seq![(hex_val(t[0]) * 16 + hex_val(t[1])) as u8] + hex_decode(
            t.skip(2),
        ));
        assert(hex_decode(s.take(0)) == Seq::<u8>::empty());
        assert(hex_decode(s.take(0)) + seq![(hex_val(s[0]) * 16 + hex_val(s[1])) as u8]
            =~= hex_decode(s.take(2)));
    } else {
        lemma_hex_decode_step(s.skip(2), j - 2);
        assert(s.take(j + 2).skip(2) =~= s.skip(2).take(j));
        assert(s.take(j).skip(2) =~= s.skip(2).take(j - 2));
        assert(s.take(j + 2)[0] == s[0] && s.take(j + 2)[1] == s[1]);
        assert(s.take(j)[0] == s[0] && s.take(j)[1] == s[1]);
        assert(hex_decode(s.take(j + 2)) == seq![(hex_val(s[0]) * 16 + hex_val(s[1])) as u8]
            + hex_decode(s.skip(2).take(j)));
        assert(hex_decode(s.take(j)) == seq![(hex_val(s[0]) * 16 + hex_val(s[1])) as u8]
            + hex_decode(s.skip(2).take(j - 2)));
        assert(s.skip(2)[j - 2] == s[j]);
        assert(s.skip(2)[j - 1] == s[j + 1]);
        assert(hex_decode(s.take(j + 2)) =~= hex_decode(s.take(j)) + seq![
            (hex_val(s[j]) * 16 + hex_val(s[j + 1])) as u8,
        ]);
    }
}

/// Decode an optionally `0x`-prefixed hex byte string.
///
/// Succeeds exactly when, after removing a leading `0x`, the input has even
/// length and holds hex digits only; the result is the denoted bytes.
pub fn decode_hex(s: &[u8]) -> (r: Result<Vec<u8>, TxError>)
    ensures
        match r {
            Ok(v) => valid_hex(strip_hex_prefix(s@)) && v@ == hex_decode(strip_hex_prefix(s@)),
            Err(e) => !valid_hex(strip_hex_prefix(s@)) && e == TxError::InvalidHex,
        },
{
    let start: usize = if s.len() >= 2 && s[0] == 48 && s[1] == 120 {
        2
    } else {
        0
    };
    let ghost t = strip_hex_prefix(s@);
    proof {
        assert(t =~= s@.skip(start as int));
    }
    let n = s.len() - start;
    if n % 2 != 0 {
        return Err(TxError::InvalidHex);
    }
    let mut v: Vec<u8> = Vec::new();
    let mut j: usize = 0;
    proof {
        assert(t.take(0) =~= Seq::<u8>::empty());
    }
    while j < n && j + 1 < n
        invariant
            start + n == s@.len(),
            s@.len() <= usize::MAX,
            n == t.len(),
            t == s@.skip(start as int),
            t == strip_hex_prefix(s@),
            j % 2 == 0,
            j <= n,
            n % 2 == 0,
            v@ == hex_decode(t.take(j as int)),
            forall|i: int| 0 <= i < j ==> is_hex_digit(#[trigger] t[i]),
        decreases n - j,
    {
        let b0 = s[start + j];
        let b1 = s[start + j + 1];
        proof {
            assert(t[j as int] == s@[start + j]);
            assert(t[j + 1] == s@[start + j + 1]);
        }
        let d0 = hex_digit_value(b0);
        let d1 = hex_digit_value(b1);
        match (d0, d1) {
            (Some(h0), Some(h1)) => {
                proof {
                    lemma_hex_decode_step(t, j as int);
                }
                v.push(h0 * 16 + h1);
                j = j + 2;
            },
            _ => {
                proof {
                    if !is_hex_digit(t[j as int]) {
                        assert(!valid_hex(t));
                    } else {
                        assert(!is_hex_digit(t[j + 1]));
                        assert(!valid_hex(t));
                    }
                }
                return Err(TxError::InvalidHex);
            },
        }
    }
    proof {
        assert(j == n);
        assert(t.take(j as int) =~= t);
    }
    Ok(v)
}

/// The numeric value of one hex-digit byte, or `None` for any other byte.
pub fn hex_digit_value(b: u8) -> (r: Option<u8>)
    ensures
        match r {
            Some(v) => is_hex_digit(b) && v == hex_val(b),
            None => !is_hex_digit(b),
        },
{
    if 48 <= b && b <= 57 {
        Some(b - 48)
    } else if 65 <= b && b <= 70 {
        Some(b - 55)
    } else if 97 <= b && b <= 102 {
        Some(b - 87)
    } else {
        None
    }
}

} // verus!
