use kreivo_signer::hexutil::decode_hex;
use kreivo_signer::scale::{
    decode_compact, encode_compact_u128, encode_compact_u64, encode_option_u32, encode_u32_le,
    read_le,
};
use kreivo_signer::errors::TxError;

#[test]
fn hex_decodes_prefixed_and_bare() {
    assert_eq!(decode_hex(b"0x2a0c").unwrap(), vec![0x2a, 0x0c]);
    assert_eq!(decode_hex(b"2A0C").unwrap(), vec![0x2a, 0x0c]);
    assert_eq!(decode_hex(b"").unwrap(), Vec::<u8>::new());
    assert_eq!(decode_hex(b"0x").unwrap(), Vec::<u8>::new());
}

#[test]
fn hex_rejects_odd_length() {
    assert_eq!(decode_hex(b"0x2a0").unwrap_err(), TxError::InvalidHex);
}

#[test]
fn hex_rejects_bad_digit() {
    assert_eq!(decode_hex(b"0x2g").unwrap_err(), TxError::InvalidHex);
}

#[test]
fn u32_little_endian() {
    assert_eq!(encode_u32_le(0x12345678), vec![0x78, 0x56, 0x34, 0x12]);
    assert_eq!(encode_u32_le(0), vec![0, 0, 0, 0]);
}

#[test]
fn compact_single_byte_mode() {
    assert_eq!(encode_compact_u64(0), vec![0x00]);
    assert_eq!(encode_compact_u64(1), vec![0x04]);
    assert_eq!(encode_compact_u64(42), vec![0xa8]);
    assert_eq!(encode_compact_u64(63), vec![0xfc]);
}

#[test]
fn compact_two_byte_mode() {
    assert_eq!(encode_compact_u64(64), vec![0x01, 0x01]);
    assert_eq!(encode_compact_u64(16383), vec![0xfd, 0xff]);
}

#[test]
fn compact_four_byte_mode() {
    assert_eq!(encode_compact_u64(16384), vec![0x02, 0x00, 0x01, 0x00]);
    assert_eq!(encode_compact_u64(1073741823), vec![0xfe, 0xff, 0xff, 0xff]);
}

#[test]
fn compact_big_mode() {
    assert_eq!(encode_compact_u64(1073741824), vec![0x03, 0x00, 0x00, 0x00, 0x40]);
    assert_eq!(
        encode_compact_u64(u64::MAX),
        vec![0x13, 0xff, 0xff, 0xff, 0xff, 0xff, 0xff, 0xff, 0xff]
    );
    let mut expected = vec![0x33];
    expected.extend_from_slice(&[0xff; 16]);
    assert_eq!(encode_compact_u128(u128::MAX), expected);
}

#[test]
fn compact_round_trips() {
    for v in [0u64, 1, 42, 63, 64, 16383, 16384, 1073741823, 1073741824, u64::MAX] {
        let enc = encode_compact_u64(v);
        let (decoded, end) = decode_compact(&enc, 0).expect("decodes");
        assert_eq!(decoded, v as u128);
        assert_eq!(end, enc.len());
    }
}

#[test]
fn read_le_reads_low_bytes_first() {
    let bytes = [0x01u8, 0x02, 0x03, 0x04];
    assert_eq!(read_le(&bytes, 0, 4), 0x04030201);
    assert_eq!(read_le(&bytes, 1, 2), 0x0302);
}

#[test]
fn option_u32_encoding() {
    assert_eq!(encode_option_u32(&None), vec![0x00]);
    assert_eq!(encode_option_u32(&Some(7)), vec![0x01, 7, 0, 0, 0]);
}
