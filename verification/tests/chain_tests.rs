use kreivo_signer::decode::{resolve_call, Value};
use kreivo_signer::errors::TxError;
use kreivo_signer::extensions::{
    build_chain, encode_additional, encode_additional_chain, encode_era, encode_extra,
    encode_extra_chain, match_extension, ChainParams, Era, ExtensionKind, KreivoConfig,
    PassAuthenticate,
};
use kreivo_signer::keys::{key_material_from_seed_hex, try_into_keypair, PairSigner};
use kreivo_signer::payload::{assemble, build_signed_extrinsic, prepare_signed_extrinsic, sign_payload};
use kreivo_signer::registry::{Prim, Registry, TypeDef, VariantDef};

fn fixture_registry() -> Registry {
    Registry {
        types: vec![
            TypeDef::Variant {
                variants: vec![VariantDef {
                    name: "Balances".to_string(),
                    index: 5,
                    fields: vec![1],
                }],
            },
            TypeDef::Variant {
                variants: vec![VariantDef {
                    name: "transfer".to_string(),
                    index: 2,
                    fields: vec![2],
                }],
            },
            TypeDef::Primitive { prim: Prim::U32 },
        ],
    }
}

fn fixture_params() -> ChainParams {
    ChainParams {
        spec_version: 100,
        tx_version: 2,
        nonce: 5,
        tip: 0,
        asset_id: None,
        era: Era::Immortal,
        genesis_hash: [1u8; 32],
        checkpoint_hash: [1u8; 32],
    }
}

#[test]
fn known_call_decodes_to_envelope() {
    let reg = fixture_registry();
    let env = resolve_call(&reg, 0, &[5, 2, 42, 0, 0, 0]).unwrap();
    assert_eq!(env.pallet_name, "Balances");
    assert_eq!(env.call_name, "transfer");
    assert_eq!(env.fields.len(), 1);
    match &env.fields[0] {
        Value::Uint(v) => assert_eq!(*v, 42),
        _ => panic!("the field should decode to the integer 42"),
    }
}

#[test]
fn non_variant_outer_type_is_malformed() {
    let reg = Registry { types: vec![TypeDef::Primitive { prim: Prim::U32 }] };
    let err = resolve_call(&reg, 0, &[42, 0, 0, 0]).unwrap_err();
    assert_eq!(err, TxError::MalformedCallShape { type_id: 0 });
}

#[test]
fn single_level_variant_is_malformed() {
    // The outer variant's field is a plain integer, not a call variant.
    let reg = Registry {
        types: vec![
            TypeDef::Variant {
                variants: vec![VariantDef {
                    name: "Balances".to_string(),
                    index: 5,
                    fields: vec![1],
                }],
            },
            TypeDef::Primitive { prim: Prim::U32 },
        ],
    };
    let err = resolve_call(&reg, 0, &[5, 42, 0, 0, 0]).unwrap_err();
    assert_eq!(err, TxError::MalformedCallShape { type_id: 0 });
}

#[test]
fn unknown_variant_index_is_a_decode_error() {
    let reg = fixture_registry();
    match resolve_call(&reg, 0, &[9, 2, 42, 0, 0, 0]).unwrap_err() {
        TxError::DecodeError { .. } => {},
        other => panic!("expected a decode error, got {:?}", other),
    }
}

#[test]
fn truncated_call_bytes_are_a_decode_error() {
    let reg = fixture_registry();
    match resolve_call(&reg, 0, &[5, 2, 42]).unwrap_err() {
        TxError::DecodeError { .. } => {},
        other => panic!("expected a decode error, got {:?}", other),
    }
}

#[test]
fn era_encodings() {
    assert_eq!(encode_era(&Era::Immortal), vec![0x00]);
    // period 64, phase 5: low nibble 5, quantized phase 5.
    assert_eq!(encode_era(&Era::Mortal { period: 64, phase: 5 }), vec![0x55, 0x00]);
    // period 32768, phase 20000: low 14, quantized 2500 -> 14 + 16 * 2500.
    assert_eq!(encode_era(&Era::Mortal { period: 32768, phase: 20000 }), vec![0x4e, 0x9c]);
}

#[test]
fn identifiers_resolve_to_slots() {
    assert_eq!(match_extension("PassAuthenticate"), Some(ExtensionKind::PassAuthenticate));
    assert_eq!(match_extension("CheckNonce"), Some(ExtensionKind::CheckNonce));
    assert_eq!(match_extension("CheckMetadataHash"), Some(ExtensionKind::CheckMetadataHash));
    assert_eq!(match_extension("SomethingElse"), None);
    assert_eq!(match_extension(""), None);
}

#[test]
fn chain_builds_in_declared_order() {
    let names: Vec<String> = vec![
        "CheckSpecVersion".to_string(),
        "PassAuthenticate".to_string(),
        "CheckNonce".to_string(),
    ];
    let kinds = build_chain(&names).unwrap();
    assert_eq!(
        kinds,
        vec![
            ExtensionKind::CheckSpecVersion,
            ExtensionKind::PassAuthenticate,
            ExtensionKind::CheckNonce,
        ]
    );
}

#[test]
fn unmatched_extension_is_fatal() {
    let names: Vec<String> =
        vec!["CheckSpecVersion".to_string(), "SomeFutureExtension".to_string()];
    assert_eq!(build_chain(&names).unwrap_err(), TxError::UnmatchedExtension { index: 1 });
}

#[test]
fn pass_through_contributes_constant_extra_and_no_additional() {
    let params = fixture_params();
    assert_eq!(encode_extra(&ExtensionKind::PassAuthenticate, &params), vec![0x00]);
    assert_eq!(encode_additional(&ExtensionKind::PassAuthenticate, &params), Vec::<u8>::new());
    // The same holds with entirely different parameters.
    let other = ChainParams {
        spec_version: 9,
        tx_version: 1,
        nonce: 77,
        tip: 123456789,
        asset_id: Some(3),
        era: Era::Mortal { period: 64, phase: 5 },
        genesis_hash: [9u8; 32],
        checkpoint_hash: [7u8; 32],
    };
    assert_eq!(encode_extra(&ExtensionKind::PassAuthenticate, &other), vec![0x00]);
    assert_eq!(encode_additional(&ExtensionKind::PassAuthenticate, &other), Vec::<u8>::new());
}

#[test]
fn pass_through_matches_by_name_only() {
    let reg = Registry { types: vec![] };
    assert!(PassAuthenticate::matches("PassAuthenticate", 0, &reg));
    assert!(PassAuthenticate::matches("PassAuthenticate", 12345, &reg));
    assert!(!PassAuthenticate::matches("ChargeTransactionPayment", 0, &reg));
    let ext = PassAuthenticate::new();
    let mut out = vec![0xaa];
    ext.encode_value_to(&mut out);
    assert_eq!(out, vec![0xaa, 0x00]);
}

#[test]
fn chain_output_is_stable_and_exact() {
    let kinds = vec![
        ExtensionKind::CheckSpecVersion,
        ExtensionKind::CheckTxVersion,
        ExtensionKind::CheckNonce,
        ExtensionKind::CheckGenesis,
        ExtensionKind::CheckMortality,
        ExtensionKind::ChargeTransactionPayment,
        ExtensionKind::CheckMetadataHash,
    ];
    let params = fixture_params();
    let extra = encode_extra_chain(&kinds, &params);
    let additional = encode_additional_chain(&kinds, &params);
    // nonce compact(5), era immortal, tip compact(0), metadata-hash mode 0.
    assert_eq!(extra, vec![0x14, 0x00, 0x00, 0x00]);
    let mut expected_additional = vec![100, 0, 0, 0, 2, 0, 0, 0];
    expected_additional.extend_from_slice(&[1u8; 32]);
    expected_additional.extend_from_slice(&[1u8; 32]);
    expected_additional.push(0x00);
    assert_eq!(additional, expected_additional);
    // Byte-for-byte stable across evaluations.
    assert_eq!(extra, encode_extra_chain(&kinds, &params));
    assert_eq!(additional, encode_additional_chain(&kinds, &params));
}

#[test]
fn full_slot_set_is_offered_in_order() {
    let kinds = KreivoConfig::extensions();
    assert_eq!(kinds.len(), 9);
    assert_eq!(kinds[0], ExtensionKind::PassAuthenticate);
    assert_eq!(kinds[8], ExtensionKind::CheckMetadataHash);
    let names: Vec<String> = vec![
        "PassAuthenticate".to_string(),
        "CheckSpecVersion".to_string(),
        "CheckTxVersion".to_string(),
        "CheckNonce".to_string(),
        "CheckGenesis".to_string(),
        "CheckMortality".to_string(),
        "ChargeAssetTxPayment".to_string(),
        "ChargeTransactionPayment".to_string(),
        "CheckMetadataHash".to_string(),
    ];
    assert_eq!(build_chain(&names).unwrap(), kinds);
}

#[test]
fn assemble_is_plain_concatenation() {
    let payload = assemble(&[1, 2], &[3], &[4, 5]);
    assert_eq!(payload, vec![1, 2, 3, 4, 5]);
}

#[test]
fn extrinsic_layout_is_exact() {
    let account = [0xaa_u8; 32];
    let signature = vec![0xbb_u8; 64];
    let r = build_signed_extrinsic(&account, &signature, &[1, 2], &[3]);
    let mut body = vec![0x84, 0x00];
    body.extend_from_slice(&[0xaa; 32]);
    body.push(0x01);
    body.extend_from_slice(&[0xbb; 64]);
    body.extend_from_slice(&[1, 2]);
    body.push(3);
    // 102 bytes of body: two-byte compact length prefix.
    let mut expected = vec![0x99, 0x01];
    expected.extend_from_slice(&body);
    assert_eq!(r, expected);
}

#[test]
fn end_to_end_extrinsic_carries_a_valid_signature() {
    let km = key_material_from_seed_hex(
        b"0x9d61b19deffd5a60ba844af492ec2cc44449c5697b326919703bac031cae7f60",
    )
    .unwrap();
    let signer = PairSigner::from(try_into_keypair(&km).unwrap());
    let account = signer.account_id();

    let call = [5u8, 2, 42, 0, 0, 0];
    let kinds = vec![
        ExtensionKind::CheckSpecVersion,
        ExtensionKind::CheckNonce,
        ExtensionKind::CheckMetadataHash,
    ];
    let params = fixture_params();
    let extra = encode_extra_chain(&kinds, &params);
    let additional = encode_additional_chain(&kinds, &params);
    let xt = prepare_signed_extrinsic(&signer, &call, &extra, &additional);

    // Length prefix, version byte, address, signature, extra, call.
    let body_len = 2 + 32 + 1 + 64 + extra.len() + call.len();
    let (len_prefix, body) = xt.split_at(xt.len() - body_len);
    assert_eq!(len_prefix, &kreivo_signer::scale::encode_compact_u64(body_len as u64)[..]);
    assert_eq!(&body[0..2], &[0x84, 0x00]);
    assert_eq!(&body[2..34], &account);
    assert_eq!(body[34], 0x01);
    let signature = &body[35..99];
    assert_eq!(&body[99..99 + extra.len()], &extra[..]);
    assert_eq!(&body[99 + extra.len()..], &call[..]);

    // The embedded signature verifies over call ++ extra ++ additional.
    let payload = assemble(&call, &extra, &additional);
    assert!(payload.len() <= 256);
    let public = sp_core::sr25519::Public::from_raw(account);
    let sig = sp_core::sr25519::Signature::try_from(signature).unwrap();
    assert!(<sp_core::sr25519::Pair as sp_core::Pair>::verify(&sig, &payload, &public));

    // Signing through sign_payload alone verifies the same way.
    let sig2 = sign_payload(&signer, &payload);
    let sig2 = sp_core::sr25519::Signature::try_from(&sig2[..]).unwrap();
    assert!(<sp_core::sr25519::Pair as sp_core::Pair>::verify(&sig2, &payload, &public));
}
