use kreivo_signer::errors::TxError;
use kreivo_signer::keys::{
    ensure_valid_mnemonic, key_material_from_args, key_material_from_seed_hex, try_into_keypair,
    KeyMaterial, PairSigner,
};

fn verify(account: &[u8; 32], message: &[u8], signature: &[u8]) -> bool {
    let public = sp_core::sr25519::Public::from_raw(*account);
    match sp_core::sr25519::Signature::try_from(signature) {
        Ok(sig) => <sp_core::sr25519::Pair as sp_core::Pair>::verify(&sig, message, &public),
        Err(_) => false,
    }
}

const DEV_PHRASE: &str = "bottom drive obey lake curtain smoke basket hold race lonely fit walk";
const SEED_HEX: &[u8] = b"0x9d61b19deffd5a60ba844af492ec2cc44449c5697b326919703bac031cae7f60";

fn hex_to_array(hex: &str) -> [u8; 32] {
    let bytes = hex::decode(hex).unwrap();
    let mut out = [0u8; 32];
    out.copy_from_slice(&bytes);
    out
}

#[test]
fn mnemonic_resolution_is_deterministic() {
    let km = KeyMaterial::Mnemonic {
        phrase: DEV_PHRASE.to_string(),
        derive_path: Some("//Alice".to_string()),
    };
    let kp1 = try_into_keypair(&km).unwrap();
    let kp2 = try_into_keypair(&km).unwrap();
    assert_eq!(kp1.public(), kp2.public());
}

#[test]
fn hard_derivation_matches_known_key() {
    let km = KeyMaterial::Mnemonic {
        phrase: DEV_PHRASE.to_string(),
        derive_path: Some("//Alice".to_string()),
    };
    let kp = try_into_keypair(&km).unwrap();
    let known = hex_to_array("d43593c715fdd31c61141abd04a99fd6822c8558854ccde39a5684e7a56da27d");
    assert_eq!(kp.public(), known);
}

#[test]
fn soft_derivation_matches_known_key() {
    let km = KeyMaterial::Mnemonic {
        phrase: DEV_PHRASE.to_string(),
        derive_path: Some("/Alice".to_string()),
    };
    let kp = try_into_keypair(&km).unwrap();
    let known = hex_to_array("d6c71059dbbe9ad2b0ed3f289738b800836eb425544ce694825285b958ca755e");
    assert_eq!(kp.public(), known);
}

#[test]
fn root_mnemonic_resolves_without_path() {
    let km = KeyMaterial::Mnemonic { phrase: DEV_PHRASE.to_string(), derive_path: None };
    let kp = try_into_keypair(&km).unwrap();
    let km2 = KeyMaterial::Mnemonic { phrase: DEV_PHRASE.to_string(), derive_path: None };
    assert_eq!(kp.public(), try_into_keypair(&km2).unwrap().public());
}

#[test]
fn malformed_mnemonic_fails_before_derivation() {
    let km = KeyMaterial::Mnemonic {
        phrase: "not a real mnemonic phrase at all".to_string(),
        derive_path: None,
    };
    match try_into_keypair(&km) {
        Err(e) => assert_eq!(e, TxError::InvalidMnemonic),
        Ok(_) => panic!("an invalid phrase must not resolve"),
    }
    // A phrase of wordlist words with a broken checksum fails the same way.
    let km = KeyMaterial::Mnemonic {
        phrase: "bottom drive obey lake curtain smoke basket hold race lonely fit fit".to_string(),
        derive_path: None,
    };
    match try_into_keypair(&km) {
        Err(e) => assert_eq!(e, TxError::InvalidMnemonic),
        Ok(_) => panic!("a bad checksum must not resolve"),
    }
}

#[test]
fn seed_round_trips_to_stable_public_key() {
    let km1 = key_material_from_seed_hex(SEED_HEX).unwrap();
    let km2 = key_material_from_seed_hex(SEED_HEX).unwrap();
    let pk1 = try_into_keypair(&km1).unwrap().public();
    let pk2 = try_into_keypair(&km2).unwrap().public();
    assert_eq!(pk1, pk2);
    // The derived key agrees with deriving directly through sp_core.
    let seed = hex::decode(&SEED_HEX[2..]).unwrap();
    let pair =
        <sp_core::sr25519::Pair as sp_core::Pair>::from_seed_slice(&seed).expect("32-byte seed");
    assert_eq!(pk1, sp_core::Pair::public(&pair).0);
}

#[test]
fn seed_of_wrong_length_is_rejected() {
    match key_material_from_seed_hex(b"0x9d61b19d") {
        Err(e) => assert_eq!(e, TxError::InvalidSeedLength { len: 4 }),
        Ok(_) => panic!("a short seed must be rejected"),
    }
}

#[test]
fn seed_of_bad_hex_is_rejected() {
    match key_material_from_seed_hex(b"0xzz") {
        Err(e) => assert_eq!(e, TxError::InvalidHex),
        Ok(_) => panic!("bad hex must be rejected"),
    }
}

#[test]
fn signatures_verify_and_bind_the_message() {
    let km = key_material_from_seed_hex(SEED_HEX).unwrap();
    let signer = PairSigner::from(try_into_keypair(&km).unwrap());
    let account = signer.account_id();
    let message = b"an important payload";
    let signature = signer.sign(message);
    assert_eq!(signature.len(), 64);
    assert!(verify(&account, message, &signature));
    assert!(!verify(&account, b"a different payload", &signature));
}

#[test]
fn long_payloads_are_signed_through_their_digest() {
    let km = key_material_from_seed_hex(SEED_HEX).unwrap();
    let signer = PairSigner::from(try_into_keypair(&km).unwrap());
    let account = signer.account_id();
    let payload = vec![0x5a_u8; 300];
    let signature = kreivo_signer::payload::sign_payload(&signer, &payload);
    // Over 256 bytes the signature covers the blake2b-256 digest, not the
    // payload itself.
    let digest = <sp_core::Blake2Hasher as sp_core::Hasher>::hash(&payload).0;
    assert!(verify(&account, &digest, &signature));
    assert!(!verify(&account, &payload, &signature));

    // At or below 256 bytes the payload itself is covered.
    let short = vec![0x5a_u8; 256];
    let signature = kreivo_signer::payload::sign_payload(&signer, &short);
    assert!(verify(&account, &short, &signature));
}

#[test]
fn mnemonic_validation_is_exact() {
    assert!(ensure_valid_mnemonic(DEV_PHRASE).is_ok());
    match ensure_valid_mnemonic("zebra zebra zebra") {
        Err(e) => assert_eq!(e, TxError::InvalidMnemonic),
        Ok(_) => panic!("three zebras are no mnemonic"),
    }
}

#[test]
fn args_precedence_prefers_the_phrase() {
    let km = key_material_from_args(
        Some(DEV_PHRASE.to_string()),
        Some(SEED_HEX),
        Some("//Alice".to_string()),
    )
    .unwrap()
    .unwrap();
    match km {
        KeyMaterial::Mnemonic { phrase, derive_path } => {
            assert_eq!(phrase, DEV_PHRASE);
            assert_eq!(derive_path, Some("//Alice".to_string()));
        },
        KeyMaterial::Seed { .. } => panic!("the phrase must win over the seed"),
    }
    let km = key_material_from_args(None, Some(SEED_HEX), None).unwrap().unwrap();
    match km {
        KeyMaterial::Seed { bytes } => {
            assert_eq!(&bytes[..], &hex::decode(&SEED_HEX[2..]).unwrap()[..])
        },
        KeyMaterial::Mnemonic { .. } => panic!("without a phrase the seed is used"),
    }
    assert!(key_material_from_args(None, None, None).unwrap().is_none());
}
