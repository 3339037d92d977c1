use ed25519_dalek::{Signature, SigningKey, Verifier};
use signer_core::hal::HalError;
use signer_core::secure_element::{SimSecureElement, StoredKeystore};

fn storage_message<T: std::fmt::Debug>(r: Result<T, HalError>) -> String {
    match r {
        Err(HalError::Storage(m)) => m,
        other => panic!("unexpected: {other:?}"),
    }
}

#[test]
fn pin_gates_key_use() {
    let mut se = SimSecureElement::create_empty();
    assert!(!se.is_provisioned());
    assert_eq!(storage_message(se.verify_pin(b"1234")), "no PIN set");
    se.set_pin(b"1234").unwrap();
    assert!(se.is_provisioned());
    assert_eq!(storage_message(se.set_pin(b"0000")), "PIN already set");
    assert_eq!(storage_message(se.import_key(0, &[1; 32])), "PIN not verified");
    assert_eq!(storage_message(se.verify_pin(b"0000")), "wrong PIN");
    assert_eq!(storage_message(se.sign(0, b"m")), "PIN not verified");
    se.verify_pin(b"1234").unwrap();
    assert_eq!(storage_message(se.sign(3, b"m")), "no key in slot 3");
    assert_eq!(storage_message(se.import_key(0, &[1; 31])), "seed must be 32 bytes");
}

#[test]
fn imported_key_signs_verifiably() {
    let mut se = SimSecureElement::create_empty();
    se.set_pin(b"1234").unwrap();
    se.verify_pin(b"1234").unwrap();
    let pk = se.import_key(7, &[42; 32]).unwrap();
    let expected = SigningKey::from_bytes(&[42; 32]).verifying_key();
    assert_eq!(pk, expected.to_bytes().to_vec());
    assert_eq!(se.public_key(7).unwrap(), pk);
    let sig = se.sign(7, b"hello").unwrap();
    let sig = Signature::from_bytes(&sig.try_into().unwrap());
    expected.verify(b"hello", &sig).unwrap();
    assert_eq!(se.export_seed(7).unwrap(), vec![42; 32]);
}

#[test]
fn generated_key_matches_exported_seed() {
    let mut se = SimSecureElement::create_empty();
    se.set_pin(b"1111").unwrap();
    se.verify_pin(b"1111").unwrap();
    let pk = se.generate_key(0).unwrap();
    let seed: [u8; 32] = se.export_seed(0).unwrap().try_into().unwrap();
    assert_eq!(pk, SigningKey::from_bytes(&seed).verifying_key().to_bytes().to_vec());
}

#[test]
fn stored_form_round_trips() {
    let mut se = SimSecureElement::create_empty();
    se.set_pin(b"1234").unwrap();
    se.verify_pin(b"1234").unwrap();
    se.import_key(200, &[0xab; 32]).unwrap();
    se.import_key(3, &[0x01; 32]).unwrap();
    let stored = se.to_stored();
    assert_eq!(
        stored.pin_hash.as_deref(),
        Some("03ac674216f3e15c761ee1a5e255f067953623c8b388b4459e13f978d7c846f4")
    );
    assert_eq!(stored.keys.len(), 2);
    assert_eq!(stored.keys[0], ("3".to_string(), "01".repeat(32)));
    assert_eq!(stored.keys[1], ("200".to_string(), "ab".repeat(32)));
    let mut back = SimSecureElement::from_stored(&stored).unwrap();
    assert!(back.is_provisioned());
    assert_eq!(storage_message(back.sign(3, b"m")), "PIN not verified");
    back.verify_pin(b"1234").unwrap();
    assert_eq!(back.export_seed(200).unwrap(), vec![0xab; 32]);
}

#[test]
fn stored_form_rejects_bad_entries() {
    let bad_slot = StoredKeystore { pin_hash: None, keys: vec![("300".into(), "00".repeat(32))] };
    assert!(SimSecureElement::from_stored(&bad_slot).is_err());
    let bad_hex = StoredKeystore { pin_hash: None, keys: vec![("1".into(), "zz".into())] };
    assert!(SimSecureElement::from_stored(&bad_hex).is_err());
    let short = StoredKeystore { pin_hash: None, keys: vec![("1".into(), "00".repeat(31))] };
    assert!(SimSecureElement::from_stored(&short).is_err());
    let bad_pin = StoredKeystore { pin_hash: Some("0g".into()), keys: vec![] };
    assert!(SimSecureElement::from_stored(&bad_pin).is_err());
}

#[test]
fn stored_slot_numerals_follow_integer_parsing() {
    let seed = "00".repeat(32);
    let st = StoredKeystore { pin_hash: None, keys: vec![("+7".into(), seed.clone()), ("007".into(), "01".repeat(32))] };
    let se = SimSecureElement::from_stored(&st).unwrap();
    assert_eq!(se.export_seed(7).unwrap(), vec![1; 32]);
    for bad in ["", "+", "-1", " 1", "256", "1a"] {
        let st = StoredKeystore { pin_hash: None, keys: vec![(bad.into(), seed.clone())] };
        assert!(SimSecureElement::from_stored(&st).is_err(), "{bad:?}");
    }
}

#[test]
fn stored_seeds_accept_either_hex_case() {
    let st = StoredKeystore { pin_hash: Some("AbCd".into()), keys: vec![("1".into(), "AB".repeat(32))] };
    let se = SimSecureElement::from_stored(&st).unwrap();
    assert_eq!(se.export_seed(1).unwrap(), vec![0xab; 32]);
    assert_eq!(se.to_stored().pin_hash.as_deref(), Some("abcd"));
    let odd = StoredKeystore { pin_hash: Some("abc".into()), keys: vec![] };
    assert!(SimSecureElement::from_stored(&odd).is_err());
}
