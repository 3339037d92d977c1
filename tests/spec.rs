use ciborium::Value;
use signer_core::codec::DescriptorError;
use signer_core::spec::{
    HashAlgorithm, OutputSpec, SignAlgorithm, Signable, SignableSource, SigningSpec,
};

#[test]
fn round_trip_whole_ed25519() {
    let spec = SigningSpec {
        label: "Cardano Transaction".into(),
        signable: Signable::Whole,
        algorithm: SignAlgorithm::Ed25519,
        key_slot: 0,
        output: OutputSpec::SignatureOnly,
    };
    let cbor = spec.to_cbor().unwrap();
    let decoded = SigningSpec::from_cbor(&cbor).unwrap();
    assert_eq!(spec, decoded);
}

#[test]
fn round_trip_hash_then_sign() {
    let spec = SigningSpec {
        label: "Bitcoin PSBT".into(),
        signable: Signable::HashThenSign {
            hash: HashAlgorithm::Sha256,
            source: SignableSource::Whole,
        },
        algorithm: SignAlgorithm::Secp256k1Ecdsa,
        key_slot: 1,
        output: OutputSpec::WasmAssemble,
    };
    let cbor = spec.to_cbor().unwrap();
    let decoded = SigningSpec::from_cbor(&cbor).unwrap();
    assert_eq!(spec, decoded);
}

#[test]
fn round_trip_range() {
    let spec = SigningSpec {
        label: "Custom Format".into(),
        signable: Signable::Range { offset: 4, length: 32 },
        algorithm: SignAlgorithm::Secp256k1Schnorr,
        key_slot: 2,
        output: OutputSpec::AppendToPayload,
    };
    let cbor = spec.to_cbor().unwrap();
    let decoded = SigningSpec::from_cbor(&cbor).unwrap();
    assert_eq!(spec, decoded);
}

#[test]
fn round_trip_hash_then_sign_range() {
    let spec = SigningSpec {
        label: "Partial Hash".into(),
        signable: Signable::HashThenSign {
            hash: HashAlgorithm::Blake2b256,
            source: SignableSource::Range { offset: 10, length: 64 },
        },
        algorithm: SignAlgorithm::Ed25519,
        key_slot: 3,
        output: OutputSpec::SignatureOnly,
    };
    let cbor = spec.to_cbor().unwrap();
    let decoded = SigningSpec::from_cbor(&cbor).unwrap();
    assert_eq!(spec, decoded);
}

fn sample() -> SigningSpec {
    SigningSpec {
        label: "Tx ✓".into(),
        signable: Signable::HashThenSign {
            hash: HashAlgorithm::Sha3_256,
            source: SignableSource::Range { offset: 300, length: 70000 },
        },
        algorithm: SignAlgorithm::Ed25519,
        key_slot: 255,
        output: OutputSpec::AppendToPayload,
    }
}

#[test]
fn round_trip_all_variant_combinations() {
    let signables = [
        Signable::Whole,
        Signable::Range { offset: 0, length: 0 },
        Signable::Range { offset: 23, length: 24 },
        Signable::Range { offset: usize::MAX, length: 0x1_0000_0000 },
        Signable::HashThenSign { hash: HashAlgorithm::Blake2b256, source: SignableSource::Whole },
        Signable::HashThenSign {
            hash: HashAlgorithm::Sha256,
            source: SignableSource::Range { offset: 255, length: 256 },
        },
        Signable::HashThenSign {
            hash: HashAlgorithm::Sha3_256,
            source: SignableSource::Range { offset: 65535, length: 65536 },
        },
    ];
    let algorithms =
        [SignAlgorithm::Ed25519, SignAlgorithm::Secp256k1Ecdsa, SignAlgorithm::Secp256k1Schnorr];
    let outputs = [OutputSpec::SignatureOnly, OutputSpec::AppendToPayload, OutputSpec::WasmAssemble];
    for signable in signables {
        for algorithm in algorithms {
            for output in outputs {
                for key_slot in [0u8, 23, 24, 255] {
                    let spec = SigningSpec { label: "L".into(), signable, algorithm, key_slot, output };
                    let cbor = spec.to_cbor().unwrap();
                    assert_eq!(SigningSpec::from_cbor(&cbor).unwrap(), spec);
                }
            }
        }
    }
}

#[test]
fn encoding_matches_serde_layout() {
    let spec = SigningSpec {
        label: "ab".into(),
        signable: Signable::Range { offset: 4, length: 300 },
        algorithm: SignAlgorithm::Ed25519,
        key_slot: 7,
        output: OutputSpec::SignatureOnly,
    };
    let cbor = spec.to_cbor().unwrap();
    let value: ciborium::Value = ciborium::from_reader(cbor.as_slice()).unwrap();
    let map = value.as_map().unwrap();
    assert_eq!(map.len(), 5);
    assert_eq!(map[0].0.as_text(), Some("label"));
    assert_eq!(map[0].1.as_text(), Some("ab"));
    assert_eq!(map[1].0.as_text(), Some("signable"));
    let variant = map[1].1.as_map().unwrap();
    assert_eq!(variant[0].0.as_text(), Some("Range"));
    let fields = variant[0].1.as_map().unwrap();
    assert_eq!(fields[0].0.as_text(), Some("offset"));
    assert_eq!(fields[0].1.as_integer(), Some(4.into()));
    assert_eq!(fields[1].0.as_text(), Some("length"));
    assert_eq!(fields[1].1.as_integer(), Some(300.into()));
    assert_eq!(map[2].1.as_text(), Some("Ed25519"));
    assert_eq!(map[3].0.as_text(), Some("key_slot"));
    assert_eq!(map[3].1.as_integer(), Some(7.into()));
    assert_eq!(map[4].1.as_text(), Some("SignatureOnly"));
}

#[test]
fn decodes_what_ciborium_writes() {
    let value = Value::Map(vec![
        (Value::Text("label".into()), Value::Text("X".into())),
        (Value::Text("signable".into()), Value::Text("Whole".into())),
        (Value::Text("algorithm".into()), Value::Text("Secp256k1Schnorr".into())),
        (Value::Text("key_slot".into()), Value::Integer(200.into())),
        (Value::Text("output".into()), Value::Text("WasmAssemble".into())),
    ]);
    let mut bytes = Vec::new();
    ciborium::into_writer(&value, &mut bytes).unwrap();
    let spec = SigningSpec::from_cbor(&bytes).unwrap();
    assert_eq!(spec.label, "X");
    assert_eq!(spec.signable, Signable::Whole);
    assert_eq!(spec.algorithm, SignAlgorithm::Secp256k1Schnorr);
    assert_eq!(spec.key_slot, 200);
    assert_eq!(spec.output, OutputSpec::WasmAssemble);
}

#[test]
fn trailing_bytes_are_rejected() {
    let mut cbor = sample().to_cbor().unwrap();
    cbor.push(0);
    assert!(matches!(SigningSpec::from_cbor(&cbor), Err(DescriptorError::Malformed)));
}

#[test]
fn truncated_input_is_rejected() {
    let cbor = sample().to_cbor().unwrap();
    for cut in 0..cbor.len() {
        assert!(SigningSpec::from_cbor(&cbor[..cut]).is_err());
    }
}

#[test]
fn unknown_variant_is_rejected() {
    let spec = SigningSpec {
        label: "L".into(),
        signable: Signable::Whole,
        algorithm: SignAlgorithm::Ed25519,
        key_slot: 0,
        output: OutputSpec::SignatureOnly,
    };
    let mut cbor = spec.to_cbor().unwrap();
    let pos = cbor.windows(7).position(|w| w == b"Ed25519").unwrap();
    cbor[pos] = b'X';
    assert!(matches!(SigningSpec::from_cbor(&cbor), Err(DescriptorError::Malformed)));
}

#[test]
fn key_slot_above_255_is_rejected() {
    let value = Value::Map(vec![
        (Value::Text("label".into()), Value::Text("X".into())),
        (Value::Text("signable".into()), Value::Text("Whole".into())),
        (Value::Text("algorithm".into()), Value::Text("Ed25519".into())),
        (Value::Text("key_slot".into()), Value::Integer(256.into())),
        (Value::Text("output".into()), Value::Text("WasmAssemble".into())),
    ]);
    let mut bytes = Vec::new();
    ciborium::into_writer(&value, &mut bytes).unwrap();
    assert!(SigningSpec::from_cbor(&bytes).is_err());
}

#[test]
fn key_id_instead_of_key_slot_is_rejected() {
    let value = Value::Map(vec![
        (Value::Text("label".into()), Value::Text("X".into())),
        (Value::Text("signable".into()), Value::Text("Whole".into())),
        (Value::Text("algorithm".into()), Value::Text("Ed25519".into())),
        (Value::Text("key_id".into()), Value::Text("k".into())),
        (Value::Text("output".into()), Value::Text("WasmAssemble".into())),
    ]);
    let mut bytes = Vec::new();
    ciborium::into_writer(&value, &mut bytes).unwrap();
    assert!(SigningSpec::from_cbor(&bytes).is_err());
}

#[test]
fn non_shortest_integer_is_rejected() {
    let spec = SigningSpec {
        label: "L".into(),
        signable: Signable::Whole,
        algorithm: SignAlgorithm::Ed25519,
        key_slot: 5,
        output: OutputSpec::SignatureOnly,
    };
    let cbor = spec.to_cbor().unwrap();
    let pos = cbor.windows(9).position(|w| w == b"key_slot\x05").unwrap() + 8;
    let mut long = cbor[..pos].to_vec();
    long.extend_from_slice(&[0x18, 0x05]);
    long.extend_from_slice(&cbor[pos + 1..]);
    assert!(matches!(SigningSpec::from_cbor(&long), Err(DescriptorError::Malformed)));
}

#[test]
fn long_label_is_refused_both_ways() {
    let mut spec = sample();
    spec.label = "x".repeat(257);
    assert!(matches!(spec.to_cbor(), Err(DescriptorError::LabelTooLong)));
    spec.label = "x".repeat(256);
    let cbor = spec.to_cbor().unwrap();
    assert_eq!(SigningSpec::from_cbor(&cbor).unwrap(), spec);
}

#[test]
fn invalid_utf8_label_is_rejected() {
    let spec = SigningSpec {
        label: "ab".into(),
        signable: Signable::Whole,
        algorithm: SignAlgorithm::Ed25519,
        key_slot: 0,
        output: OutputSpec::SignatureOnly,
    };
    let mut cbor = spec.to_cbor().unwrap();
    let pos = cbor.windows(2).position(|w| w == b"ab").unwrap();
    cbor[pos] = 0xFF;
    assert!(SigningSpec::from_cbor(&cbor).is_err());
}
