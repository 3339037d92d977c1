use ed25519_dalek::{Signature, SigningKey, Verifier, VerifyingKey};
use signer_core::crypto::{extract_signable, hash_bytes, sign, CryptoError};
use signer_core::spec::{HashAlgorithm, SignAlgorithm, Signable, SignableSource};

#[test]
fn ed25519_sign_verify() {
    let seed = [42u8; 32];
    let signing_key = SigningKey::from_bytes(&seed);
    let verifying_key: VerifyingKey = (&signing_key).into();

    let message = b"hello air-gapped signer";
    let sig_bytes = sign(SignAlgorithm::Ed25519, &seed, message).unwrap();
    let signature = Signature::from_bytes(&sig_bytes.try_into().unwrap());
    verifying_key.verify(message, &signature).unwrap();
}

#[test]
fn extract_whole() {
    let payload = b"test payload";
    let result = extract_signable(payload, &Signable::Whole).unwrap();
    assert_eq!(result, payload);
}

#[test]
fn extract_range() {
    let payload = b"0123456789";
    let result = extract_signable(payload, &Signable::Range { offset: 2, length: 4 }).unwrap();
    assert_eq!(result, b"2345");
}

#[test]
fn extract_range_out_of_bounds() {
    let payload = b"short";
    let result = extract_signable(payload, &Signable::Range { offset: 2, length: 100 });
    assert!(result.is_err());
}

#[test]
fn extract_hash_then_sign_blake2b() {
    let payload = b"hash me";
    let result = extract_signable(
        payload,
        &Signable::HashThenSign { hash: HashAlgorithm::Blake2b256, source: SignableSource::Whole },
    )
    .unwrap();
    assert_eq!(result.len(), 32);
}

#[test]
fn range_out_of_bounds_reports_the_range() {
    match extract_signable(b"short", &Signable::Range { offset: 2, length: 100 }) {
        Err(CryptoError::RangeOutOfBounds { offset, end, payload_len }) => {
            assert_eq!((offset, end, payload_len), (2, 102, 5));
        }
        other => panic!("unexpected: {other:?}"),
    }
}

#[test]
fn range_end_overflow_is_refused() {
    match extract_signable(b"abc", &Signable::Range { offset: 1, length: usize::MAX }) {
        Err(CryptoError::RangeOutOfBounds { end, .. }) => assert_eq!(end, usize::MAX),
        other => panic!("unexpected: {other:?}"),
    }
}

#[test]
fn empty_range_at_payload_end_is_empty() {
    let payload = b"abcdef";
    let r = extract_signable(payload, &Signable::Range { offset: 6, length: 0 }).unwrap();
    assert!(r.is_empty());
}

#[test]
fn empty_payload_whole_is_empty() {
    assert!(extract_signable(b"", &Signable::Whole).unwrap().is_empty());
}

#[test]
fn range_length_matches_request() {
    let payload: Vec<u8> = (0..50).collect();
    for (o, l) in [(0usize, 50usize), (10, 0), (49, 1), (7, 13)] {
        let r = extract_signable(&payload, &Signable::Range { offset: o, length: l }).unwrap();
        assert_eq!(r.len(), l);
        assert_eq!(r, payload[o..o + l].to_vec());
    }
}

#[test]
fn hash_then_sign_is_always_32_bytes() {
    let payload = b"some payload bytes";
    for hash in [HashAlgorithm::Blake2b256, HashAlgorithm::Sha256, HashAlgorithm::Sha3_256] {
        for source in [SignableSource::Whole, SignableSource::Range { offset: 5, length: 7 }] {
            let r = extract_signable(payload, &Signable::HashThenSign { hash, source }).unwrap();
            assert_eq!(r.len(), 32);
        }
    }
}

#[test]
fn hash_then_sign_range_out_of_bounds() {
    let r = extract_signable(
        b"abc",
        &Signable::HashThenSign {
            hash: HashAlgorithm::Sha256,
            source: SignableSource::Range { offset: 2, length: 2 },
        },
    );
    assert!(matches!(r, Err(CryptoError::RangeOutOfBounds { offset: 2, end: 4, payload_len: 3 })));
}

#[test]
fn sha256_known_digest() {
    let d = hash_bytes(HashAlgorithm::Sha256, b"abc");
    assert_eq!(hex::encode(d), "ba7816bf8f01cfea414140de5dae2223b00361a396177a9cb410ff61f20015ad");
}

#[test]
fn sha3_256_known_digest() {
    let d = hash_bytes(HashAlgorithm::Sha3_256, b"abc");
    assert_eq!(hex::encode(d), "3a985da74fe225b2045c172d6bd390bd855f086e3e9d525b46bfe24511431532");
}

#[test]
fn blake2b256_known_digest() {
    let d = hash_bytes(HashAlgorithm::Blake2b256, b"abc");
    assert_eq!(hex::encode(d), "bddd813c634239723171ef3fee98579b94964e3bb1cb3e427262c8c068d52319");
}

#[test]
fn hash_then_sign_range_hashes_the_range() {
    let r = extract_signable(
        b"xxabcxx",
        &Signable::HashThenSign {
            hash: HashAlgorithm::Sha256,
            source: SignableSource::Range { offset: 2, length: 3 },
        },
    )
    .unwrap();
    assert_eq!(r, hash_bytes(HashAlgorithm::Sha256, b"abc"));
}

#[test]
fn unsupported_algorithms_fail_closed() {
    for alg in [SignAlgorithm::Secp256k1Ecdsa, SignAlgorithm::Secp256k1Schnorr] {
        match sign(alg, &[1u8; 32], b"m") {
            Err(CryptoError::Unsupported(a)) => assert_eq!(a, alg),
            other => panic!("unexpected: {other:?}"),
        }
    }
}

#[test]
fn ed25519_refuses_short_seed() {
    match sign(SignAlgorithm::Ed25519, &[1u8; 31], b"m") {
        Err(CryptoError::Signing(m)) => assert_eq!(m, "Ed25519 key must be 32 bytes"),
        other => panic!("unexpected: {other:?}"),
    }
}

#[test]
fn ed25519_signature_is_deterministic_and_64_bytes() {
    let a = sign(SignAlgorithm::Ed25519, &[7u8; 32], b"msg").unwrap();
    let b = sign(SignAlgorithm::Ed25519, &[7u8; 32], b"msg").unwrap();
    assert_eq!(a, b);
    assert_eq!(a.len(), 64);
    let c = sign(SignAlgorithm::Ed25519, &[7u8; 32], b"msh").unwrap();
    assert_ne!(a, c);
}
