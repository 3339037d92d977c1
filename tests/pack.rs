use signer_core::pack::{parse_algorithm, parse_output_mode, parse_signable};
use signer_core::spec::{HashAlgorithm, OutputSpec, SignAlgorithm, Signable, SignableSource};

#[test]
fn algorithm_names() {
    assert_eq!(parse_algorithm("ed25519"), Some(SignAlgorithm::Ed25519));
    assert_eq!(parse_algorithm("secp256k1-ecdsa"), Some(SignAlgorithm::Secp256k1Ecdsa));
    assert_eq!(parse_algorithm("secp256k1-schnorr"), Some(SignAlgorithm::Secp256k1Schnorr));
    assert_eq!(parse_algorithm("rsa"), None);
}

#[test]
fn signable_names() {
    assert_eq!(parse_signable("whole"), Some(Signable::Whole));
    assert_eq!(
        parse_signable("hash-blake2b"),
        Some(Signable::HashThenSign { hash: HashAlgorithm::Blake2b256, source: SignableSource::Whole })
    );
    assert_eq!(
        parse_signable("hash-sha256"),
        Some(Signable::HashThenSign { hash: HashAlgorithm::Sha256, source: SignableSource::Whole })
    );
    assert_eq!(parse_signable("range"), None);
}

#[test]
fn output_mode_names() {
    assert_eq!(parse_output_mode("signature-only"), Some(OutputSpec::SignatureOnly));
    assert_eq!(parse_output_mode("append"), Some(OutputSpec::AppendToPayload));
    assert_eq!(parse_output_mode("wasm-assemble"), Some(OutputSpec::WasmAssemble));
    assert_eq!(parse_output_mode(""), None);
}
