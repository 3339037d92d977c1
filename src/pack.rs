//! Choices of the host packaging tool, read from their command-line names.
use crate::spec::{HashAlgorithm, OutputSpec, SignAlgorithm, Signable, SignableSource};
use vstd::prelude::*;

verus! {

fn is(s: &str, name: &str) -> (r: bool)
    ensures
        r == (s@ == name@),
{
    s.to_owned() == name.to_owned()
}

/// The signing algorithm named `ed25519`, `secp256k1-ecdsa` or
/// `secp256k1-schnorr`; `None` for any other name.
pub fn parse_algorithm(s: &str) -> (r: Option<SignAlgorithm>)
    ensures
        r == Some(SignAlgorithm::Ed25519) <==> s@ == "ed25519"@,
        r == Some(SignAlgorithm::Secp256k1Ecdsa) <==> s@ == "secp256k1-ecdsa"@,
        r == Some(SignAlgorithm::Secp256k1Schnorr) <==> s@ == "secp256k1-schnorr"@,
{
    proof {
        reveal_strlit("ed25519");
        assert("ed25519"@.len() == 7);
        reveal_strlit("secp256k1-ecdsa");
        assert("secp256k1-ecdsa"@.len() == 15);
        reveal_strlit("secp256k1-schnorr");
        assert("secp256k1-schnorr"@.len() == 17);
    }
    if is(s, "ed25519") {
        Some(SignAlgorithm::Ed25519)
    } else if is(s, "secp256k1-ecdsa") {
        Some(SignAlgorithm::Secp256k1Ecdsa)
    } else if is(s, "secp256k1-schnorr") {
        Some(SignAlgorithm::Secp256k1Schnorr)
    } else {
        None
    }
}

/// The selection named `whole`, `hash-blake2b` or `hash-sha256` (the
/// latter two hash the whole payload); `None` for any other name.
pub fn parse_signable(s: &str) -> (r: Option<Signable>)
    ensures
        r == Some(Signable::Whole) <==> s@ == "whole"@,
        r == Some(
            Signable::HashThenSign {
                hash: HashAlgorithm::Blake2b256,
                source: SignableSource::Whole,
            },
        ) <==> s@ == "hash-blake2b"@,
        r == Some(
            Signable::HashThenSign { hash: HashAlgorithm::Sha256, source: SignableSource::Whole },
        ) <==> s@ == "hash-sha256"@,
        r is Some ==> s@ == "whole"@ || s@ == "hash-blake2b"@ || s@ == "hash-sha256"@,
{
    proof {
        reveal_strlit("whole");
        assert("whole"@.len() == 5);
        reveal_strlit("hash-blake2b");
        assert("hash-blake2b"@.len() == 12);
        reveal_strlit("hash-sha256");
        assert("hash-sha256"@.len() == 11);
    }
    if is(s, "whole") {
        Some(Signable::Whole)
    } else if is(s, "hash-blake2b") {
        Some(
            Signable::HashThenSign {
                hash: HashAlgorithm::Blake2b256,
                source: SignableSource::Whole,
            },
        )
    } else if is(s, "hash-sha256") {
        Some(Signable::HashThenSign { hash: HashAlgorithm::Sha256, source: SignableSource::Whole })
    } else {
        None
    }
}

/// The output mode named `signature-only`, `append` or `wasm-assemble`;
/// `None` for any other name.
pub fn parse_output_mode(s: &str) -> (r: Option<OutputSpec>)
    ensures
        r == Some(OutputSpec::SignatureOnly) <==> s@ == "signature-only"@,
        r == Some(OutputSpec::AppendToPayload) <==> s@ == "append"@,
        r == Some(OutputSpec::WasmAssemble) <==> s@ == "wasm-assemble"@,
{
    proof {
        reveal_strlit("signature-only");
        assert("signature-only"@.len() == 14);
        reveal_strlit("append");
        assert("append"@.len() == 6);
        reveal_strlit("wasm-assemble");
        assert("wasm-assemble"@.len() == 13);
    }
    if is(s, "signature-only") {
        Some(OutputSpec::SignatureOnly)
    } else if is(s, "append") {
        Some(OutputSpec::AppendToPayload)
    } else if is(s, "wasm-assemble") {
        Some(OutputSpec::WasmAssemble)
    } else {
        None
    }
}

} // verus!
