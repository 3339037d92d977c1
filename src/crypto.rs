//! Extraction of the bytes to sign, hashing, and the signing adapter.
use crate::spec::{HashAlgorithm, SignAlgorithm, Signable, SignableSource};
use vstd::prelude::*;
use vstd::slice::{slice_subrange, slice_to_vec};

verus! {

/// Errors of extraction and signing.
#[derive(Debug)]
pub enum CryptoError {
    /// The signer refused the key material.
    Signing(String),
    /// A range reaches past the payload; `end` is `offset + length`,
    /// saturated at `usize::MAX` where the sum overflows.
    RangeOutOfBounds { offset: usize, end: usize, payload_len: usize },
    /// The algorithm is declared but not implemented.
    Unsupported(SignAlgorithm),
}

/// Length of every digest this library computes.
pub const DIGEST_LEN: usize = 32;

/// BLAKE2b with a 32-byte output, as computed by the `blake2` crate.
pub uninterp spec fn blake2b256_of(data: Seq<u8>) -> Seq<u8>;

/// SHA-256, as computed by the `sha2` crate.
pub uninterp spec fn sha256_of(data: Seq<u8>) -> Seq<u8>;

/// SHA3-256, as computed by the `sha3` crate.
pub uninterp spec fn sha3_256_of(data: Seq<u8>) -> Seq<u8>;

/// The 64-byte Ed25519 signature of `message` under the key derived from `seed`,
/// as computed by `ed25519-dalek`.
pub uninterp spec fn ed25519_signature_of(seed: Seq<u8>, message: Seq<u8>) -> Seq<u8>;

/// Relies on `blake2::Blake2b<U32>` through `Digest::digest`: the digest of
/// `data`, 32 bytes long, depends on `data` alone.
#[verifier::external_body]
fn blake2b256(data: &[u8]) -> (r: Vec<u8>)
    ensures
        r@ == blake2b256_of(data@),
        r@.len() == DIGEST_LEN,
{
    <blake2::Blake2b<blake2::digest::consts::U32> as blake2::Digest>::digest(data).to_vec()
}

/// Relies on `sha2::Sha256` through `Digest::digest`: the digest of `data`,
/// 32 bytes long, depends on `data` alone.
#[verifier::external_body]
pub(crate) fn sha256(data: &[u8]) -> (r: Vec<u8>)
    ensures
        r@ == sha256_of(data@),
        r@.len() == DIGEST_LEN,
{
    <sha2::Sha256 as sha2::Digest>::digest(data).to_vec()
}

/// Relies on `sha3::Sha3_256` through `Digest::digest`: the digest of `data`,
/// 32 bytes long, depends on `data` alone.
#[verifier::external_body]
fn sha3_256(data: &[u8]) -> (r: Vec<u8>)
    ensures
        r@ == sha3_256_of(data@),
        r@.len() == DIGEST_LEN,
{
    <sha3::Sha3_256 as sha3::Digest>::digest(data).to_vec()
}

/// Relies on `ed25519_dalek::SigningKey::from_bytes` and `Signer::sign`: the
/// signature, 64 bytes long, depends on the seed and the message alone
/// (Ed25519 signing is deterministic).
#[verifier::external_body]
pub(crate) fn ed25519_sign(seed: &[u8], message: &[u8]) -> (r: Vec<u8>)
    requires
        seed@.len() == 32,
    ensures
        r@ == ed25519_signature_of(seed@, message@),
        r@.len() == 64,
{
    let seed: &[u8; 32] = seed.try_into().unwrap();
    let key = ed25519_dalek::SigningKey::from_bytes(seed);
    ed25519_dalek::Signer::sign(&key, message).to_bytes().to_vec()
}

/// The 32-byte Ed25519 public key derived from `seed`, as computed by
/// `ed25519-dalek`.
pub uninterp spec fn ed25519_public_key_of(seed: Seq<u8>) -> Seq<u8>;

/// Relies on `ed25519_dalek::SigningKey::from_bytes` and
/// `SigningKey::verifying_key`: the public key, 32 bytes long, depends on the
/// seed alone.
#[verifier::external_body]
pub(crate) fn ed25519_public_key(seed: &[u8]) -> (r: Vec<u8>)
    requires
        seed@.len() == 32,
    ensures
        r@ == ed25519_public_key_of(seed@),
        r@.len() == 32,
{
    let seed: &[u8; 32] = seed.try_into().unwrap();
    ed25519_dalek::SigningKey::from_bytes(seed).verifying_key().to_bytes().to_vec()
}

/// The digest of `data` under `alg`.
pub open spec fn digest_of(alg: HashAlgorithm, data: Seq<u8>) -> Seq<u8> {
    match alg {
        HashAlgorithm::Blake2b256 => blake2b256_of(data),
        HashAlgorithm::Sha256 => sha256_of(data),
        HashAlgorithm::Sha3_256 => sha3_256_of(data),
    }
}

/// Whether the range `[offset, offset + length)` lies within `len` bytes.
pub open spec fn range_fits(len: nat, offset: usize, length: usize) -> bool {
    offset + length <= len
}

/// `offset + length`, saturated at `usize::MAX`.
pub open spec fn range_end(offset: usize, length: usize) -> usize {
    if offset + length <= usize::MAX {
        (offset + length) as usize
    } else {
        usize::MAX
    }
}

/// The bytes a source selects, if it fits the payload.
pub open spec fn source_bytes(payload: Seq<u8>, source: SignableSource) -> Option<Seq<u8>> {
    match source {
        SignableSource::Whole => Some(payload),
        SignableSource::Range { offset, length } => if range_fits(payload.len(), offset, length) {
            Some(payload.subrange(offset as int, offset + length))
        } else {
            None
        },
    }
}

/// The bytes to sign for `signable`, or `None` where a range does not fit.
pub open spec fn extracted(payload: Seq<u8>, signable: Signable) -> Option<Seq<u8>> {
    match signable {
        Signable::Whole => Some(payload),
        Signable::Range { offset, length } => if range_fits(payload.len(), offset, length) {
            Some(payload.subrange(offset as int, offset + length))
        } else {
            None
        },
        Signable::HashThenSign { hash, source } => match source_bytes(payload, source) {
            Some(bytes) => Some(digest_of(hash, bytes)),
            None => None,
        },
    }
}

/// The range that an extraction of `signable` checks, if any fails.
pub open spec fn failing_range(payload_len: nat, signable: Signable) -> Option<(usize, usize)> {
    match signable {
        Signable::Range { offset, length } => if range_fits(payload_len, offset, length) {
            None
        } else {
            Some((offset, length))
        },
        Signable::HashThenSign { source: SignableSource::Range { offset, length }, .. } =>
            if range_fits(payload_len, offset, length) {
            None
        } else {
            Some((offset, length))
        },
        _ => None,
    }
}

/// Copies `[offset, offset + length)` out of `payload`, or reports the range.
fn take_range(payload: &[u8], offset: usize, length: usize) -> (r: Result<Vec<u8>, CryptoError>)
    ensures
        range_fits(payload@.len(), offset, length) ==> (r matches Ok(v) && v@
            == payload@.subrange(offset as int, offset + length)),
        !range_fits(payload@.len(), offset, length) ==> (r matches Err(
            CryptoError::RangeOutOfBounds { offset: o, end, payload_len },
        ) && o == offset && end == range_end(offset, length) && payload_len == payload@.len()),
{
    let end = offset.saturating_add(length);
    if length > usize::MAX - offset || end > payload.len() {
        return Err(CryptoError::RangeOutOfBounds { offset, end, payload_len: payload.len() });
    }
    Ok(slice_to_vec(slice_subrange(payload, offset, end)))
}

/// Hashes `data` with `algo`.
pub fn hash_bytes(algo: HashAlgorithm, data: &[u8]) -> (r: Vec<u8>)
    ensures
        r@ == digest_of(algo, data@),
        r@.len() == DIGEST_LEN,
{
    match algo {
        HashAlgorithm::Blake2b256 => blake2b256(data),
        HashAlgorithm::Sha256 => sha256(data),
        HashAlgorithm::Sha3_256 => sha3_256(data),
    }
}

/// Extracts the bytes to sign from the payload according to `signable`.
pub fn extract_signable(payload: &[u8], signable: &Signable) -> (r: Result<Vec<u8>, CryptoError>)
    ensures
        r is Ok <==> extracted(payload@, *signable) is Some,
        r matches Ok(v) ==> v@ == extracted(payload@, *signable)->0,
        r matches Ok(v) ==> (signable is HashThenSign ==> v@.len() == DIGEST_LEN),
        r matches Err(e) ==> (failing_range(payload@.len(), *signable) matches Some(
            (offset, length),
        ) && e == (CryptoError::RangeOutOfBounds {
            offset,
            end: range_end(offset, length),
            payload_len: payload@.len() as usize,
        })),
{
    match signable {
        Signable::Whole => Ok(slice_to_vec(payload)),
        Signable::Range { offset, length } => take_range(payload, *offset, *length),
        Signable::HashThenSign { hash, source } => {
            let source_bytes = match source {
                SignableSource::Whole => slice_to_vec(payload),
                SignableSource::Range { offset, length } => {
                    match take_range(payload, *offset, *length) {
                        Ok(v) => v,
                        Err(e) => {
                            return Err(e);
                        },
                    }
                },
            };
            Ok(hash_bytes(*hash, source_bytes.as_slice()))
        },
    }
}

/// The result `sign` owes for each algorithm, key and message.
pub open spec fn signing_outcome(
    algorithm: SignAlgorithm,
    secret_key: Seq<u8>,
    message: Seq<u8>,
) -> Option<Seq<u8>> {
    match algorithm {
        SignAlgorithm::Ed25519 => if secret_key.len() == 32 {
            Some(ed25519_signature_of(secret_key, message))
        } else {
            None
        },
        _ => None,
    }
}

/// Signs `message` with `algorithm` and the algorithm's canonical secret
/// (a 32-byte seed for Ed25519). Unimplemented algorithms fail with
/// `Unsupported`.
pub fn sign(algorithm: SignAlgorithm, secret_key: &[u8], message: &[u8]) -> (r: Result<
    Vec<u8>,
    CryptoError,
>)
    ensures
        r is Ok <==> signing_outcome(algorithm, secret_key@, message@) is Some,
        r matches Ok(sig) ==> sig@ == signing_outcome(algorithm, secret_key@, message@)->0
            && sig@.len() == 64,
        algorithm != SignAlgorithm::Ed25519 ==> (r matches Err(CryptoError::Unsupported(a))
            && a == algorithm),
        algorithm == SignAlgorithm::Ed25519 && secret_key@.len() != 32 ==> (r matches Err(
            CryptoError::Signing(m),
        ) && m@ == "Ed25519 key must be 32 bytes"@),
{
    match algorithm {
        SignAlgorithm::Ed25519 => sign_ed25519(secret_key, message),
        SignAlgorithm::Secp256k1Ecdsa => Err(CryptoError::Unsupported(SignAlgorithm::Secp256k1Ecdsa)),
        SignAlgorithm::Secp256k1Schnorr => Err(
            CryptoError::Unsupported(SignAlgorithm::Secp256k1Schnorr),
        ),
    }
}

fn sign_ed25519(secret_key: &[u8], message: &[u8]) -> (r: Result<Vec<u8>, CryptoError>)
    ensures
        secret_key@.len() == 32 ==> (r matches Ok(sig) && sig@ == ed25519_signature_of(
            secret_key@,
            message@,
        ) && sig@.len() == 64),
        secret_key@.len() != 32 ==> (r matches Err(CryptoError::Signing(m)) && m@
            == "Ed25519 key must be 32 bytes"@),
{
    if secret_key.len() != 32 {
        return Err(CryptoError::Signing(String::from_str("Ed25519 key must be 32 bytes")));
    }
    Ok(ed25519_sign(secret_key, message))
}

/// A range that fits the payload extracts exactly `length` bytes.
pub proof fn lemma_range_extracts_length(payload: Seq<u8>, offset: usize, length: usize)
    requires
        offset + length <= payload.len(),
    ensures
        extracted(payload, Signable::Range { offset, length }) matches Some(bytes)
            && bytes.len() == length,
{
}

/// The empty range at the very end of the payload extracts the empty string.
pub proof fn lemma_empty_range_at_end(payload: Seq<u8>)
    requires
        payload.len() <= usize::MAX,
    ensures
        extracted(payload, Signable::Range { offset: payload.len() as usize, length: 0 })
            == Some(Seq::<u8>::empty()),
{
    assert(payload.subrange(payload.len() as int, payload.len() as int) =~= Seq::<u8>::empty());
}

/// A range that reaches past the payload, or whose end overflows, is refused
/// and reported.
pub proof fn lemma_out_of_bounds_range_refused(payload: Seq<u8>, offset: usize, length: usize)
    requires
        offset + length > payload.len(),
    ensures
        extracted(payload, Signable::Range { offset, length }) is None,
        failing_range(payload.len(), Signable::Range { offset, length }) == Some((offset, length)),
{
}

} // verus!
