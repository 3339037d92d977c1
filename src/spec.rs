//! The signing descriptor: what to sign and how to shape the output.
use vstd::prelude::*;
use vstd::utf8::encode_utf8;

verus! {

/// Source selection for `Signable::HashThenSign`.
#[derive(Debug, Clone, Copy, PartialEq, Eq, Structural)]
pub enum SignableSource {
    Whole,
    Range { offset: usize, length: usize },
}

/// Supported hash algorithms; each yields a 32-byte digest.
#[derive(Debug, Clone, Copy, PartialEq, Eq, Structural)]
pub enum HashAlgorithm {
    Blake2b256,
    Sha256,
    Sha3_256,
}

/// What portion of the payload to sign.
#[derive(Debug, Clone, Copy, PartialEq, Eq, Structural)]
pub enum Signable {
    /// Sign the entire payload as-is.
    Whole,
    /// Sign a byte range within the payload.
    Range { offset: usize, length: usize },
    /// Hash the source bytes first, then sign the digest.
    HashThenSign { hash: HashAlgorithm, source: SignableSource },
}

/// Supported signing algorithms.
#[derive(Debug, Clone, Copy, PartialEq, Eq, Structural)]
pub enum SignAlgorithm {
    Ed25519,
    Secp256k1Ecdsa,
    Secp256k1Schnorr,
}

/// How to produce the final output.
#[derive(Debug, Clone, Copy, PartialEq, Eq, Structural)]
pub enum OutputSpec {
    /// Write just the raw signature bytes.
    SignatureOnly,
    /// Append the signature to the original payload.
    AppendToPayload,
    /// Call the interpreter's `assemble(payload, sig)` entry point.
    WasmAssemble,
}

/// Longest label, in UTF-8 bytes, that a descriptor may carry.
pub const MAX_LABEL_BYTES: usize = 256;

/// Complete signing descriptor, as read from `sign.cbor`.
#[derive(Debug, Clone)]
pub struct SigningSpec {
    pub label: String,
    pub signable: Signable,
    pub algorithm: SignAlgorithm,
    pub key_slot: u8,
    pub output: OutputSpec,
}

/// Mathematical model of a descriptor: the label as characters.
pub struct DescriptorView {
    pub label: Seq<char>,
    pub signable: Signable,
    pub algorithm: SignAlgorithm,
    pub key_slot: u8,
    pub output: OutputSpec,
}

impl DescriptorView {
    /// The label's UTF-8 encoding.
    pub open spec fn label_bytes(self) -> Seq<u8> {
        encode_utf8(self.label)
    }

    /// A descriptor's invariant: the label fits in `MAX_LABEL_BYTES` bytes.
    pub open spec fn wf(self) -> bool {
        self.label_bytes().len() <= MAX_LABEL_BYTES
    }
}

impl View for SigningSpec {
    type V = DescriptorView;

    open spec fn view(&self) -> DescriptorView {
        DescriptorView {
            label: self.label@,
            signable: self.signable,
            algorithm: self.algorithm,
            key_slot: self.key_slot,
            output: self.output,
        }
    }
}

impl PartialEq for SigningSpec {
    fn eq(&self, other: &SigningSpec) -> (r: bool)
        ensures
            r == (self@ == other@),
    {
        self.label == other.label && self.signable == other.signable && self.algorithm
            == other.algorithm && self.key_slot == other.key_slot && self.output == other.output
    }
}

impl vstd::std_specs::cmp::PartialEqSpecImpl for SigningSpec {
    open spec fn obeys_eq_spec() -> bool {
        true
    }

    open spec fn eq_spec(&self, other: &SigningSpec) -> bool {
        self@ == other@
    }
}

} // verus!
