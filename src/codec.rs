//! The descriptor's binary encoding: canonical CBOR, laid out as a serde
//! serialisation of `SigningSpec` would be (maps keyed by field names, unit
//! variants as their names, struct variants as one-entry maps), with every
//! integer in its shortest form. The decoder accepts exactly the canonical form.
use crate::spec::{
    DescriptorView, HashAlgorithm, OutputSpec, SignAlgorithm, Signable, SignableSource,
    SigningSpec, MAX_LABEL_BYTES,
};
use vstd::prelude::*;
use crate::text::string_from_utf8;
use vstd::seq_lib::lemma_concat_associative;
use vstd::slice::{slice_subrange, slice_to_vec};
use vstd::utf8::{decode_utf8, encode_utf8, valid_utf8};

verus! {

/// The fixed pieces of the encoding: map headers, keys and variant names,
/// each with its CBOR header byte.
#[derive(Clone, Copy)]
pub enum Token {
    /// Map of five entries, key "label".
    DescriptorOpen,
    /// Key "signable".
    SignableKey,
    /// Key "algorithm".
    AlgorithmKey,
    /// Key "key_slot".
    KeySlotKey,
    /// Key "output".
    OutputKey,
    /// Variant "Whole".
    Whole,
    /// Variant "Range" opening a map of two entries, key "offset".
    RangeOpen,
    /// Key "length".
    LengthKey,
    /// Variant "HashThenSign" opening a map of two entries, key "hash".
    HashOpen,
    /// Key "source".
    SourceKey,
    /// Variant "Blake2b256".
    Blake2b256,
    /// Variant "Sha256".
    Sha256,
    /// Variant "Sha3_256".
    Sha3_256,
    /// Variant "Ed25519".
    Ed25519,
    /// Variant "Secp256k1Ecdsa".
    Secp256k1Ecdsa,
    /// Variant "Secp256k1Schnorr".
    Secp256k1Schnorr,
    /// Variant "SignatureOnly".
    SignatureOnly,
    /// Variant "AppendToPayload".
    AppendToPayload,
    /// Variant "WasmAssemble".
    WasmAssemble,
}

/// The bytes of each token.
pub open spec fn token(t: Token) -> Seq<u8> {
    match t {
        Token::DescriptorOpen => seq![0xA5u8, 0x65, 0x6C, 0x61, 0x62, 0x65, 0x6C],
        Token::SignableKey => seq![0x68u8, 0x73, 0x69, 0x67, 0x6E, 0x61, 0x62, 0x6C, 0x65],
        Token::AlgorithmKey => seq![0x69u8, 0x61, 0x6C, 0x67, 0x6F, 0x72, 0x69, 0x74, 0x68, 0x6D],
        Token::KeySlotKey => seq![0x68u8, 0x6B, 0x65, 0x79, 0x5F, 0x73, 0x6C, 0x6F, 0x74],
        Token::OutputKey => seq![0x66u8, 0x6F, 0x75, 0x74, 0x70, 0x75, 0x74],
        Token::Whole => seq![0x65u8, 0x57, 0x68, 0x6F, 0x6C, 0x65],
        Token::RangeOpen => seq![0xA1u8, 0x65, 0x52, 0x61, 0x6E, 0x67, 0x65, 0xA2, 0x66, 0x6F, 0x66, 0x66, 0x73, 0x65, 0x74],
        Token::LengthKey => seq![0x66u8, 0x6C, 0x65, 0x6E, 0x67, 0x74, 0x68],
        Token::HashOpen => seq![0xA1u8, 0x6C, 0x48, 0x61, 0x73, 0x68, 0x54, 0x68, 0x65, 0x6E, 0x53, 0x69, 0x67, 0x6E, 0xA2, 0x64, 0x68, 0x61, 0x73, 0x68],
        Token::SourceKey => seq![0x66u8, 0x73, 0x6F, 0x75, 0x72, 0x63, 0x65],
        Token::Blake2b256 => seq![0x6Au8, 0x42, 0x6C, 0x61, 0x6B, 0x65, 0x32, 0x62, 0x32, 0x35, 0x36],
        Token::Sha256 => seq![0x66u8, 0x53, 0x68, 0x61, 0x32, 0x35, 0x36],
        Token::Sha3_256 => seq![0x68u8, 0x53, 0x68, 0x61, 0x33, 0x5F, 0x32, 0x35, 0x36],
        Token::Ed25519 => seq![0x67u8, 0x45, 0x64, 0x32, 0x35, 0x35, 0x31, 0x39],
        Token::Secp256k1Ecdsa => seq![0x6Eu8, 0x53, 0x65, 0x63, 0x70, 0x32, 0x35, 0x36, 0x6B, 0x31, 0x45, 0x63, 0x64, 0x73, 0x61],
        Token::Secp256k1Schnorr => seq![0x70u8, 0x53, 0x65, 0x63, 0x70, 0x32, 0x35, 0x36, 0x6B, 0x31, 0x53, 0x63, 0x68, 0x6E, 0x6F, 0x72, 0x72],
        Token::SignatureOnly => seq![0x6Du8, 0x53, 0x69, 0x67, 0x6E, 0x61, 0x74, 0x75, 0x72, 0x65, 0x4F, 0x6E, 0x6C, 0x79],
        Token::AppendToPayload => seq![0x6Fu8, 0x41, 0x70, 0x70, 0x65, 0x6E, 0x64, 0x54, 0x6F, 0x50, 0x61, 0x79, 0x6C, 0x6F, 0x61, 0x64],
        Token::WasmAssemble => seq![0x6Cu8, 0x57, 0x61, 0x73, 0x6D, 0x41, 0x73, 0x73, 0x65, 0x6D, 0x62, 0x6C, 0x65],
    }
}

/// The bytes of a token, as a fresh vector.
fn token_bytes(t: Token) -> (r: Vec<u8>)
    ensures
        r@ == token(t),
{
    let r: Vec<u8> = match t {
        Token::DescriptorOpen => vec![0xA5u8, 0x65, 0x6C, 0x61, 0x62, 0x65, 0x6C],
        Token::SignableKey => vec![0x68u8, 0x73, 0x69, 0x67, 0x6E, 0x61, 0x62, 0x6C, 0x65],
        Token::AlgorithmKey => vec![0x69u8, 0x61, 0x6C, 0x67, 0x6F, 0x72, 0x69, 0x74, 0x68, 0x6D],
        Token::KeySlotKey => vec![0x68u8, 0x6B, 0x65, 0x79, 0x5F, 0x73, 0x6C, 0x6F, 0x74],
        Token::OutputKey => vec![0x66u8, 0x6F, 0x75, 0x74, 0x70, 0x75, 0x74],
        Token::Whole => vec![0x65u8, 0x57, 0x68, 0x6F, 0x6C, 0x65],
        Token::RangeOpen => vec![0xA1u8, 0x65, 0x52, 0x61, 0x6E, 0x67, 0x65, 0xA2, 0x66, 0x6F, 0x66, 0x66, 0x73, 0x65, 0x74],
        Token::LengthKey => vec![0x66u8, 0x6C, 0x65, 0x6E, 0x67, 0x74, 0x68],
        Token::HashOpen => vec![0xA1u8, 0x6C, 0x48, 0x61, 0x73, 0x68, 0x54, 0x68, 0x65, 0x6E, 0x53, 0x69, 0x67, 0x6E, 0xA2, 0x64, 0x68, 0x61, 0x73, 0x68],
        Token::SourceKey => vec![0x66u8, 0x73, 0x6F, 0x75, 0x72, 0x63, 0x65],
        Token::Blake2b256 => vec![0x6Au8, 0x42, 0x6C, 0x61, 0x6B, 0x65, 0x32, 0x62, 0x32, 0x35, 0x36],
        Token::Sha256 => vec![0x66u8, 0x53, 0x68, 0x61, 0x32, 0x35, 0x36],
        Token::Sha3_256 => vec![0x68u8, 0x53, 0x68, 0x61, 0x33, 0x5F, 0x32, 0x35, 0x36],
        Token::Ed25519 => vec![0x67u8, 0x45, 0x64, 0x32, 0x35, 0x35, 0x31, 0x39],
        Token::Secp256k1Ecdsa => vec![0x6Eu8, 0x53, 0x65, 0x63, 0x70, 0x32, 0x35, 0x36, 0x6B, 0x31, 0x45, 0x63, 0x64, 0x73, 0x61],
        Token::Secp256k1Schnorr => vec![0x70u8, 0x53, 0x65, 0x63, 0x70, 0x32, 0x35, 0x36, 0x6B, 0x31, 0x53, 0x63, 0x68, 0x6E, 0x6F, 0x72, 0x72],
        Token::SignatureOnly => vec![0x6Du8, 0x53, 0x69, 0x67, 0x6E, 0x61, 0x74, 0x75, 0x72, 0x65, 0x4F, 0x6E, 0x6C, 0x79],
        Token::AppendToPayload => vec![0x6Fu8, 0x41, 0x70, 0x70, 0x65, 0x6E, 0x64, 0x54, 0x6F, 0x50, 0x61, 0x79, 0x6C, 0x6F, 0x61, 0x64],
        Token::WasmAssemble => vec![0x6Cu8, 0x57, 0x61, 0x73, 0x6D, 0x41, 0x73, 0x73, 0x65, 0x6D, 0x62, 0x6C, 0x65],
    };
    assert(r@ =~= token(t));
    r
}

/// `256^k`.
pub open spec fn pow256(k: nat) -> nat
    decreases k,
{
    if k == 0 {
        1
    } else {
        256 * pow256((k - 1) as nat)
    }
}

/// The `k` low bytes of `n`, most significant first.
pub open spec fn be_bytes(n: nat, k: nat) -> Seq<u8>
    decreases k,
{
    if k == 0 {
        Seq::empty()
    } else {
        be_bytes(n / 256, (k - 1) as nat).push((n % 256) as u8)
    }
}

/// The number that bytes spell, most significant first.
pub open spec fn be_value(s: Seq<u8>) -> nat
    decreases s.len(),
{
    if s.len() == 0 {
        0
    } else {
        (be_value(s.drop_last()) * 256 + s.last()) as nat
    }
}

/// The shortest CBOR header of major type `major` carrying `n`.
pub open spec fn head(major: u8, n: nat) -> Seq<u8> {
    let base = major * 32;
    if n < 24 {
        seq![(base + n) as u8]
    } else if n < 0x100 {
        seq![(base + 24) as u8, n as u8]
    } else if n < 0x1_0000 {
        seq![(base + 25) as u8] + be_bytes(n, 2)
    } else if n < 0x1_0000_0000 {
        seq![(base + 26) as u8] + be_bytes(n, 4)
    } else {
        seq![(base + 27) as u8] + be_bytes(n, 8)
    }
}

/// An unsigned integer.
pub open spec fn enc_uint(n: nat) -> Seq<u8> {
    head(0, n)
}

/// A text string of the given UTF-8 bytes.
pub open spec fn enc_text(t: Seq<u8>) -> Seq<u8> {
    head(3, t.len()) + t
}

pub open spec fn enc_range(offset: usize, length: usize) -> Seq<u8> {
    token(Token::RangeOpen) + (enc_uint(offset as nat) + (token(Token::LengthKey) + enc_uint(
        length as nat,
    )))
}

pub open spec fn enc_source(s: SignableSource) -> Seq<u8> {
    match s {
        SignableSource::Whole => token(Token::Whole),
        SignableSource::Range { offset, length } => enc_range(offset, length),
    }
}

pub open spec fn enc_hash(h: HashAlgorithm) -> Seq<u8> {
    match h {
        HashAlgorithm::Blake2b256 => token(Token::Blake2b256),
        HashAlgorithm::Sha256 => token(Token::Sha256),
        HashAlgorithm::Sha3_256 => token(Token::Sha3_256),
    }
}

pub open spec fn enc_signable(s: Signable) -> Seq<u8> {
    match s {
        Signable::Whole => token(Token::Whole),
        Signable::Range { offset, length } => enc_range(offset, length),
        Signable::HashThenSign { hash, source } => token(Token::HashOpen) + (enc_hash(hash) + (
        token(Token::SourceKey) + enc_source(source))),
    }
}

pub open spec fn enc_algorithm(a: SignAlgorithm) -> Seq<u8> {
    match a {
        SignAlgorithm::Ed25519 => token(Token::Ed25519),
        SignAlgorithm::Secp256k1Ecdsa => token(Token::Secp256k1Ecdsa),
        SignAlgorithm::Secp256k1Schnorr => token(Token::Secp256k1Schnorr),
    }
}

pub open spec fn enc_output(o: OutputSpec) -> Seq<u8> {
    match o {
        OutputSpec::SignatureOnly => token(Token::SignatureOnly),
        OutputSpec::AppendToPayload => token(Token::AppendToPayload),
        OutputSpec::WasmAssemble => token(Token::WasmAssemble),
    }
}

/// The encoding of a descriptor.
pub open spec fn encode_descriptor(d: DescriptorView) -> Seq<u8> {
    token(Token::DescriptorOpen) + (enc_text(d.label_bytes()) + (token(Token::SignableKey) + (
    enc_signable(d.signable) + (token(Token::AlgorithmKey) + (enc_algorithm(d.algorithm) + (
    token(Token::KeySlotKey) + (enc_uint(d.key_slot as nat) + (token(Token::OutputKey)
        + enc_output(d.output)))))))))
}

// Decoding: each step reads from the front and hands back what follows.

/// The major type, the value and the rest, if `b` starts with a shortest header.
pub open spec fn parse_head(b: Seq<u8>) -> Option<(u8, nat, Seq<u8>)> {
    if b.len() == 0 {
        None
    } else {
        let major = b[0] / 32;
        let info = b[0] % 32;
        if info < 24 {
            Some((major, info as nat, b.subrange(1, b.len() as int)))
        } else if info == 24 && b.len() >= 2 && b[1] >= 24 {
            Some((major, b[1] as nat, b.subrange(2, b.len() as int)))
        } else if info == 25 && b.len() >= 3 && be_value(b.subrange(1, 3)) >= 0x100 {
            Some((major, be_value(b.subrange(1, 3)), b.subrange(3, b.len() as int)))
        } else if info == 26 && b.len() >= 5 && be_value(b.subrange(1, 5)) >= 0x1_0000 {
            Some((major, be_value(b.subrange(1, 5)), b.subrange(5, b.len() as int)))
        } else if info == 27 && b.len() >= 9 && be_value(b.subrange(1, 9)) >= 0x1_0000_0000 {
            Some((major, be_value(b.subrange(1, 9)), b.subrange(9, b.len() as int)))
        } else {
            None
        }
    }
}

pub open spec fn parse_uint(b: Seq<u8>) -> Option<(nat, Seq<u8>)> {
    match parse_head(b) {
        Some((major, n, rest)) => if major == 0 {
            Some((n, rest))
        } else {
            None
        },
        None => None,
    }
}

pub open spec fn parse_text(b: Seq<u8>) -> Option<(Seq<u8>, Seq<u8>)> {
    match parse_head(b) {
        Some((major, n, rest)) => if major == 3 && n <= rest.len() {
            Some((rest.subrange(0, n as int), rest.subrange(n as int, rest.len() as int)))
        } else {
            None
        },
        None => None,
    }
}

/// What follows `token(t)`, if `b` starts with it.
pub open spec fn parse_token(b: Seq<u8>, t: Token) -> Option<Seq<u8>> {
    let k = token(t).len();
    if k <= b.len() && b.subrange(0, k as int) == token(t) {
        Some(b.subrange(k as int, b.len() as int))
    } else {
        None
    }
}

/// An unsigned integer that fits a `usize`.
pub open spec fn parse_usize(b: Seq<u8>) -> Option<(usize, Seq<u8>)> {
    match parse_uint(b) {
        Some((n, rest)) => if n <= usize::MAX {
            Some((n as usize, rest))
        } else {
            None
        },
        None => None,
    }
}

/// The body of a range, after `RangeOpen`.
pub open spec fn parse_range_body(b: Seq<u8>) -> Option<(usize, usize, Seq<u8>)> {
    match parse_usize(b) {
        Some((offset, r1)) => match parse_token(r1, Token::LengthKey) {
            Some(r2) => match parse_usize(r2) {
                Some((length, r3)) => Some((offset, length, r3)),
                None => None,
            },
            None => None,
        },
        None => None,
    }
}

pub open spec fn parse_source(b: Seq<u8>) -> Option<(SignableSource, Seq<u8>)> {
    if let Some(rest) = parse_token(b, Token::Whole) {
        Some((SignableSource::Whole, rest))
    } else if let Some(r1) = parse_token(b, Token::RangeOpen) {
        match parse_range_body(r1) {
            Some((offset, length, rest)) => Some((SignableSource::Range { offset, length }, rest)),
            None => None,
        }
    } else {
        None
    }
}

pub open spec fn parse_hash(b: Seq<u8>) -> Option<(HashAlgorithm, Seq<u8>)> {
    if let Some(rest) = parse_token(b, Token::Blake2b256) {
        Some((HashAlgorithm::Blake2b256, rest))
    } else if let Some(rest) = parse_token(b, Token::Sha256) {
        Some((HashAlgorithm::Sha256, rest))
    } else if let Some(rest) = parse_token(b, Token::Sha3_256) {
        Some((HashAlgorithm::Sha3_256, rest))
    } else {
        None
    }
}

/// The body of a hash-then-sign selection, after `HashOpen`.
pub open spec fn parse_hash_body(b: Seq<u8>) -> Option<(HashAlgorithm, SignableSource, Seq<u8>)> {
    match parse_hash(b) {
        Some((hash, r2)) => match parse_token(r2, Token::SourceKey) {
            Some(r3) => match parse_source(r3) {
                Some((source, rest)) => Some((hash, source, rest)),
                None => None,
            },
            None => None,
        },
        None => None,
    }
}

pub open spec fn parse_signable(b: Seq<u8>) -> Option<(Signable, Seq<u8>)> {
    if let Some(rest) = parse_token(b, Token::Whole) {
        Some((Signable::Whole, rest))
    } else if let Some(r1) = parse_token(b, Token::RangeOpen) {
        match parse_range_body(r1) {
            Some((offset, length, rest)) => Some((Signable::Range { offset, length }, rest)),
            None => None,
        }
    } else if let Some(r1) = parse_token(b, Token::HashOpen) {
        match parse_hash_body(r1) {
            Some((hash, source, rest)) => Some((Signable::HashThenSign { hash, source }, rest)),
            None => None,
        }
    } else {
        None
    }
}

pub open spec fn parse_algorithm(b: Seq<u8>) -> Option<(SignAlgorithm, Seq<u8>)> {
    if let Some(rest) = parse_token(b, Token::Ed25519) {
        Some((SignAlgorithm::Ed25519, rest))
    } else if let Some(rest) = parse_token(b, Token::Secp256k1Ecdsa) {
        Some((SignAlgorithm::Secp256k1Ecdsa, rest))
    } else if let Some(rest) = parse_token(b, Token::Secp256k1Schnorr) {
        Some((SignAlgorithm::Secp256k1Schnorr, rest))
    } else {
        None
    }
}

pub open spec fn parse_output(b: Seq<u8>) -> Option<(OutputSpec, Seq<u8>)> {
    if let Some(rest) = parse_token(b, Token::SignatureOnly) {
        Some((OutputSpec::SignatureOnly, rest))
    } else if let Some(rest) = parse_token(b, Token::AppendToPayload) {
        Some((OutputSpec::AppendToPayload, rest))
    } else if let Some(rest) = parse_token(b, Token::WasmAssemble) {
        Some((OutputSpec::WasmAssemble, rest))
    } else {
        None
    }
}

/// The label, if `b` starts with a text string of valid UTF-8 within the
/// label limit.
pub open spec fn parse_label(b: Seq<u8>) -> Option<(Seq<char>, Seq<u8>)> {
    match parse_text(b) {
        Some((t, rest)) => if t.len() <= MAX_LABEL_BYTES && valid_utf8(t) {
            Some((decode_utf8(t), rest))
        } else {
            None
        },
        None => None,
    }
}

/// The descriptor that `b` encodes, if `b` is the canonical encoding of one,
/// with nothing after it.
pub open spec fn decode_descriptor(b: Seq<u8>) -> Option<DescriptorView> {
    match parse_token(b, Token::DescriptorOpen) {
        Some(r1) => match parse_label(r1) {
            Some((label, r2)) => match parse_token(r2, Token::SignableKey) {
                Some(r3) => match parse_signable(r3) {
                    Some((signable, r4)) => match parse_token(r4, Token::AlgorithmKey) {
                        Some(r5) => match parse_algorithm(r5) {
                            Some((algorithm, r6)) => match parse_token(r6, Token::KeySlotKey) {
                                Some(r7) => match parse_uint(r7) {
                                    Some((slot, r8)) => if slot <= 255 {
                                        match parse_token(r8, Token::OutputKey) {
                                            Some(r9) => match parse_output(r9) {
                                                Some((output, r10)) => if r10.len() == 0 {
                                                    Some(
                                                        DescriptorView {
                                                            label,
                                                            signable,
                                                            algorithm,
                                                            key_slot: slot as u8,
                                                            output,
                                                        },
                                                    )
                                                } else {
                                                    None
                                                },
                                                None => None,
                                            },
                                            None => None,
                                        }
                                    } else {
                                        None
                                    },
                                    None => None,
                                },
                                None => None,
                            },
                            None => None,
                        },
                        None => None,
                    },
                    None => None,
                },
                None => None,
            },
            None => None,
        },
        None => None,
    }
}

// Round-trip lemmas, from the primitives up.

proof fn lemma_be_round_trip(n: nat, k: nat)
    requires
        n < pow256(k),
    ensures
        be_bytes(n, k).len() == k,
        be_value(be_bytes(n, k)) == n,
    decreases k,
{
    if k > 0 {
        let k1 = (k - 1) as nat;
        assert(n / 256 < pow256(k1)) by (nonlinear_arith)
            requires
                n < 256 * pow256(k1),
        ;
        lemma_be_round_trip(n / 256, k1);
        assert(be_bytes(n, k).drop_last() =~= be_bytes(n / 256, k1));
        assert(n == (n / 256) * 256 + n % 256) by (nonlinear_arith);
    }
}

proof fn lemma_pow256_values()
    ensures
        pow256(2) == 0x1_0000,
        pow256(4) == 0x1_0000_0000,
        pow256(8) == 0x1_0000_0000_0000_0000,
{
    reveal_with_fuel(pow256, 9);
}

proof fn lemma_head_round_trip(major: u8, n: nat, rest: Seq<u8>)
    requires
        major < 8,
        n < 0x1_0000_0000_0000_0000,
    ensures
        parse_head(head(major, n) + rest) == Some((major, n, rest)),
{
    let b = head(major, n) + rest;
    let base = major * 32;
    lemma_pow256_values();
    if n < 24 {
        assert((base + n) / 32 == major && (base + n) % 32 == n) by (nonlinear_arith)
            requires base == major * 32, n < 24;
        assert(b.subrange(1, b.len() as int) =~= rest);
    } else if n < 0x100 {
        assert((base + 24) / 32 == major && (base + 24) % 32 == 24) by (nonlinear_arith)
            requires base == major * 32;
        assert(b.subrange(2, b.len() as int) =~= rest);
    } else if n < 0x1_0000 {
        assert((base + 25) / 32 == major && (base + 25) % 32 == 25) by (nonlinear_arith)
            requires base == major * 32;
        lemma_be_round_trip(n, 2);
        assert(b.subrange(1, 3) =~= be_bytes(n, 2));
        assert(b.subrange(3, b.len() as int) =~= rest);
    } else if n < 0x1_0000_0000 {
        assert((base + 26) / 32 == major && (base + 26) % 32 == 26) by (nonlinear_arith)
            requires base == major * 32;
        lemma_be_round_trip(n, 4);
        assert(b.subrange(1, 5) =~= be_bytes(n, 4));
        assert(b.subrange(5, b.len() as int) =~= rest);
    } else {
        assert((base + 27) / 32 == major && (base + 27) % 32 == 27) by (nonlinear_arith)
            requires base == major * 32;
        lemma_be_round_trip(n, 8);
        assert(b.subrange(1, 9) =~= be_bytes(n, 8));
        assert(b.subrange(9, b.len() as int) =~= rest);
    }
}

proof fn lemma_token_round_trip(t: Token, rest: Seq<u8>)
    ensures
        parse_token(token(t) + rest, t) == Some(rest),
{
    let b = token(t) + rest;
    assert(b.subrange(0, token(t).len() as int) =~= token(t));
    assert(b.subrange(token(t).len() as int, b.len() as int) =~= rest);
}

/// A token is refused where one byte differs.
proof fn lemma_token_differs(b: Seq<u8>, t: Token, i: int)
    requires
        0 <= i < token(t).len(),
        i < b.len(),
        b[i] != token(t)[i],
    ensures
        parse_token(b, t) is None,
{
    if token(t).len() <= b.len() {
        assert(b.subrange(0, token(t).len() as int)[i] == b[i]);
    }
}

proof fn lemma_uint_round_trip(n: nat, rest: Seq<u8>)
    requires
        n < 0x1_0000_0000_0000_0000,
    ensures
        parse_uint(enc_uint(n) + rest) == Some((n, rest)),
{
    lemma_head_round_trip(0, n, rest);
}

proof fn lemma_text_round_trip(t: Seq<u8>, rest: Seq<u8>)
    requires
        t.len() < 0x1_0000_0000_0000_0000,
    ensures
        parse_text(enc_text(t) + rest) == Some((t, rest)),
{
    let tail = t + rest;
    assert(enc_text(t) + rest =~= head(3, t.len()) + tail);
    lemma_head_round_trip(3, t.len(), tail);
    assert(tail.subrange(0, t.len() as int) =~= t);
    assert(tail.subrange(t.len() as int, tail.len() as int) =~= rest);
}

pub open spec fn range_body_then(offset: usize, length: usize, rest: Seq<u8>) -> Seq<u8> {
    enc_uint(offset as nat) + (token(Token::LengthKey) + (enc_uint(length as nat) + rest))
}

proof fn lemma_range_round_trip(offset: usize, length: usize, rest: Seq<u8>)
    ensures
        parse_token(enc_range(offset, length) + rest, Token::RangeOpen) == Some(
            range_body_then(offset, length, rest),
        ),
        parse_range_body(range_body_then(offset, length, rest)) == Some((offset, length, rest)),
{
    let r3 = enc_uint(length as nat) + rest;
    let r2 = token(Token::LengthKey) + r3;
    let r1 = enc_uint(offset as nat) + r2;
    assert(enc_range(offset, length) + rest =~= token(Token::RangeOpen) + r1);
    lemma_token_round_trip(Token::RangeOpen, r1);
    lemma_uint_round_trip(offset as nat, r2);
    lemma_token_round_trip(Token::LengthKey, r3);
    lemma_uint_round_trip(length as nat, rest);
}

proof fn lemma_source_round_trip(s: SignableSource, rest: Seq<u8>)
    ensures
        parse_source(enc_source(s) + rest) == Some((s, rest)),
{
    match s {
        SignableSource::Whole => lemma_token_round_trip(Token::Whole, rest),
        SignableSource::Range { offset, length } => lemma_source_range_round_trip(offset, length, rest),
    }
}

#[verifier::rlimit(30)]
proof fn lemma_source_range_round_trip(offset: usize, length: usize, rest: Seq<u8>)
    ensures
        parse_source(enc_range(offset, length) + rest) == Some(
            (SignableSource::Range { offset, length }, rest),
        ),
{
    let b = enc_range(offset, length) + rest;
    lemma_range_round_trip(offset, length, rest);
    lemma_token_differs(b, Token::Whole, 0);
    let r1 = range_body_then(offset, length, rest);
    assert(parse_token(b, Token::Whole) is None);
    assert(parse_token(b, Token::RangeOpen) == Some(r1));
    assert(parse_range_body(r1) == Some((offset, length, rest)));
}

proof fn lemma_hash_round_trip(h: HashAlgorithm, rest: Seq<u8>)
    ensures
        parse_hash(enc_hash(h) + rest) == Some((h, rest)),
{
    let b = enc_hash(h) + rest;
    match h {
        HashAlgorithm::Blake2b256 => lemma_token_round_trip(Token::Blake2b256, rest),
        HashAlgorithm::Sha256 => {
            lemma_token_differs(b, Token::Blake2b256, 0);
            lemma_token_round_trip(Token::Sha256, rest);
        },
        HashAlgorithm::Sha3_256 => {
            lemma_token_differs(b, Token::Blake2b256, 0);
            lemma_token_differs(b, Token::Sha256, 0);
            lemma_token_round_trip(Token::Sha3_256, rest);
        },
    }
}

#[verifier::rlimit(30)]
proof fn lemma_signable_round_trip(s: Signable, rest: Seq<u8>)
    ensures
        parse_signable(enc_signable(s) + rest) == Some((s, rest)),
{
    let b = enc_signable(s) + rest;
    match s {
        Signable::Whole => lemma_token_round_trip(Token::Whole, rest),
        Signable::Range { offset, length } => {
            lemma_range_round_trip(offset, length, rest);
            lemma_token_differs(b, Token::Whole, 0);
        },
        Signable::HashThenSign { hash, source } => {
            let r3 = enc_source(source) + rest;
            let r2 = token(Token::SourceKey) + r3;
            let r1 = enc_hash(hash) + r2;
            assert(b =~= token(Token::HashOpen) + r1);
            lemma_token_differs(b, Token::Whole, 0);
            lemma_token_differs(b, Token::RangeOpen, 1);
            lemma_token_round_trip(Token::HashOpen, r1);
            lemma_hash_round_trip(hash, r2);
            lemma_token_round_trip(Token::SourceKey, r3);
            lemma_source_round_trip(source, rest);
        },
    }
}

proof fn lemma_algorithm_round_trip(a: SignAlgorithm, rest: Seq<u8>)
    ensures
        parse_algorithm(enc_algorithm(a) + rest) == Some((a, rest)),
{
    let b = enc_algorithm(a) + rest;
    match a {
        SignAlgorithm::Ed25519 => lemma_token_round_trip(Token::Ed25519, rest),
        SignAlgorithm::Secp256k1Ecdsa => {
            lemma_token_differs(b, Token::Ed25519, 0);
            lemma_token_round_trip(Token::Secp256k1Ecdsa, rest);
        },
        SignAlgorithm::Secp256k1Schnorr => {
            lemma_token_differs(b, Token::Ed25519, 0);
            lemma_token_differs(b, Token::Secp256k1Ecdsa, 0);
            lemma_token_round_trip(Token::Secp256k1Schnorr, rest);
        },
    }
}

proof fn lemma_output_round_trip(o: OutputSpec, rest: Seq<u8>)
    ensures
        parse_output(enc_output(o) + rest) == Some((o, rest)),
{
    let b = enc_output(o) + rest;
    match o {
        OutputSpec::SignatureOnly => lemma_token_round_trip(Token::SignatureOnly, rest),
        OutputSpec::AppendToPayload => {
            lemma_token_differs(b, Token::SignatureOnly, 0);
            lemma_token_round_trip(Token::AppendToPayload, rest);
        },
        OutputSpec::WasmAssemble => {
            lemma_token_differs(b, Token::SignatureOnly, 0);
            lemma_token_differs(b, Token::AppendToPayload, 0);
            lemma_token_round_trip(Token::WasmAssemble, rest);
        },
    }
}

/// Decoding an encoded descriptor gives the descriptor back: for every
/// descriptor whose label is within the limit, `decode(encode(d)) == d`.
#[verifier::rlimit(30)]
pub proof fn lemma_descriptor_round_trip(d: DescriptorView)
    requires
        d.wf(),
    ensures
        decode_descriptor(encode_descriptor(d)) == Some(d),
{
    broadcast use vstd::utf8::encode_utf8_valid_utf8, vstd::utf8::encode_utf8_decode_utf8;

    let r10 = Seq::<u8>::empty();
    let r9 = enc_output(d.output);
    let r8 = token(Token::OutputKey) + r9;
    let r7 = enc_uint(d.key_slot as nat) + r8;
    let r6 = token(Token::KeySlotKey) + r7;
    let r5 = enc_algorithm(d.algorithm) + r6;
    let r4 = token(Token::AlgorithmKey) + r5;
    let r3 = enc_signable(d.signable) + r4;
    let r2 = token(Token::SignableKey) + r3;
    let r1 = enc_text(d.label_bytes()) + r2;
    lemma_token_round_trip(Token::DescriptorOpen, r1);
    lemma_text_round_trip(d.label_bytes(), r2);
    lemma_token_round_trip(Token::SignableKey, r3);
    lemma_signable_round_trip(d.signable, r4);
    lemma_token_round_trip(Token::AlgorithmKey, r5);
    lemma_algorithm_round_trip(d.algorithm, r6);
    lemma_token_round_trip(Token::KeySlotKey, r7);
    lemma_uint_round_trip(d.key_slot as nat, r8);
    lemma_token_round_trip(Token::OutputKey, r9);
    assert(r9 =~= r9 + r10);
    lemma_output_round_trip(d.output, r10);
}

// Executable encoder.

/// Why a descriptor could not be encoded or decoded.
#[derive(Debug, Clone, Copy, PartialEq, Eq, Structural)]
pub enum DescriptorError {
    /// The label is longer than `MAX_LABEL_BYTES` bytes.
    LabelTooLong,
    /// The bytes are not the canonical encoding of a descriptor.
    Malformed,
}

proof fn lemma_pow256_mono(i: nat, j: nat)
    requires
        i <= j,
    ensures
        pow256(i) <= pow256(j),
    decreases j,
{
    if i < j {
        lemma_pow256_mono(i, (j - 1) as nat);
    }
}

fn push_token(out: &mut Vec<u8>, t: Token)
    ensures
        final(out)@ == old(out)@ + token(t),
{
    let mut bytes = token_bytes(t);
    out.append(&mut bytes);
}

fn push_be(out: &mut Vec<u8>, n: u64, k: usize)
    ensures
        final(out)@ == old(out)@ + be_bytes(n as nat, k as nat),
    decreases k,
{
    if k > 0 {
        let ghost before = out@;
        push_be(out, n / 256, k - 1);
        out.push((n % 256) as u8);
        assert(out@ =~= before + be_bytes(n as nat, k as nat));
    } else {
        assert(out@ =~= out@ + be_bytes(n as nat, k as nat));
    }
}

fn push_head(out: &mut Vec<u8>, major: u8, n: u64)
    requires
        major < 8,
    ensures
        final(out)@ == old(out)@ + head(major, n as nat),
{
    let ghost before = out@;
    let base: u8 = major * 32;
    if n < 24 {
        out.push(base + n as u8);
    } else if n < 0x100 {
        out.push(base + 24);
        out.push(n as u8);
    } else if n < 0x1_0000 {
        out.push(base + 25);
        push_be(out, n, 2);
    } else if n < 0x1_0000_0000 {
        out.push(base + 26);
        push_be(out, n, 4);
    } else {
        out.push(base + 27);
        push_be(out, n, 8);
    }
    assert(out@ =~= before + head(major, n as nat));
}

fn push_text(out: &mut Vec<u8>, t: &[u8])
    ensures
        final(out)@ == old(out)@ + enc_text(t@),
{
    let ghost before = out@;
    push_head(out, 3, t.len() as u64);
    out.extend_from_slice(t);
    assert(out@ =~= before + enc_text(t@));
}

fn push_range(out: &mut Vec<u8>, offset: usize, length: usize)
    ensures
        final(out)@ == old(out)@ + enc_range(offset, length),
{
    let ghost before = out@;
    push_token(out, Token::RangeOpen);
    push_head(out, 0, offset as u64);
    push_token(out, Token::LengthKey);
    push_head(out, 0, length as u64);
    assert(out@ =~= before + enc_range(offset, length));
}

fn hash_token(h: HashAlgorithm) -> (t: Token)
    ensures
        token(t) == enc_hash(h),
{
    match h {
        HashAlgorithm::Blake2b256 => Token::Blake2b256,
        HashAlgorithm::Sha256 => Token::Sha256,
        HashAlgorithm::Sha3_256 => Token::Sha3_256,
    }
}

fn algorithm_token(a: SignAlgorithm) -> (t: Token)
    ensures
        token(t) == enc_algorithm(a),
{
    match a {
        SignAlgorithm::Ed25519 => Token::Ed25519,
        SignAlgorithm::Secp256k1Ecdsa => Token::Secp256k1Ecdsa,
        SignAlgorithm::Secp256k1Schnorr => Token::Secp256k1Schnorr,
    }
}

fn output_token(o: OutputSpec) -> (t: Token)
    ensures
        token(t) == enc_output(o),
{
    match o {
        OutputSpec::SignatureOnly => Token::SignatureOnly,
        OutputSpec::AppendToPayload => Token::AppendToPayload,
        OutputSpec::WasmAssemble => Token::WasmAssemble,
    }
}

fn push_signable(out: &mut Vec<u8>, s: Signable)
    ensures
        final(out)@ == old(out)@ + enc_signable(s),
{
    let ghost before = out@;
    match s {
        Signable::Whole => push_token(out, Token::Whole),
        Signable::Range { offset, length } => push_range(out, offset, length),
        Signable::HashThenSign { hash, source } => {
            push_token(out, Token::HashOpen);
            push_token(out, hash_token(hash));
            push_token(out, Token::SourceKey);
            match source {
                SignableSource::Whole => push_token(out, Token::Whole),
                SignableSource::Range { offset, length } => push_range(out, offset, length),
            }
            assert(out@ =~= before + enc_signable(s));
        },
    }
}

// Executable decoder. Each reader takes the input from its front and reports
// how many bytes it used.

proof fn lemma_be_value_step(b: Seq<u8>, i: int)
    requires
        1 <= i < b.len(),
    ensures
        be_value(b.subrange(1, i + 1)) == be_value(b.subrange(1, i)) * 256 + b[i],
{
    assert(b.subrange(1, i + 1).drop_last() =~= b.subrange(1, i));
}

fn read_be(b: &[u8], k: usize) -> (v: u64)
    requires
        k <= 8,
        1 + k <= b@.len(),
    ensures
        v as nat == be_value(b@.subrange(1, 1 + k as int)),
{
    let mut v: u64 = 0;
    let mut i: usize = 0;
    while i < k
        invariant
            i <= k <= 8,
            1 + k <= b@.len(),
            v as nat == be_value(b@.subrange(1, 1 + i as int)),
            (v as nat) < pow256(i as nat),
        decreases k - i,
    {
        proof {
            lemma_be_value_step(b@, 1 + i as int);
            lemma_pow256_mono((i + 1) as nat, 8);
            lemma_pow256_values();
            assert(v * 256 + b@[1 + i as int] < 256 * pow256(i as nat)) by (nonlinear_arith)
                requires
                    v < pow256(i as nat),
                    b@[1 + i as int] < 256,
            ;
        }
        v = v * 256 + b[1 + i] as u64;
        i = i + 1;
    }
    assert(b@.subrange(1, 1) =~= Seq::<u8>::empty());
    v
}

fn read_head(b: &[u8]) -> (r: Option<(u8, u64, usize)>)
    ensures
        r is Some <==> parse_head(b@) is Some,
        r matches Some((major, n, used)) ==> used <= b@.len() && parse_head(b@) == Some(
            (major, n as nat, b@.subrange(used as int, b@.len() as int)),
        ),
{
    if b.len() == 0 {
        return None;
    }
    let major = b[0] / 32;
    let info = b[0] % 32;
    if info < 24 {
        Some((major, info as u64, 1))
    } else if info == 24 {
        if b.len() >= 2 && b[1] >= 24 {
            proof {
                lemma_be_value_step(b@, 1);
            }
            Some((major, b[1] as u64, 2))
        } else {
            None
        }
    } else if info == 25 {
        if b.len() >= 3 {
            let v = read_be(b, 2);
            if v >= 0x100 {
                Some((major, v, 3))
            } else {
                None
            }
        } else {
            None
        }
    } else if info == 26 {
        if b.len() >= 5 {
            let v = read_be(b, 4);
            if v >= 0x1_0000 {
                Some((major, v, 5))
            } else {
                None
            }
        } else {
            None
        }
    } else if info == 27 {
        if b.len() >= 9 {
            let v = read_be(b, 8);
            if v >= 0x1_0000_0000 {
                Some((major, v, 9))
            } else {
                None
            }
        } else {
            None
        }
    } else {
        None
    }
}

fn read_uint(b: &[u8]) -> (r: Option<(u64, usize)>)
    ensures
        r is Some <==> parse_uint(b@) is Some,
        r matches Some((n, used)) ==> used <= b@.len() && parse_uint(b@) == Some(
            (n as nat, b@.subrange(used as int, b@.len() as int)),
        ),
{
    match read_head(b) {
        Some((major, n, used)) => if major == 0 {
            Some((n, used))
        } else {
            None
        },
        None => None,
    }
}

fn read_usize(b: &[u8]) -> (r: Option<(usize, usize)>)
    ensures
        r is Some <==> parse_usize(b@) is Some,
        r matches Some((n, used)) ==> used <= b@.len() && parse_usize(b@) == Some(
            (n, b@.subrange(used as int, b@.len() as int)),
        ),
{
    match read_uint(b) {
        Some((n, used)) => if n <= usize::MAX as u64 {
            Some((n as usize, used))
        } else {
            None
        },
        None => None,
    }
}

/// The text's bounds within `b`, and the bytes used.
fn read_text(b: &[u8]) -> (r: Option<(usize, usize)>)
    ensures
        r is Some <==> parse_text(b@) is Some,
        r matches Some((start, end)) ==> start <= end <= b@.len() && parse_text(b@) == Some(
            (b@.subrange(start as int, end as int), b@.subrange(end as int, b@.len() as int)),
        ),
{
    match read_head(b) {
        Some((major, n, used)) => {
            let ghost rest = b@.subrange(used as int, b@.len() as int);
            if major == 3 && n <= (b.len() - used) as u64 {
                let end = used + n as usize;
                assert(rest.subrange(0, n as int) =~= b@.subrange(used as int, end as int));
                assert(rest.subrange(n as int, rest.len() as int) =~= b@.subrange(
                    end as int,
                    b@.len() as int,
                ));
                Some((used, end))
            } else {
                None
            }
        },
        None => None,
    }
}

/// The length of `token(t)`, if `b` starts with it.
fn read_token(b: &[u8], t: Token) -> (r: Option<usize>)
    ensures
        r is Some <==> parse_token(b@, t) is Some,
        r matches Some(used) ==> used <= b@.len() && parse_token(b@, t) == Some(
            b@.subrange(used as int, b@.len() as int),
        ),
{
    let tok = token_bytes(t);
    if tok.len() > b.len() {
        return None;
    }
    let mut i: usize = 0;
    while i < tok.len()
        invariant
            i <= tok@.len() <= b@.len(),
            tok@ == token(t),
            forall|j: int| 0 <= j < i ==> b@[j] == tok@[j],
        decreases tok@.len() - i,
    {
        if b[i] != tok[i] {
            assert(b@.subrange(0, tok@.len() as int)[i as int] == b@[i as int]);
            return None;
        }
        i = i + 1;
    }
    assert(b@.subrange(0, tok@.len() as int) =~= tok@);
    Some(tok.len())
}

fn read_range_body(b: &[u8]) -> (r: Option<(usize, usize, usize)>)
    ensures
        r is Some <==> parse_range_body(b@) is Some,
        r matches Some((offset, length, used)) ==> used <= b@.len() && parse_range_body(b@)
            == Some((offset, length, b@.subrange(used as int, b@.len() as int))),
{
    let (offset, u1) = match read_usize(b) {
        Some(x) => x,
        None => return None,
    };
    let b1 = slice_subrange(b, u1, b.len());
    let u2 = match read_token(b1, Token::LengthKey) {
        Some(x) => x,
        None => return None,
    };
    let b2 = slice_subrange(b1, u2, b1.len());
    let (length, u3) = match read_usize(b2) {
        Some(x) => x,
        None => return None,
    };
    assert(b2@.subrange(u3 as int, b2@.len() as int) =~= b@.subrange(
        (u1 + u2 + u3) as int,
        b@.len() as int,
    ));
    Some((offset, length, u1 + u2 + u3))
}

fn read_source(b: &[u8]) -> (r: Option<(SignableSource, usize)>)
    ensures
        r is Some <==> parse_source(b@) is Some,
        r matches Some((s, used)) ==> used <= b@.len() && parse_source(b@) == Some(
            (s, b@.subrange(used as int, b@.len() as int)),
        ),
{
    if let Some(used) = read_token(b, Token::Whole) {
        return Some((SignableSource::Whole, used));
    }
    let u1 = match read_token(b, Token::RangeOpen) {
        Some(x) => x,
        None => return None,
    };
    let b1 = slice_subrange(b, u1, b.len());
    match read_range_body(b1) {
        Some((offset, length, u2)) => {
            assert(b1@.subrange(u2 as int, b1@.len() as int) =~= b@.subrange(
                (u1 + u2) as int,
                b@.len() as int,
            ));
            Some((SignableSource::Range { offset, length }, u1 + u2))
        },
        None => None,
    }
}

fn read_hash(b: &[u8]) -> (r: Option<(HashAlgorithm, usize)>)
    ensures
        r is Some <==> parse_hash(b@) is Some,
        r matches Some((h, used)) ==> used <= b@.len() && parse_hash(b@) == Some(
            (h, b@.subrange(used as int, b@.len() as int)),
        ),
{
    if let Some(used) = read_token(b, Token::Blake2b256) {
        Some((HashAlgorithm::Blake2b256, used))
    } else if let Some(used) = read_token(b, Token::Sha256) {
        Some((HashAlgorithm::Sha256, used))
    } else if let Some(used) = read_token(b, Token::Sha3_256) {
        Some((HashAlgorithm::Sha3_256, used))
    } else {
        None
    }
}

fn read_algorithm(b: &[u8]) -> (r: Option<(SignAlgorithm, usize)>)
    ensures
        r is Some <==> parse_algorithm(b@) is Some,
        r matches Some((a, used)) ==> used <= b@.len() && parse_algorithm(b@) == Some(
            (a, b@.subrange(used as int, b@.len() as int)),
        ),
{
    if let Some(used) = read_token(b, Token::Ed25519) {
        Some((SignAlgorithm::Ed25519, used))
    } else if let Some(used) = read_token(b, Token::Secp256k1Ecdsa) {
        Some((SignAlgorithm::Secp256k1Ecdsa, used))
    } else if let Some(used) = read_token(b, Token::Secp256k1Schnorr) {
        Some((SignAlgorithm::Secp256k1Schnorr, used))
    } else {
        None
    }
}

fn read_output(b: &[u8]) -> (r: Option<(OutputSpec, usize)>)
    ensures
        r is Some <==> parse_output(b@) is Some,
        r matches Some((o, used)) ==> used <= b@.len() && parse_output(b@) == Some(
            (o, b@.subrange(used as int, b@.len() as int)),
        ),
{
    if let Some(used) = read_token(b, Token::SignatureOnly) {
        Some((OutputSpec::SignatureOnly, used))
    } else if let Some(used) = read_token(b, Token::AppendToPayload) {
        Some((OutputSpec::AppendToPayload, used))
    } else if let Some(used) = read_token(b, Token::WasmAssemble) {
        Some((OutputSpec::WasmAssemble, used))
    } else {
        None
    }
}

#[verifier::rlimit(30)]
fn read_signable(b: &[u8]) -> (r: Option<(Signable, usize)>)
    ensures
        r is Some <==> parse_signable(b@) is Some,
        r matches Some((s, used)) ==> used <= b@.len() && parse_signable(b@) == Some(
            (s, b@.subrange(used as int, b@.len() as int)),
        ),
{
    if let Some(used) = read_token(b, Token::Whole) {
        return Some((Signable::Whole, used));
    }
    if let Some(u1) = read_token(b, Token::RangeOpen) {
        let b1 = slice_subrange(b, u1, b.len());
        return match read_range_body(b1) {
            Some((offset, length, u2)) => {
                assert(b1@.subrange(u2 as int, b1@.len() as int) =~= b@.subrange(
                    (u1 + u2) as int,
                    b@.len() as int,
                ));
                Some((Signable::Range { offset, length }, u1 + u2))
            },
            None => None,
        };
    }
    let u1 = match read_token(b, Token::HashOpen) {
        Some(x) => x,
        None => return None,
    };
    let b1 = slice_subrange(b, u1, b.len());
    match read_hash_body(b1) {
        Some((hash, source, u2)) => {
            assert(b1@.subrange(u2 as int, b1@.len() as int) =~= b@.subrange(
                (u1 + u2) as int,
                b@.len() as int,
            ));
            Some((Signable::HashThenSign { hash, source }, u1 + u2))
        },
        None => None,
    }
}

fn read_hash_body(b: &[u8]) -> (r: Option<(HashAlgorithm, SignableSource, usize)>)
    ensures
        r is Some <==> parse_hash_body(b@) is Some,
        r matches Some((h, s, used)) ==> used <= b@.len() && parse_hash_body(b@) == Some(
            (h, s, b@.subrange(used as int, b@.len() as int)),
        ),
{
    let (hash, u1) = match read_hash(b) {
        Some(x) => x,
        None => return None,
    };
    let b1 = slice_subrange(b, u1, b.len());
    let u2 = match read_token(b1, Token::SourceKey) {
        Some(x) => x,
        None => return None,
    };
    let b2 = slice_subrange(b1, u2, b1.len());
    let (source, u3) = match read_source(b2) {
        Some(x) => x,
        None => return None,
    };
    assert(b2@.subrange(u3 as int, b2@.len() as int) =~= b@.subrange(
        (u1 + u2 + u3) as int,
        b@.len() as int,
    ));
    Some((hash, source, u1 + u2 + u3))
}

fn read_label(b: &[u8]) -> (r: Option<(String, usize)>)
    ensures
        r is Some <==> parse_label(b@) is Some,
        r matches Some((label, used)) ==> used <= b@.len() && parse_label(b@) == Some(
            (label@, b@.subrange(used as int, b@.len() as int)),
        ),
{
    let (start, end) = match read_text(b) {
        Some(x) => x,
        None => return None,
    };
    if end - start > MAX_LABEL_BYTES {
        return None;
    }
    match string_from_utf8(slice_to_vec(slice_subrange(b, start, end))) {
        Some(label) => Some((label, end)),
        None => None,
    }
}

impl SigningSpec {
    /// Decodes a descriptor from its canonical encoding. Anything else is
    /// refused: trailing bytes, unknown fields or variants, integers outside
    /// their field's range, labels that are too long or not UTF-8, and
    /// integers or lengths not written in their shortest form.
    #[verifier::rlimit(30)]
    pub fn from_cbor(bytes: &[u8]) -> (r: Result<SigningSpec, DescriptorError>)
        ensures
            r is Ok <==> decode_descriptor(bytes@) is Some,
            r matches Ok(d) ==> decode_descriptor(bytes@) == Some(d@),
            r matches Err(e) ==> e == DescriptorError::Malformed,
    {
        let b = bytes;
        let u = match read_token(b, Token::DescriptorOpen) {
            Some(x) => x,
            None => return Err(DescriptorError::Malformed),
        };
        let b = slice_subrange(b, u, b.len());
        let (label, u) = match read_label(b) {
            Some(x) => x,
            None => return Err(DescriptorError::Malformed),
        };
        let b = slice_subrange(b, u, b.len());
        let u = match read_token(b, Token::SignableKey) {
            Some(x) => x,
            None => return Err(DescriptorError::Malformed),
        };
        let b = slice_subrange(b, u, b.len());
        let (signable, u) = match read_signable(b) {
            Some(x) => x,
            None => return Err(DescriptorError::Malformed),
        };
        let b = slice_subrange(b, u, b.len());
        let u = match read_token(b, Token::AlgorithmKey) {
            Some(x) => x,
            None => return Err(DescriptorError::Malformed),
        };
        let b = slice_subrange(b, u, b.len());
        let (algorithm, u) = match read_algorithm(b) {
            Some(x) => x,
            None => return Err(DescriptorError::Malformed),
        };
        let b = slice_subrange(b, u, b.len());
        let u = match read_token(b, Token::KeySlotKey) {
            Some(x) => x,
            None => return Err(DescriptorError::Malformed),
        };
        let b = slice_subrange(b, u, b.len());
        let (slot, u) = match read_uint(b) {
            Some(x) => x,
            None => return Err(DescriptorError::Malformed),
        };
        if slot > 255 {
            return Err(DescriptorError::Malformed);
        }
        let b = slice_subrange(b, u, b.len());
        let u = match read_token(b, Token::OutputKey) {
            Some(x) => x,
            None => return Err(DescriptorError::Malformed),
        };
        let b = slice_subrange(b, u, b.len());
        let (output, u) = match read_output(b) {
            Some(x) => x,
            None => return Err(DescriptorError::Malformed),
        };
        if u != b.len() {
            return Err(DescriptorError::Malformed);
        }
        Ok(SigningSpec { label, signable, algorithm, key_slot: slot as u8, output })
    }

    /// Encodes the descriptor canonically. Fails only where the label is
    /// longer than `MAX_LABEL_BYTES` bytes.
    #[verifier::rlimit(30)]
    pub fn to_cbor(&self) -> (r: Result<Vec<u8>, DescriptorError>)
        ensures
            r is Ok <==> self@.wf(),
            r matches Ok(bytes) ==> bytes@ == encode_descriptor(self@),
            r matches Err(e) ==> e == DescriptorError::LabelTooLong,
    {
        let label = self.label.as_str().as_bytes();
        if label.len() > MAX_LABEL_BYTES {
            return Err(DescriptorError::LabelTooLong);
        }
        let ghost d = self@;
        let mut out: Vec<u8> = Vec::new();
        push_token(&mut out, Token::DescriptorOpen);
        let ghost s1 = out@;
        push_text(&mut out, label);
        let ghost s2 = out@;
        push_token(&mut out, Token::SignableKey);
        let ghost s3 = out@;
        push_signable(&mut out, self.signable);
        let ghost s4 = out@;
        push_token(&mut out, Token::AlgorithmKey);
        let ghost s5 = out@;
        push_token(&mut out, algorithm_token(self.algorithm));
        let ghost s6 = out@;
        push_token(&mut out, Token::KeySlotKey);
        let ghost s7 = out@;
        push_head(&mut out, 0, self.key_slot as u64);
        let ghost s8 = out@;
        push_token(&mut out, Token::OutputKey);
        let ghost s9 = out@;
        push_token(&mut out, output_token(self.output));
        proof {
            let p10 = enc_output(d.output);
            let r9 = token(Token::OutputKey) + p10;
            let r8 = enc_uint(d.key_slot as nat) + r9;
            let r7 = token(Token::KeySlotKey) + r8;
            let r6 = enc_algorithm(d.algorithm) + r7;
            let r5 = token(Token::AlgorithmKey) + r6;
            let r4 = enc_signable(d.signable) + r5;
            let r3 = token(Token::SignableKey) + r4;
            let r2 = enc_text(d.label_bytes()) + r3;
            lemma_concat_associative(s8, token(Token::OutputKey), p10);
            lemma_concat_associative(s7, enc_uint(d.key_slot as nat), r9);
            lemma_concat_associative(s6, token(Token::KeySlotKey), r8);
            lemma_concat_associative(s5, enc_algorithm(d.algorithm), r7);
            lemma_concat_associative(s4, token(Token::AlgorithmKey), r6);
            lemma_concat_associative(s3, enc_signable(d.signable), r5);
            lemma_concat_associative(s2, token(Token::SignableKey), r4);
            lemma_concat_associative(s1, enc_text(d.label_bytes()), r3);
            assert(s1 =~= token(Token::DescriptorOpen));
        }
        Ok(out)
    }
}

// Canonicity: what the decoder accepts is the encoding of what it returns.

proof fn lemma_be_value_bound(s: Seq<u8>)
    ensures
        be_value(s) < pow256(s.len()),
    decreases s.len(),
{
    if s.len() > 0 {
        lemma_be_value_bound(s.drop_last());
        let v = be_value(s.drop_last());
        let p = pow256((s.len() - 1) as nat);
        assert(v * 256 + s.last() < 256 * p) by (nonlinear_arith)
            requires
                v < p,
                s.last() < 256,
        ;
    }
}

proof fn lemma_be_bytes_of_value(s: Seq<u8>)
    ensures
        be_bytes(be_value(s), s.len()) == s,
    decreases s.len(),
{
    if s.len() > 0 {
        let v = be_value(s.drop_last());
        let n = be_value(s);
        assert(n / 256 == v && n % 256 == s.last()) by (nonlinear_arith)
            requires
                n == v * 256 + s.last(),
                s.last() < 256,
        ;
        lemma_be_bytes_of_value(s.drop_last());
        assert(be_bytes(n, s.len()) =~= s);
    }
}

proof fn lemma_head_canonical(b: Seq<u8>)
    requires
        parse_head(b) is Some,
    ensures
        parse_head(b) matches Some((major, n, rest)) && major < 8 && b == head(major, n) + rest,
{
    let major = b[0] / 32;
    let info = b[0] % 32;
    assert(major < 8);
    assert(b[0] == major * 32 + info);
    lemma_pow256_values();
    if info < 24 {
        assert(b =~= head(major, info as nat) + b.subrange(1, b.len() as int));
    } else if info == 24 {
        assert(b =~= head(major, b[1] as nat) + b.subrange(2, b.len() as int));
    } else if info == 25 {
        let s = b.subrange(1, 3);
        lemma_be_value_bound(s);
        lemma_be_bytes_of_value(s);
        assert(b =~= head(major, be_value(s)) + b.subrange(3, b.len() as int));
    } else if info == 26 {
        let s = b.subrange(1, 5);
        lemma_be_value_bound(s);
        lemma_be_bytes_of_value(s);
        assert(b =~= head(major, be_value(s)) + b.subrange(5, b.len() as int));
    } else {
        let s = b.subrange(1, 9);
        lemma_be_value_bound(s);
        lemma_be_bytes_of_value(s);
        assert(b =~= head(major, be_value(s)) + b.subrange(9, b.len() as int));
    }
}

proof fn lemma_token_canonical(b: Seq<u8>, t: Token)
    requires
        parse_token(b, t) is Some,
    ensures
        b == token(t) + parse_token(b, t)->0,
{
    assert(b =~= b.subrange(0, token(t).len() as int) + b.subrange(
        token(t).len() as int,
        b.len() as int,
    ));
}

proof fn lemma_uint_canonical(b: Seq<u8>)
    requires
        parse_uint(b) is Some,
    ensures
        parse_uint(b) matches Some((n, rest)) && b == enc_uint(n) + rest,
{
    lemma_head_canonical(b);
}

proof fn lemma_text_canonical(b: Seq<u8>)
    requires
        parse_text(b) is Some,
    ensures
        parse_text(b) matches Some((t, rest)) && b == enc_text(t) + rest,
{
    lemma_head_canonical(b);
    let (major, n, r) = parse_head(b)->0;
    let t = r.subrange(0, n as int);
    let rest = r.subrange(n as int, r.len() as int);
    assert(r =~= t + rest);
    assert(b =~= enc_text(t) + rest);
}

proof fn lemma_range_body_canonical(b: Seq<u8>)
    requires
        parse_range_body(b) is Some,
    ensures
        parse_range_body(b) matches Some((offset, length, rest)) && b == range_body_then(
            offset,
            length,
            rest,
        ),
{
    lemma_uint_canonical(b);
    let r1 = (parse_uint(b)->0).1;
    lemma_token_canonical(r1, Token::LengthKey);
    let r2 = parse_token(r1, Token::LengthKey)->0;
    lemma_uint_canonical(r2);
}

#[verifier::rlimit(30)]
proof fn lemma_range_canonical(b: Seq<u8>, r1: Seq<u8>)
    requires
        parse_token(b, Token::RangeOpen) == Some(r1),
        parse_range_body(r1) is Some,
    ensures
        parse_range_body(r1) matches Some((offset, length, rest)) && b == enc_range(offset, length)
            + rest,
{
    lemma_token_canonical(b, Token::RangeOpen);
    lemma_range_body_canonical(r1);
    let (offset, length, rest) = parse_range_body(r1)->0;
    let a = token(Token::RangeOpen);
    let o = enc_uint(offset as nat);
    let k = token(Token::LengthKey);
    let l = enc_uint(length as nat);
    assert(b == a + (o + (k + (l + rest))));
    lemma_concat_associative(a, o + (k + l), rest);
    lemma_concat_associative(o, k + l, rest);
    lemma_concat_associative(k, l, rest);
}

proof fn lemma_source_canonical(b: Seq<u8>)
    requires
        parse_source(b) is Some,
    ensures
        parse_source(b) matches Some((s, rest)) && b == enc_source(s) + rest,
{
    if parse_token(b, Token::Whole) is Some {
        lemma_token_canonical(b, Token::Whole);
    } else {
        lemma_range_canonical(b, parse_token(b, Token::RangeOpen)->0);
    }
}

proof fn lemma_hash_canonical(b: Seq<u8>)
    requires
        parse_hash(b) is Some,
    ensures
        parse_hash(b) matches Some((h, rest)) && b == enc_hash(h) + rest,
{
    if parse_token(b, Token::Blake2b256) is Some {
        lemma_token_canonical(b, Token::Blake2b256);
    } else if parse_token(b, Token::Sha256) is Some {
        lemma_token_canonical(b, Token::Sha256);
    } else {
        lemma_token_canonical(b, Token::Sha3_256);
    }
}

#[verifier::rlimit(30)]
proof fn lemma_hash_then_sign_canonical(b: Seq<u8>)
    requires
        parse_token(b, Token::HashOpen) is Some,
        parse_hash_body(parse_token(b, Token::HashOpen)->0) is Some,
    ensures
        parse_hash_body(parse_token(b, Token::HashOpen)->0) matches Some((hash, source, rest)) && b
            == enc_signable(Signable::HashThenSign { hash, source }) + rest,
{
    lemma_token_canonical(b, Token::HashOpen);
    let r1 = parse_token(b, Token::HashOpen)->0;
    lemma_hash_canonical(r1);
    let (hash, r2) = parse_hash(r1)->0;
    lemma_token_canonical(r2, Token::SourceKey);
    let r3 = parse_token(r2, Token::SourceKey)->0;
    lemma_source_canonical(r3);
    let (source, rest) = parse_source(r3)->0;
    let a = token(Token::HashOpen);
    let h = enc_hash(hash);
    let k = token(Token::SourceKey);
    let src = enc_source(source);
    assert(b == a + (h + (k + (src + rest))));
    lemma_concat_associative(a, h + (k + src), rest);
    lemma_concat_associative(h, k + src, rest);
    lemma_concat_associative(k, src, rest);
    assert(enc_signable(Signable::HashThenSign { hash, source }) == a + (h + (k + src)));
}

#[verifier::rlimit(30)]
proof fn lemma_signable_canonical(b: Seq<u8>)
    requires
        parse_signable(b) is Some,
    ensures
        parse_signable(b) matches Some((s, rest)) && b == enc_signable(s) + rest,
{
    if parse_token(b, Token::Whole) is Some {
        lemma_token_canonical(b, Token::Whole);
    } else if parse_token(b, Token::RangeOpen) is Some {
        lemma_range_canonical(b, parse_token(b, Token::RangeOpen)->0);
    } else {
        lemma_hash_then_sign_canonical(b);
    }
}

proof fn lemma_algorithm_canonical(b: Seq<u8>)
    requires
        parse_algorithm(b) is Some,
    ensures
        parse_algorithm(b) matches Some((a, rest)) && b == enc_algorithm(a) + rest,
{
    if parse_token(b, Token::Ed25519) is Some {
        lemma_token_canonical(b, Token::Ed25519);
    } else if parse_token(b, Token::Secp256k1Ecdsa) is Some {
        lemma_token_canonical(b, Token::Secp256k1Ecdsa);
    } else {
        lemma_token_canonical(b, Token::Secp256k1Schnorr);
    }
}

proof fn lemma_output_canonical(b: Seq<u8>)
    requires
        parse_output(b) is Some,
    ensures
        parse_output(b) matches Some((o, rest)) && b == enc_output(o) + rest,
{
    if parse_token(b, Token::SignatureOnly) is Some {
        lemma_token_canonical(b, Token::SignatureOnly);
    } else if parse_token(b, Token::AppendToPayload) is Some {
        lemma_token_canonical(b, Token::AppendToPayload);
    } else {
        lemma_token_canonical(b, Token::WasmAssemble);
    }
}

/// The decoder accepts only canonical encodings: whatever bytes decode to a
/// descriptor are exactly that descriptor's encoding, and its label is
/// within the limit.
#[verifier::rlimit(30)]
pub proof fn lemma_decode_canonical(b: Seq<u8>)
    requires
        decode_descriptor(b) is Some,
    ensures
        decode_descriptor(b)->0.wf(),
        encode_descriptor(decode_descriptor(b)->0) == b,
{
    broadcast use vstd::utf8::decode_utf8_encode_utf8;

    let d = decode_descriptor(b)->0;
    lemma_token_canonical(b, Token::DescriptorOpen);
    let r1 = parse_token(b, Token::DescriptorOpen)->0;
    lemma_text_canonical(r1);
    let (t, r2) = parse_text(r1)->0;
    assert(encode_utf8(decode_utf8(t)) == t);
    lemma_token_canonical(r2, Token::SignableKey);
    let r3 = parse_token(r2, Token::SignableKey)->0;
    lemma_signable_canonical(r3);
    let r4 = (parse_signable(r3)->0).1;
    lemma_token_canonical(r4, Token::AlgorithmKey);
    let r5 = parse_token(r4, Token::AlgorithmKey)->0;
    lemma_algorithm_canonical(r5);
    let r6 = (parse_algorithm(r5)->0).1;
    lemma_token_canonical(r6, Token::KeySlotKey);
    let r7 = parse_token(r6, Token::KeySlotKey)->0;
    lemma_uint_canonical(r7);
    let r8 = (parse_uint(r7)->0).1;
    lemma_token_canonical(r8, Token::OutputKey);
    let r9 = parse_token(r8, Token::OutputKey)->0;
    lemma_output_canonical(r9);
    let r10 = (parse_output(r9)->0).1;
    assert(r10.len() == 0);
    assert(enc_output(d.output) + r10 =~= enc_output(d.output));
}

} // verus!
