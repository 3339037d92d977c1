use signer_core::echo::{fmt_usize, interpret, nibble_to_hex};

#[test]
fn echo_renders_hex_and_length() {
    assert_eq!(interpret(b"\xde\xad\xbe\xef"), br#"{"hex":"deadbeef","length":4}"#.to_vec());
}

#[test]
fn echo_renders_empty_payload() {
    assert_eq!(interpret(b""), br#"{"hex":"","length":0}"#.to_vec());
}

#[test]
fn echo_renders_all_bytes() {
    let payload: Vec<u8> = (0..=255).collect();
    let out = String::from_utf8(interpret(&payload)).unwrap();
    let parsed: serde_json::Value = serde_json::from_str(&out).unwrap();
    assert_eq!(parsed["length"], 256);
    let hex = parsed["hex"].as_str().unwrap();
    assert_eq!(hex.len(), 512);
    assert!(hex.starts_with("000102"));
    assert!(hex.ends_with("fdfeff"));
}

#[test]
fn nibbles_and_numerals() {
    assert_eq!(nibble_to_hex(0), b'0');
    assert_eq!(nibble_to_hex(9), b'9');
    assert_eq!(nibble_to_hex(10), b'a');
    assert_eq!(nibble_to_hex(15), b'f');
    assert_eq!(fmt_usize(0), b"0".to_vec());
    assert_eq!(fmt_usize(1234), b"1234".to_vec());
    assert_eq!(fmt_usize(usize::MAX), usize::MAX.to_string().into_bytes());
}
