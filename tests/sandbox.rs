use signer_core::echo;
use signer_core::sandbox::{read_output_block, Sandbox, SandboxError};

/// The echo-hex interpreter: `interpret` answers
/// `{"hex":"<payload in hex>","length":<n>}`.
fn echo_hex_wasm() -> Vec<u8> {
    r#"
(module
  (memory (export "memory") 1)
  (global $heap (mut i32) (i32.const 1024))
  (data (i32.const 0) "0123456789abcdef")
  (data (i32.const 16) "{\"hex\":\"")
  (data (i32.const 32) "\",\"length\":")
  (func $alloc (export "alloc") (param $size i32) (result i32)
    (local $ptr i32) (local $end i32) (local $have i32)
    (local.set $ptr (global.get $heap))
    (local.set $end (i32.add (local.get $ptr) (local.get $size)))
    (local.set $have (i32.shl (memory.size) (i32.const 16)))
    (if (i32.gt_u (local.get $end) (local.get $have))
      (then
        (if (i32.eq
              (memory.grow
                (i32.shr_u
                  (i32.add (i32.sub (local.get $end) (local.get $have)) (i32.const 65535))
                  (i32.const 16)))
              (i32.const -1))
          (then (return (i32.const 0))))))
    (global.set $heap (local.get $end))
    (local.get $ptr))
  (func $digits (param $n i32) (result i32)
    (local $c i32)
    (local.set $c (i32.const 1))
    (block $done
      (loop $next
        (br_if $done (i32.lt_u (local.get $n) (i32.const 10)))
        (local.set $n (i32.div_u (local.get $n) (i32.const 10)))
        (local.set $c (i32.add (local.get $c) (i32.const 1)))
        (br $next)))
    (local.get $c))
  (func (export "interpret") (param $ptr i32) (param $len i32) (result i32)
    (local $nd i32) (local $total i32) (local $out i32) (local $o i32)
    (local $i i32) (local $b i32) (local $n i32)
    (local.set $nd (call $digits (local.get $len)))
    (local.set $total
      (i32.add (i32.add (i32.const 20) (i32.shl (local.get $len) (i32.const 1))) (local.get $nd)))
    (local.set $out (call $alloc (i32.add (local.get $total) (i32.const 4))))
    (if (i32.eqz (local.get $out)) (then (return (i32.const 0))))
    (i32.store (local.get $out) (local.get $total))
    (local.set $o (i32.add (local.get $out) (i32.const 4)))
    (memory.copy (local.get $o) (i32.const 16) (i32.const 8))
    (local.set $o (i32.add (local.get $o) (i32.const 8)))
    (local.set $i (i32.const 0))
    (block $done
      (loop $next
        (br_if $done (i32.ge_u (local.get $i) (local.get $len)))
        (local.set $b (i32.load8_u (i32.add (local.get $ptr) (local.get $i))))
        (i32.store8 (local.get $o) (i32.load8_u (i32.shr_u (local.get $b) (i32.const 4))))
        (i32.store8 (i32.add (local.get $o) (i32.const 1))
          (i32.load8_u (i32.and (local.get $b) (i32.const 15))))
        (local.set $o (i32.add (local.get $o) (i32.const 2)))
        (local.set $i (i32.add (local.get $i) (i32.const 1)))
        (br $next)))
    (memory.copy (local.get $o) (i32.const 32) (i32.const 11))
    (local.set $o (i32.add (local.get $o) (i32.const 11)))
    (local.set $n (local.get $len))
    (local.set $i (i32.add (local.get $o) (local.get $nd)))
    (loop $digit
      (local.set $i (i32.sub (local.get $i) (i32.const 1)))
      (i32.store8 (local.get $i) (i32.add (i32.const 48) (i32.rem_u (local.get $n) (i32.const 10))))
      (local.set $n (i32.div_u (local.get $n) (i32.const 10)))
      (br_if $digit (i32.ne (local.get $n) (i32.const 0))))
    (local.set $o (i32.add (local.get $o) (local.get $nd)))
    (i32.store8 (local.get $o) (i32.const 125))
    (local.get $out))
  (func (export "assemble") (param $p i32) (param $pl i32) (param $s i32) (param $sl i32) (result i32)
    (local $out i32)
    (local.set $out (call $alloc (i32.add (i32.add (local.get $pl) (local.get $sl)) (i32.const 4))))
    (i32.store (local.get $out) (i32.add (local.get $pl) (local.get $sl)))
    (memory.copy (i32.add (local.get $out) (i32.const 4)) (local.get $s) (local.get $sl))
    (memory.copy (i32.add (i32.add (local.get $out) (i32.const 4)) (local.get $sl))
      (local.get $p) (local.get $pl))
    (local.get $out)))
"#
    .as_bytes()
    .to_vec()
}

/// A guest whose `interpret` returns a pointer 4 bytes before the end of its
/// single page, where the header declares 100 more bytes.
fn overflowing_wasm() -> Vec<u8> {
    r#"
(module
  (memory (export "memory") 1)
  (data (i32.const 65532) "\64\00\00\00")
  (func (export "alloc") (param i32) (result i32) (i32.const 1024))
  (func (export "interpret") (param i32 i32) (result i32) (i32.const 65532)))
"#
    .as_bytes()
    .to_vec()
}

/// A guest that counts its `interpret` calls in a global and answers the
/// count as one ASCII digit.
fn counting_wasm() -> Vec<u8> {
    r#"
(module
  (memory (export "memory") 1)
  (global $calls (mut i32) (i32.const 0))
  (func (export "alloc") (param i32) (result i32) (i32.const 1024))
  (func (export "interpret") (param i32 i32) (result i32)
    (global.set $calls (i32.add (global.get $calls) (i32.const 1)))
    (i32.store (i32.const 2048) (i32.const 1))
    (i32.store8 (i32.const 2052) (i32.add (i32.const 48) (global.get $calls)))
    (i32.const 2048)))
"#
    .as_bytes()
    .to_vec()
}

fn null_wasm() -> Vec<u8> {
    r#"
(module
  (memory (export "memory") 1)
  (func (export "alloc") (param i32) (result i32) (i32.const 1024))
  (func (export "interpret") (param i32 i32) (result i32) (i32.const 0)))
"#
    .as_bytes()
    .to_vec()
}

#[test]
fn interpret_echo_hex() {
    let sandbox = Sandbox::new().unwrap();
    let module = sandbox.load_module(&echo_hex_wasm()).unwrap();

    let payload = b"\xde\xad\xbe\xef";
    let json_str = module.interpret(payload).unwrap();

    let parsed: serde_json::Value = serde_json::from_str(&json_str).unwrap();
    assert_eq!(parsed["hex"], "deadbeef");
    assert_eq!(parsed["length"], 4);
}

#[test]
fn interpret_empty_payload() {
    let sandbox = Sandbox::new().unwrap();
    let module = sandbox.load_module(&echo_hex_wasm()).unwrap();

    let json_str = module.interpret(b"").unwrap();
    let parsed: serde_json::Value = serde_json::from_str(&json_str).unwrap();
    assert_eq!(parsed["hex"], "");
    assert_eq!(parsed["length"], 0);
}

#[test]
fn interpret_larger_payload() {
    let sandbox = Sandbox::new().unwrap();
    let module = sandbox.load_module(&echo_hex_wasm()).unwrap();

    let payload: Vec<u8> = (0..=255).collect();
    let json_str = module.interpret(&payload).unwrap();
    let parsed: serde_json::Value = serde_json::from_str(&json_str).unwrap();
    assert_eq!(parsed["length"], 256);

    let hex = parsed["hex"].as_str().unwrap();
    assert_eq!(hex.len(), 512);
    assert!(hex.starts_with("000102"));
    assert!(hex.ends_with("fdfeff"));
}

#[test]
fn interpret_twice_uses_fresh_state() {
    let sandbox = Sandbox::new().unwrap();
    let module = sandbox.load_module(&echo_hex_wasm()).unwrap();
    let first = module.interpret(b"\x01").unwrap();
    let second = module.interpret(b"\x01").unwrap();
    assert_eq!(first, second);
    assert_eq!(first, "{\"hex\":\"01\",\"length\":1}");
}

#[test]
fn assemble_puts_signature_first() {
    let sandbox = Sandbox::new().unwrap();
    let module = sandbox.load_module(&echo_hex_wasm()).unwrap();
    let out = module.assemble(b"pay", b"SIG").unwrap();
    assert_eq!(out, b"SIGpay".to_vec());
}

#[test]
fn interpret_rejects_block_past_memory_end() {
    let sandbox = Sandbox::new().unwrap();
    let module = sandbox.load_module(&overflowing_wasm()).unwrap();
    match module.interpret(b"x") {
        Err(SandboxError::OutputOverflow(n)) => assert_eq!(n, 100),
        other => panic!("unexpected: {other:?}"),
    }
}

#[test]
fn interpret_rejects_null_result() {
    let sandbox = Sandbox::new().unwrap();
    let module = sandbox.load_module(&null_wasm()).unwrap();
    assert!(matches!(module.interpret(b"x"), Err(SandboxError::NullPointer)));
}

#[test]
fn missing_export_is_reported() {
    let sandbox = Sandbox::new().unwrap();
    let module = sandbox.load_module(&null_wasm()).unwrap();
    match module.assemble(b"p", b"s") {
        Err(SandboxError::MissingExport(name)) => assert_eq!(name, "assemble"),
        other => panic!("unexpected: {other:?}"),
    }
}

#[test]
fn read_output_block_accepts_block_inside_memory() {
    let mem = [0u8, 0, 0, 0, 3, 0, 0, 0, b'a', b'b', b'c'];
    assert_eq!(read_output_block(&mem, 4).unwrap(), b"abc".to_vec());
}

#[test]
fn read_output_block_rejects_header_past_end() {
    let mem = [0u8; 8];
    assert!(matches!(read_output_block(&mem, 6), Err(SandboxError::OutputOverflow(10))));
}

#[test]
fn read_output_block_rejects_body_past_end() {
    let mem = [0u8, 0, 0, 0, 5, 0, 0, 0, b'a', b'b'];
    assert!(matches!(read_output_block(&mem, 4), Err(SandboxError::OutputOverflow(5))));
}

#[test]
fn read_output_block_rejects_null() {
    let mem = [1u8, 0, 0, 0, 0];
    assert!(matches!(read_output_block(&mem, 0), Err(SandboxError::NullPointer)));
}

#[test]
fn read_output_block_negative_pointer_is_high_offset() {
    let mem = [0u8; 16];
    assert!(matches!(read_output_block(&mem, -4), Err(SandboxError::OutputOverflow(_))));
}

#[test]
fn guest_output_matches_reference_rendering() {
    let sandbox = Sandbox::new().unwrap();
    let module = sandbox.load_module(&echo_hex_wasm()).unwrap();
    for payload in [vec![], vec![0u8], vec![0xab; 10], (0..=255).collect::<Vec<u8>>()] {
        let text = module.interpret(&payload).unwrap();
        assert_eq!(text.into_bytes(), echo::interpret(&payload));
    }
}

#[test]
fn no_guest_state_survives_an_invocation() {
    let sandbox = Sandbox::new().unwrap();
    let module = sandbox.load_module(&counting_wasm()).unwrap();
    assert_eq!(module.interpret(b"").unwrap(), "1");
    assert_eq!(module.interpret(b"").unwrap(), "1");
    assert_eq!(module.interpret(b"abc").unwrap(), "1");
}

#[test]
fn invalid_utf8_output_is_rejected() {
    let wasm = r#"
(module
  (memory (export "memory") 1)
  (data (i32.const 2048) "\01\00\00\00\ff")
  (func (export "alloc") (param i32) (result i32) (i32.const 1024))
  (func (export "interpret") (param i32 i32) (result i32) (i32.const 2048)))
"#;
    let sandbox = Sandbox::new().unwrap();
    let module = sandbox.load_module(wasm.as_bytes()).unwrap();
    assert!(matches!(module.interpret(b"x"), Err(SandboxError::InvalidUtf8)));
}

#[test]
fn fuel_exhaustion_is_an_engine_failure() {
    let wasm = r#"
(module
  (memory (export "memory") 1)
  (func (export "alloc") (param i32) (result i32) (i32.const 1024))
  (func (export "interpret") (param i32 i32) (result i32) (loop $spin (br $spin)) (i32.const 0)))
"#;
    let sandbox = Sandbox::new().unwrap();
    let module = sandbox.load_module(wasm.as_bytes()).unwrap();
    assert!(matches!(module.interpret(b"x"), Err(SandboxError::Engine(_))));
}

#[test]
fn payload_larger_than_guest_memory_is_refused() {
    let sandbox = Sandbox::new().unwrap();
    let module = sandbox.load_module(&echo_hex_wasm()).unwrap();
    let payload = vec![0u8; 16 * 1024 * 1024 + 1];
    match module.interpret(&payload) {
        Err(SandboxError::InputOverflow(n)) => assert_eq!(n, payload.len()),
        other => panic!("unexpected: {other:?}"),
    }
}

#[test]
fn overlapping_input_buffers_are_refused() {
    let wasm = r#"
(module
  (memory (export "memory") 1)
  (func (export "alloc") (param i32) (result i32) (i32.const 1024))
  (func (export "assemble") (param i32 i32 i32 i32) (result i32) (i32.const 0)))
"#;
    let sandbox = Sandbox::new().unwrap();
    let module = sandbox.load_module(wasm.as_bytes()).unwrap();
    assert!(matches!(module.assemble(b"pay", b"sig"), Err(SandboxError::InputOverlap)));
}

#[test]
fn missing_alloc_is_named() {
    let wasm = r#"
(module
  (memory (export "memory") 1)
  (func (export "interpret") (param i32 i32) (result i32) (i32.const 0)))
"#;
    let sandbox = Sandbox::new().unwrap();
    let module = sandbox.load_module(wasm.as_bytes()).unwrap();
    match module.interpret(b"x") {
        Err(SandboxError::MissingExport(name)) => assert_eq!(name, "alloc"),
        other => panic!("unexpected: {other:?}"),
    }
}

#[test]
fn null_allocation_is_refused() {
    let wasm = r#"
(module
  (memory (export "memory") 1)
  (func (export "alloc") (param i32) (result i32) (i32.const 0))
  (func (export "interpret") (param i32 i32) (result i32) (i32.const 2048)))
"#;
    let sandbox = Sandbox::new().unwrap();
    let module = sandbox.load_module(wasm.as_bytes()).unwrap();
    assert!(matches!(module.interpret(b"x"), Err(SandboxError::NullPointer)));
}

#[test]
fn allocation_past_memory_end_is_refused() {
    let wasm = r#"
(module
  (memory (export "memory") 1)
  (func (export "alloc") (param i32) (result i32) (i32.const 65535))
  (func (export "interpret") (param i32 i32) (result i32) (i32.const 2048)))
"#;
    let sandbox = Sandbox::new().unwrap();
    let module = sandbox.load_module(wasm.as_bytes()).unwrap();
    assert!(matches!(module.interpret(b"xy"), Err(SandboxError::InputOverflow(2))));
}
