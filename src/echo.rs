//! The reference echo interpreter's rendering: a payload becomes the JSON
//! text `{"hex":"<lowercase hex>","length":<n>}`. A guest module built on it
//! only adds the calling convention around these bytes.
use vstd::prelude::*;

verus! {

/// The ASCII lowercase hex digit of a nibble.
pub open spec fn hex_ascii(n: nat) -> u8 {
    if n < 10 {
        (48 + n) as u8
    } else {
        (87 + n) as u8
    }
}

/// Two lowercase hex digits per byte, high digit first.
pub open spec fn hex_of(b: Seq<u8>) -> Seq<u8>
    decreases b.len(),
{
    if b.len() == 0 {
        Seq::empty()
    } else {
        hex_of(b.drop_last()) + seq![hex_ascii(b.last() as nat / 16), hex_ascii(b.last() as nat % 16)]
    }
}

/// The ASCII decimal numeral of `n`.
pub open spec fn decimal_ascii(n: nat) -> Seq<u8>
    decreases n,
{
    if n < 10 {
        seq![(48 + n) as u8]
    } else {
        decimal_ascii(n / 10).push((48 + n % 10) as u8)
    }
}

/// `{"hex":"`
pub open spec fn json_prefix() -> Seq<u8> {
    seq![0x7Bu8, 0x22, 0x68, 0x65, 0x78, 0x22, 0x3A, 0x22]
}

/// `","length":`
pub open spec fn json_middle() -> Seq<u8> {
    seq![0x22u8, 0x2C, 0x22, 0x6C, 0x65, 0x6E, 0x67, 0x74, 0x68, 0x22, 0x3A]
}

/// The echo rendering of a payload.
pub open spec fn echo_json(payload: Seq<u8>) -> Seq<u8> {
    json_prefix() + hex_of(payload) + json_middle() + decimal_ascii(payload.len()) + seq![0x7Du8]
}

/// The ASCII lowercase hex digit of a nibble.
pub fn nibble_to_hex(n: u8) -> (c: u8)
    requires
        n < 16,
    ensures
        c == hex_ascii(n as nat),
{
    if n < 10 {
        48u8 + n
    } else {
        87u8 + n
    }
}

/// The ASCII decimal numeral of `n`.
pub fn fmt_usize(n: usize) -> (digits: Vec<u8>)
    ensures
        digits@ == decimal_ascii(n as nat),
    decreases n,
{
    if n < 10 {
        let mut digits: Vec<u8> = Vec::new();
        digits.push(48u8 + n as u8);
        assert(digits@ =~= decimal_ascii(n as nat));
        digits
    } else {
        let mut digits = fmt_usize(n / 10);
        digits.push(48u8 + (n % 10) as u8);
        digits
    }
}

/// Renders a payload as `{"hex":"<lowercase hex>","length":<n>}`.
pub fn interpret(payload: &[u8]) -> (out: Vec<u8>)
    ensures
        out@ == echo_json(payload@),
{
    let mut out: Vec<u8> = vec![0x7Bu8, 0x22, 0x68, 0x65, 0x78, 0x22, 0x3A, 0x22];
    assert(out@ =~= json_prefix());
    let mut i: usize = 0;
    while i < payload.len()
        invariant
            i <= payload@.len(),
            out@ == json_prefix() + hex_of(payload@.subrange(0, i as int)),
        decreases payload@.len() - i,
    {
        let b = payload[i];
        out.push(nibble_to_hex(b / 16));
        out.push(nibble_to_hex(b % 16));
        let ghost next = payload@.subrange(0, i as int + 1);
        assert(next.drop_last() =~= payload@.subrange(0, i as int));
        i = i + 1;
        assert(out@ =~= json_prefix() + hex_of(next));
    }
    assert(payload@.subrange(0, payload@.len() as int) =~= payload@);
    let mut middle: Vec<u8> = vec![0x22u8, 0x2C, 0x22, 0x6C, 0x65, 0x6E, 0x67, 0x74, 0x68, 0x22, 0x3A];
    assert(middle@ =~= json_middle());
    out.append(&mut middle);
    let mut digits = fmt_usize(payload.len());
    out.append(&mut digits);
    out.push(0x7D);
    assert(out@ =~= echo_json(payload@));
    out
}

} // verus!
