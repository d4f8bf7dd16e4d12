//! What goes out on the COM1 serial line.

use vstd::prelude::*;
use vstd::string::StringSliceAdditionalSpecFns;

verus! {

pub const COM1: u16 = 0x3F8;

/// A line feed goes out as CR LF; other bytes as they are.
pub open spec fn serial_text(s: Seq<u8>) -> Seq<u8>
    decreases s.len(),
{
    if s.len() == 0 {
        Seq::empty()
    } else {
        serial_text(s.drop_last()) + if s.last() == 0x0a {
            seq![0x0du8, 0x0au8]
        } else {
            seq![s.last()]
        }
    }
}

/// The bytes that `s` goes out as.
pub fn write_str(s: &str) -> (r: Vec<u8>)
    ensures
        r@ == serial_text(s.spec_bytes()),
{
    let b = s.as_bytes();
    let mut out: Vec<u8> = Vec::new();
    let mut i: usize = 0;
    while i < b.len()
        invariant
            i <= b@.len(),
            out@ == serial_text(b@.subrange(0, i as int)),
        decreases b@.len() - i,
    {
        assert(b@.subrange(0, i + 1).drop_last() =~= b@.subrange(0, i as int));
        if b[i] == 0x0a {
            out.push(0x0d);
            out.push(0x0a);
        } else {
            out.push(b[i]);
        }
        i += 1;
    }
    assert(b@.subrange(0, b@.len() as int) =~= b@);
    out
}

/// The lower-case hex digit of `d`.
pub open spec fn hex_lower(d: nat) -> u8 {
    if d < 10 {
        (0x30 + d) as u8
    } else {
        (0x61 + d - 10) as u8
    }
}

/// The lower-case hexadecimal digits of `n`, no leading zeros.
pub open spec fn hex_digits(n: nat) -> Seq<u8>
    decreases n,
{
    if n < 16 {
        seq![hex_lower(n)]
    } else {
        hex_digits(n / 16).push(hex_lower(n % 16))
    }
}

/// "0x" and the lower-case hexadecimal digits of `value`.
pub open spec fn hex_text(value: nat) -> Seq<u8> {
    seq![0x30u8, 0x78u8] + hex_digits(value)
}

/// "0x" and the lower-case hex digits of `value`, no leading zeros.
pub fn hex_bytes(value: u64) -> (r: Vec<u8>)
    ensures
        r@ == hex_text(value as nat),
{
    let mut digits: Vec<u8> = Vec::new();
    let mut v = value;
    assert(hex_digits(value as nat) =~= hex_digits(v as nat) + digits@);
    loop
        invariant_except_break
            hex_digits(value as nat) == hex_digits(v as nat) + digits@,
        ensures
            hex_digits(value as nat) == digits@,
        decreases v,
    {
        let d = (v % 16) as u8;
        let c = if d < 10 {
            0x30 + d
        } else {
            0x61 + (d - 10)
        };
        if v < 16 {
            let ghost old_digits = digits@;
            digits.insert(0, c);
            assert(digits@ =~= seq![c] + old_digits);
            assert(hex_digits(v as nat) == seq![c]);
            assert(hex_digits(value as nat) =~= digits@);
            break;
        }
        let ghost old_digits = digits@;
        digits.insert(0, c);
        assert(digits@ =~= seq![c] + old_digits);
        assert(hex_digits(v as nat) == hex_digits((v / 16) as nat).push(c));
        assert(hex_digits(v as nat) + old_digits =~= hex_digits((v / 16) as nat) + digits@);
        v = v / 16;
    }
    let mut out: Vec<u8> = Vec::new();
    out.push(0x30);
    out.push(0x78);
    let mut i: usize = 0;
    while i < digits.len()
        invariant
            i <= digits@.len(),
            out@ == seq![0x30u8, 0x78u8] + digits@.subrange(0, i as int),
        decreases digits@.len() - i,
    {
        out.push(digits[i]);
        i += 1;
        assert(out@ =~= seq![0x30u8, 0x78u8] + digits@.subrange(0, i as int));
    }
    assert(digits@.subrange(0, digits@.len() as int) =~= digits@);
    out
}

/// The bytes that `write_hex(value)` sends.
pub fn write_hex(value: usize) -> (r: Vec<u8>)
    ensures
        r@ == hex_text(value as nat),
{
    hex_bytes(value as u64)
}

} // verus!
