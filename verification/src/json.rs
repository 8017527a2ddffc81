//! Compact canonical JSON bytes for the values that make up a benchmark
//! artifact: strings, unsigned integers, booleans, optional integers, and
//! literal framing. Strings are escaped byte by byte over their UTF-8
//! encoding: quote, backslash and the control bytes get a backslash escape,
//! every other byte is copied.

use vstd::prelude::*;
use vstd::string::StringSliceAdditionalSpecFns;
use vstd::utf8::encode_utf8;

use crate::encoding::push_bytes;
use crate::text::{dec, decimal, decimal_u128, decimal_usize};

verus! {

/// Lower-case hexadecimal digit byte for `d < 16`.
pub open spec fn hex_digit_byte(d: u8) -> u8 {
    if d < 10 {
        (0x30 + d) as u8
    } else {
        (0x61 + (d - 10)) as u8
    }
}

/// The bytes that stand for `b` inside a JSON string.
pub open spec fn escape_byte(b: u8) -> Seq<u8> {
    if b == 0x22 {
        seq![0x5cu8, 0x22u8]
    } else if b == 0x5c {
        seq![0x5cu8, 0x5cu8]
    } else if b == 0x08 {
        seq![0x5cu8, 0x62u8]
    } else if b == 0x09 {
        seq![0x5cu8, 0x74u8]
    } else if b == 0x0a {
        seq![0x5cu8, 0x6eu8]
    } else if b == 0x0c {
        seq![0x5cu8, 0x66u8]
    } else if b == 0x0d {
        seq![0x5cu8, 0x72u8]
    } else if b < 0x20 {
        seq![0x5cu8, 0x75u8, 0x30u8, 0x30u8, hex_digit_byte(b / 16), hex_digit_byte(b % 16)]
    } else {
        seq![b]
    }
}

/// Escapes every byte of `s`, in order.
pub open spec fn escape_bytes(s: Seq<u8>) -> Seq<u8>
    decreases s.len(),
{
    if s.len() == 0 {
        Seq::empty()
    } else {
        escape_bytes(s.drop_last()) + escape_byte(s.last())
    }
}

/// A quoted, escaped JSON string.
pub open spec fn json_string(s: Seq<char>) -> Seq<u8> {
    seq![0x22u8] + escape_bytes(encode_utf8(s)) + seq![0x22u8]
}

/// A JSON number: the decimal digits of `n`.
pub open spec fn json_nat(n: nat) -> Seq<u8> {
    encode_utf8(dec(n))
}

/// A JSON boolean.
pub open spec fn json_bool(b: bool) -> Seq<u8> {
    if b {
        encode_utf8("true"@)
    } else {
        encode_utf8("false"@)
    }
}

/// An optional `u64`: its number, or `null`.
pub open spec fn json_opt_u64(o: Option<u64>) -> Seq<u8> {
    match o {
        Some(v) => json_nat(v as nat),
        None => encode_utf8("null"@),
    }
}

/// An optional `usize`: its number, or `null`.
pub open spec fn json_opt_usize(o: Option<usize>) -> Seq<u8> {
    match o {
        Some(v) => json_nat(v as nat),
        None => encode_utf8("null"@),
    }
}

fn escape_into(out: &mut Vec<u8>, b: u8)
    ensures
        final(out)@ == old(out)@ + escape_byte(b),
{
    if b == 0x22 || b == 0x5c {
        out.push(0x5c);
        out.push(b);
    } else if b == 0x08 {
        out.push(0x5c);
        out.push(0x62);
    } else if b == 0x09 {
        out.push(0x5c);
        out.push(0x74);
    } else if b == 0x0a {
        out.push(0x5c);
        out.push(0x6e);
    } else if b == 0x0c {
        out.push(0x5c);
        out.push(0x66);
    } else if b == 0x0d {
        out.push(0x5c);
        out.push(0x72);
    } else if b < 0x20 {
        let hi = b / 16;
        let lo = b % 16;
        out.push(0x5c);
        out.push(0x75);
        out.push(0x30);
        out.push(0x30);
        out.push(if hi < 10 { 0x30 + hi } else { 0x61 + (hi - 10) });
        out.push(if lo < 10 { 0x30 + lo } else { 0x61 + (lo - 10) });
    } else {
        out.push(b);
    }
    proof {
        assert(final(out)@ =~= old(out)@ + escape_byte(b));
    }
}

/// Appends `s` as a quoted, escaped JSON string.
pub fn push_json_string(out: &mut Vec<u8>, s: &str)
    ensures
        final(out)@ == old(out)@ + json_string(s@),
{
    let ghost start = out@;
    let bytes = s.as_bytes();
    out.push(0x22);
    let mut i: usize = 0;
    assert(bytes@.subrange(0, 0) =~= Seq::<u8>::empty());
    while i < bytes.len()
        invariant
            0 <= i <= bytes@.len(),
            bytes@ == encode_utf8(s@),
            out@ == start + seq![0x22u8] + escape_bytes(bytes@.subrange(0, i as int)),
        decreases bytes@.len() - i,
    {
        escape_into(out, bytes[i]);
        proof {
            let pre = bytes@.subrange(0, i + 1);
            assert(pre.drop_last() =~= bytes@.subrange(0, i as int));
            assert(pre.last() == bytes@[i as int]);
            assert(out@ =~= start + seq![0x22u8] + escape_bytes(pre));
        }
        i = i + 1;
    }
    assert(bytes@.subrange(0, bytes@.len() as int) =~= bytes@);
    out.push(0x22);
    assert(out@ =~= start + json_string(s@));
}

/// Appends the UTF-8 bytes of `s` as they are.
pub fn push_raw(out: &mut Vec<u8>, s: &str)
    ensures
        final(out)@ == old(out)@ + encode_utf8(s@),
{
    push_bytes(out, s.as_bytes());
}

/// Appends `n` as a JSON number.
pub fn push_json_usize(out: &mut Vec<u8>, n: usize)
    ensures
        final(out)@ == old(out)@ + json_nat(n as nat),
{
    let digits = decimal_usize(n);
    push_raw(out, digits.as_str());
}

/// Appends `n` as a JSON number.
pub fn push_json_u64(out: &mut Vec<u8>, n: u64)
    ensures
        final(out)@ == old(out)@ + json_nat(n as nat),
{
    let digits = decimal(n);
    push_raw(out, digits.as_str());
}

/// Appends `n` as a JSON number.
pub fn push_json_u128(out: &mut Vec<u8>, n: u128)
    ensures
        final(out)@ == old(out)@ + json_nat(n as nat),
{
    let digits = decimal_u128(n);
    push_raw(out, digits.as_str());
}

/// Appends `b` as a JSON boolean.
pub fn push_json_bool(out: &mut Vec<u8>, b: bool)
    ensures
        final(out)@ == old(out)@ + json_bool(b),
{
    if b {
        push_raw(out, "true");
    } else {
        push_raw(out, "false");
    }
}

/// Appends an optional `u64` as a JSON number or `null`.
pub fn push_json_opt_u64(out: &mut Vec<u8>, o: Option<u64>)
    ensures
        final(out)@ == old(out)@ + json_opt_u64(o),
{
    match o {
        Some(v) => push_json_u64(out, v),
        None => push_raw(out, "null"),
    }
}

/// Appends an optional `usize` as a JSON number or `null`.
pub fn push_json_opt_usize(out: &mut Vec<u8>, o: Option<usize>)
    ensures
        final(out)@ == old(out)@ + json_opt_usize(o),
{
    match o {
        Some(v) => push_json_usize(out, v),
        None => push_raw(out, "null"),
    }
}

} // verus!
