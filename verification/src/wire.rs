//! Integers and texts as bytes: the building blocks of every persisted layout.
//!
//! An integer of fixed width is written lowest byte first. A text is written
//! as its length in bytes, four bytes wide, followed by its UTF-8 encoding.
use vstd::prelude::*;
use vstd::utf8::{encode_utf8, valid_utf8, decode_utf8};

verus! {

/// The four bytes of `x`, lowest first.
pub open spec fn u32_bytes(x: u32) -> Seq<u8> {
    seq![
        (x % 256) as u8,
        (x / 256 % 256) as u8,
        (x / 256 / 256 % 256) as u8,
        (x / 256 / 256 / 256 % 256) as u8,
    ]
}

/// The integer whose four bytes, lowest first, are `b`.
pub open spec fn u32_value(b: Seq<u8>) -> u32
    recommends
        b.len() == 4,
{
    (b[0] + 256 * (b[1] + 256 * (b[2] + 256 * b[3]))) as u32
}

/// The eight bytes of `x`, lowest first.
pub open spec fn u64_bytes(x: u64) -> Seq<u8> {
    u32_bytes((x % 0x1_0000_0000) as u32) + u32_bytes((x / 0x1_0000_0000) as u32)
}

/// The integer whose eight bytes, lowest first, are `b`.
pub open spec fn u64_value(b: Seq<u8>) -> u64
    recommends
        b.len() == 8,
{
    (u32_value(b.subrange(0, 4)) + 0x1_0000_0000 * u32_value(b.subrange(4, 8))) as u64
}

/// Whether a text is short enough for its length to be written in four bytes.
pub open spec fn text_fits(s: Seq<char>) -> bool {
    encode_utf8(s).len() <= u32::MAX
}

/// A text as bytes: the length of its UTF-8 encoding, then the encoding.
pub open spec fn text_bytes(s: Seq<char>) -> Seq<u8> {
    u32_bytes(encode_utf8(s).len() as u32) + encode_utf8(s)
}

/// The base-256 digits of a number of four digits, read off by division.
proof fn lemma_four_digits(d0: u8, d1: u8, d2: u8, d3: u8)
    ensures
        ({
            let x = d0 + 256 * (d1 + 256 * (d2 + 256 * d3));
            &&& 0 <= x <= u32::MAX
            &&& x % 256 == d0
            &&& x / 256 % 256 == d1
            &&& x / 256 / 256 % 256 == d2
            &&& x / 256 / 256 / 256 % 256 == d3
        }),
{
    let x3 = d3 as int;
    let x2 = d2 + 256 * x3;
    let x1 = d1 + 256 * x2;
    let x0 = d0 + 256 * x1;
    assert(x0 / 256 == x1 && x0 % 256 == d0);
    assert(x1 / 256 == x2 && x1 % 256 == d1);
    assert(x2 / 256 == x3 && x2 % 256 == d2);
}

/// A number below 2^64, split into its lower and upper half and put together again.
proof fn lemma_two_halves(low: u32, high: u32)
    ensures
        ({
            let x = low + 0x1_0000_0000 * high;
            &&& 0 <= x <= u64::MAX
            &&& x % 0x1_0000_0000 == low
            &&& x / 0x1_0000_0000 == high
        }),
{
}

/// Four bytes written and read back give the integer that was written.
pub proof fn lemma_u32_value_of_bytes(x: u32)
    ensures
        u32_bytes(x).len() == 4,
        u32_value(u32_bytes(x)) == x,
{
    let q1 = x / 256;
    let q2 = q1 / 256;
    let q3 = q2 / 256;
    assert(x == x % 256 + 256 * q1);
    assert(q1 == q1 % 256 + 256 * q2);
    assert(q2 == q2 % 256 + 256 * q3);
    assert(q3 == q3 % 256);
}

/// Four bytes read and written back give the bytes that were read.
pub proof fn lemma_u32_bytes_of_value(b: Seq<u8>)
    requires
        b.len() == 4,
    ensures
        u32_bytes(u32_value(b)) == b,
{
    lemma_four_digits(b[0], b[1], b[2], b[3]);
    assert(u32_bytes(u32_value(b)) =~= b);
}

/// Eight bytes written and read back give the integer that was written.
pub proof fn lemma_u64_value_of_bytes(x: u64)
    ensures
        u64_bytes(x).len() == 8,
        u64_value(u64_bytes(x)) == x,
{
    let low = (x % 0x1_0000_0000) as u32;
    let high = (x / 0x1_0000_0000) as u32;
    lemma_u32_value_of_bytes(low);
    lemma_u32_value_of_bytes(high);
    assert(u64_bytes(x).subrange(0, 4) =~= u32_bytes(low));
    assert(u64_bytes(x).subrange(4, 8) =~= u32_bytes(high));
}

/// Eight bytes read and written back give the bytes that were read.
pub proof fn lemma_u64_bytes_of_value(b: Seq<u8>)
    requires
        b.len() == 8,
    ensures
        u64_bytes(u64_value(b)) == b,
{
    let low = u32_value(b.subrange(0, 4));
    let high = u32_value(b.subrange(4, 8));
    lemma_u32_bytes_of_value(b.subrange(0, 4));
    lemma_u32_bytes_of_value(b.subrange(4, 8));
    lemma_two_halves(low, high);
    assert(u64_bytes(u64_value(b)) =~= b.subrange(0, 4) + b.subrange(4, 8));
    assert(b.subrange(0, 4) + b.subrange(4, 8) =~= b);
}

/// Appends the four bytes of `x`.
pub(crate) fn put_u32(out: &mut Vec<u8>, x: u32)
    ensures
        final(out)@ == old(out)@ + u32_bytes(x),
{
    out.push((x % 256) as u8);
    out.push((x / 256 % 256) as u8);
    out.push((x / 256 / 256 % 256) as u8);
    out.push((x / 256 / 256 / 256 % 256) as u8);
    assert(out@ =~= old(out)@ + u32_bytes(x));
}

/// Appends the eight bytes of `x`.
pub(crate) fn put_u64(out: &mut Vec<u8>, x: u64)
    ensures
        final(out)@ == old(out)@ + u64_bytes(x),
{
    put_u32(out, (x % 0x1_0000_0000) as u32);
    put_u32(out, (x / 0x1_0000_0000) as u32);
    assert(out@ =~= old(out)@ + u64_bytes(x));
}

/// Appends a copy of `src`.
pub(crate) fn put_bytes(out: &mut Vec<u8>, src: &[u8])
    ensures
        final(out)@ == old(out)@ + src@,
{
    let mut i: usize = 0;
    while i < src.len()
        invariant
            i <= src.len(),
            out@ == old(out)@ + src@.subrange(0, i as int),
        decreases src.len() - i,
    {
        out.push(src[i]);
        i += 1;
        assert(out@ =~= old(out)@ + src@.subrange(0, i as int));
    }
    assert(src@.subrange(0, i as int) =~= src@);
}

/// Appends a text: its length in bytes, then its UTF-8 encoding.
pub(crate) fn put_text(out: &mut Vec<u8>, s: &str)
    requires
        text_fits(s@),
    ensures
        final(out)@ == old(out)@ + text_bytes(s@),
{
    let raw = s.as_bytes();
    put_u32(out, raw.len() as u32);
    put_bytes(out, raw);
    assert(out@ =~= old(out)@ + text_bytes(s@));
}

/// Reads the integer that the four bytes from `at` on spell.
pub(crate) fn get_u32(bytes: &[u8], at: usize) -> (x: u32)
    requires
        at + 4 <= bytes.len(),
    ensures
        x == u32_value(bytes@.subrange(at as int, at + 4)),
{
    let b0 = bytes[at] as u32;
    let b1 = bytes[at + 1] as u32;
    let b2 = bytes[at + 2] as u32;
    let b3 = bytes[at + 3] as u32;
    b0 + 256 * (b1 + 256 * (b2 + 256 * b3))
}

/// Reads the integer that the eight bytes from `at` on spell.
pub(crate) fn get_u64(bytes: &[u8], at: usize) -> (x: u64)
    requires
        at + 8 <= bytes.len(),
    ensures
        x == u64_value(bytes@.subrange(at as int, at + 8)),
{
    let low = get_u32(bytes, at) as u64;
    let high = get_u32(bytes, at + 4) as u64;
    proof {
        let b = bytes@.subrange(at as int, at + 8);
        assert(b.subrange(0, 4) =~= bytes@.subrange(at as int, at + 4));
        assert(b.subrange(4, 8) =~= bytes@.subrange(at + 4, at + 8));
    }
    low + 0x1_0000_0000 * high
}

/// The text that `bytes` encode in UTF-8, if they encode one.
///
/// This is `core::str::from_utf8`, which answers with the string slice over
/// exactly these bytes when they are well-formed UTF-8 and with an error
/// otherwise. The contract says the same: a text comes back exactly for
/// well-formed bytes, and its encoding is the bytes that went in.
#[verifier::external_body]
pub(crate) fn utf8_text(bytes: &[u8]) -> (r: Option<&str>)
    ensures
        r.is_some() <==> valid_utf8(bytes@),
        r matches Some(s) ==> encode_utf8(s@) == bytes@,
{
    core::str::from_utf8(bytes).ok()
}

/// Reads the text whose UTF-8 encoding is `bytes`.
pub(crate) fn get_text(bytes: &[u8]) -> (r: Option<String>)
    ensures
        r.is_some() <==> valid_utf8(bytes@),
        r matches Some(s) ==> s@ == decode_utf8(bytes@),
{
    match utf8_text(bytes) {
        Some(s) => {
            proof {
                vstd::utf8::encode_utf8_decode_utf8(s@);
            }
            Some(s.to_owned())
        },
        None => None,
    }
}

} // verus!
