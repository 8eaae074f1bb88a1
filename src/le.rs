//! Little-endian encoding of the fixed-width integer fields of a bitmap header.

use vstd::prelude::*;

verus! {

/// The two bytes of `x`, least significant first.
pub open spec fn le16(x: u16) -> Seq<u8> {
    seq![(x % 256) as u8, (x / 256) as u8]
}

/// The four bytes of `x`, least significant first.
pub open spec fn le32(x: u32) -> Seq<u8> {
    seq![
        (x % 256) as u8,
        ((x / 256) % 256) as u8,
        ((x / 65536) % 256) as u8,
        (x / 16777216) as u8,
    ]
}

/// The four bytes of the two's-complement pattern of `x`, least significant first.
pub open spec fn le_i32(x: i32) -> Seq<u8> {
    le32(x as u32)
}

/// The value of the two bytes at `i` and `i + 1` of `s`, read least significant first.
pub open spec fn read16(s: Seq<u8>, i: int) -> int {
    s[i] + 256 * s[i + 1]
}

/// The value of the four bytes from `i` of `s`, read least significant first.
pub open spec fn read32(s: Seq<u8>, i: int) -> int {
    s[i] + 256 * s[i + 1] + 65536 * s[i + 2] + 16777216 * s[i + 3]
}

/// Reading back the bytes of a 16-bit value gives the value.
pub proof fn lemma_read16_le16(x: u16)
    ensures
        le16(x).len() == 2,
        read16(le16(x), 0) == x,
{
    assert((x % 256) + 256 * (x / 256) == x) by (nonlinear_arith);
}

/// Reading back the bytes of a 32-bit value gives the value.
pub proof fn lemma_read32_le32(x: u32)
    ensures
        le32(x).len() == 4,
        read32(le32(x), 0) == x,
{
    let a = x / 256;
    let b = a / 256;
    let c = b / 256;
    assert(x == x % 256 + 256 * a) by (nonlinear_arith)
        requires a == x / 256;
    assert(a == a % 256 + 256 * b) by (nonlinear_arith)
        requires b == a / 256;
    assert(b == b % 256 + 256 * c) by (nonlinear_arith)
        requires c == b / 256;
    assert(b == x / 65536) by (nonlinear_arith)
        requires b == (x / 256) / 256;
    assert(c == x / 16777216) by (nonlinear_arith)
        requires c == ((x / 256) / 256) / 256;
    assert(c < 256) by (nonlinear_arith)
        requires c == x / 16777216, x < 0x1_0000_0000;
    assert(read32(le32(x), 0) == x % 256 + 256 * (a % 256) + 65536 * (b % 256) + 16777216 * c);
    assert(x % 256 + 256 * (a % 256) + 65536 * (b % 256) + 16777216 * c == x) by (nonlinear_arith)
        requires
            x == x % 256 + 256 * a,
            a == a % 256 + 256 * b,
            b == b % 256 + 256 * c,
    ;
}

/// Appends the two little-endian bytes of `x` to `out`.
pub fn push_u16(out: &mut Vec<u8>, x: u16)
    ensures
        final(out)@ == old(out)@ + le16(x),
{
    out.push((x % 256) as u8);
    out.push((x / 256) as u8);
    assert(final(out)@ =~= old(out)@ + le16(x));
}

/// Appends the four little-endian bytes of `x` to `out`.
pub fn push_u32(out: &mut Vec<u8>, x: u32)
    ensures
        final(out)@ == old(out)@ + le32(x),
{
    out.push((x % 256) as u8);
    out.push(((x / 256) % 256) as u8);
    out.push(((x / 65536) % 256) as u8);
    out.push((x / 16777216) as u8);
    assert(final(out)@ =~= old(out)@ + le32(x));
}

/// Appends the four little-endian bytes of the two's-complement pattern of `x` to `out`.
pub fn push_i32(out: &mut Vec<u8>, x: i32)
    ensures
        final(out)@ == old(out)@ + le_i32(x),
{
    push_u32(out, x as u32);
}

} // verus!
