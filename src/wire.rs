//! Big-endian integers on the wire.
use vstd::prelude::*;

verus! {

/// The four big-endian bytes of `x`, for `0 <= x < 2^32`.
pub open spec fn be32(x: int) -> Seq<u8> {
    seq![
        (x / 0x100_0000) as u8,
        ((x / 0x1_0000) % 0x100) as u8,
        ((x / 0x100) % 0x100) as u8,
        (x % 0x100) as u8,
    ]
}

/// The two big-endian bytes of `x`, for `0 <= x < 2^16`.
pub open spec fn be16(x: int) -> Seq<u8> {
    seq![(x / 0x100) as u8, (x % 0x100) as u8]
}

/// The unsigned value of the four bytes of `b` that start at `at`.
pub open spec fn read_be32(b: Seq<u8>, at: int) -> int {
    b[at] * 0x100_0000 + b[at + 1] * 0x1_0000 + b[at + 2] * 0x100 + b[at + 3]
}

/// The unsigned value of the two bytes of `b` that start at `at`.
pub open spec fn read_be16(b: Seq<u8>, at: int) -> int {
    b[at] * 0x100 + b[at + 1]
}

/// Two's-complement bit pattern of a signed 32-bit value, as an unsigned number.
pub open spec fn bits32(v: int) -> int {
    if v >= 0 { v } else { v + 0x1_0000_0000 }
}

/// Two's-complement bit pattern of a signed 16-bit value, as an unsigned number.
pub open spec fn bits16(v: int) -> int {
    if v >= 0 { v } else { v + 0x1_0000 }
}

/// The signed 32-bit value whose bit pattern is `u`.
pub open spec fn signed32(u: int) -> int {
    if u >= 0x8000_0000 { u - 0x1_0000_0000 } else { u }
}

pub proof fn lemma_be32_read(x: int, pre: Seq<u8>, post: Seq<u8>)
    requires
        0 <= x < 0x1_0000_0000,
    ensures
        read_be32(pre + be32(x) + post, pre.len() as int) == x,
        (pre + be32(x) + post).len() == pre.len() + 4 + post.len(),
{
    let s = pre + be32(x) + post;
    let n = pre.len() as int;
    assert(s[n] == be32(x)[0]);
    assert(s[n + 1] == be32(x)[1]);
    assert(s[n + 2] == be32(x)[2]);
    assert(s[n + 3] == be32(x)[3]);
    let a = x / 0x100_0000;
    let r1 = x % 0x100_0000;
    assert(x == a * 0x100_0000 + r1 && 0 <= r1 < 0x100_0000) by (nonlinear_arith)
        requires 0 <= x, a == x / 0x100_0000, r1 == x % 0x100_0000;
    assert(0 <= a < 0x100) by (nonlinear_arith)
        requires 0 <= x < 0x1_0000_0000, a == x / 0x100_0000;
    assert(((x / 0x1_0000) % 0x100) == r1 / 0x1_0000) by (nonlinear_arith)
        requires 0 <= x, a == x / 0x100_0000, r1 == x % 0x100_0000, x == a * 0x100_0000 + r1, 0 <= r1 < 0x100_0000;
    assert(((x / 0x100) % 0x100) == (r1 % 0x1_0000) / 0x100) by (nonlinear_arith)
        requires 0 <= x, x == a * 0x100_0000 + r1, 0 <= r1 < 0x100_0000;
    assert(x % 0x100 == r1 % 0x100) by (nonlinear_arith)
        requires 0 <= x, x == a * 0x100_0000 + r1, 0 <= r1 < 0x100_0000;
    assert(r1 == (r1 / 0x1_0000) * 0x1_0000 + ((r1 % 0x1_0000) / 0x100) * 0x100 + r1 % 0x100
        && r1 / 0x1_0000 < 0x100) by (nonlinear_arith)
        requires 0 <= r1 < 0x100_0000;
}

pub proof fn lemma_be16_read(x: int, pre: Seq<u8>, post: Seq<u8>)
    requires
        0 <= x < 0x1_0000,
    ensures
        read_be16(pre + be16(x) + post, pre.len() as int) == x,
        (pre + be16(x) + post).len() == pre.len() + 2 + post.len(),
{
    let s = pre + be16(x) + post;
    let n = pre.len() as int;
    assert(s[n] == be16(x)[0]);
    assert(s[n + 1] == be16(x)[1]);
    assert(x == (x / 0x100) * 0x100 + x % 0x100 && x / 0x100 < 0x100) by (nonlinear_arith)
        requires 0 <= x < 0x1_0000;
}

/// Appends the four big-endian bytes of `x`.
pub fn push_be32(out: &mut Vec<u8>, x: u32)
    ensures
        final(out)@ == old(out)@ + be32(x as int),
{
    out.push((x / 0x100_0000) as u8);
    out.push(((x / 0x1_0000) % 0x100) as u8);
    out.push(((x / 0x100) % 0x100) as u8);
    out.push((x % 0x100) as u8);
    assert(final(out)@ =~= old(out)@ + be32(x as int));
}

/// Appends the two big-endian bytes of `x`.
pub fn push_be16(out: &mut Vec<u8>, x: u16)
    ensures
        final(out)@ == old(out)@ + be16(x as int),
{
    out.push((x / 0x100) as u8);
    out.push((x % 0x100) as u8);
    assert(final(out)@ =~= old(out)@ + be16(x as int));
}

/// Reads four big-endian bytes at `at`.
pub fn get_be32(b: &[u8], at: usize) -> (r: u32)
    requires
        at + 4 <= b@.len(),
    ensures
        r == read_be32(b@, at as int),
{
    let b0 = b[at] as u32;
    let b1 = b[at + 1] as u32;
    let b2 = b[at + 2] as u32;
    let b3 = b[at + 3] as u32;
    b0 * 0x100_0000 + b1 * 0x1_0000 + b2 * 0x100 + b3
}

/// Reads two big-endian bytes at `at`.
pub fn get_be16(b: &[u8], at: usize) -> (r: u16)
    requires
        at + 2 <= b@.len(),
    ensures
        r == read_be16(b@, at as int),
{
    let b0 = b[at] as u16;
    let b1 = b[at + 1] as u16;
    b0 * 0x100 + b1
}

/// Bit pattern of a signed 32-bit value.
pub fn to_bits32(v: i32) -> (r: u32)
    ensures
        r == bits32(v as int),
{
    if v >= 0 {
        v as u32
    } else {
        (v as i64 + 0x1_0000_0000i64) as u32
    }
}

/// Bit pattern of a signed 16-bit value.
pub fn to_bits16(v: i16) -> (r: u16)
    ensures
        r == bits16(v as int),
{
    if v >= 0 {
        v as u16
    } else {
        (v as i32 + 0x1_0000i32) as u16
    }
}

/// The signed 32-bit value of a bit pattern.
pub fn from_bits32(u: u32) -> (r: i32)
    ensures
        r == signed32(u as int),
{
    if u >= 0x8000_0000 {
        (u as i64 - 0x1_0000_0000i64) as i32
    } else {
        u as i32
    }
}

} // verus!
