//! Big-endian integer encodings and their inverses.
use vstd::prelude::*;

verus! {

pub open spec fn be16(x: u16) -> Seq<u8> {
    seq![(x / 256) as u8, (x % 256) as u8]
}

pub open spec fn be32(x: u32) -> Seq<u8> {
    seq![
        (x / 0x100_0000) as u8,
        ((x / 0x1_0000) % 256) as u8,
        ((x / 256) % 256) as u8,
        (x % 256) as u8,
    ]
}

pub open spec fn be64(x: u64) -> Seq<u8> {
    be32((x / 0x1_0000_0000) as u32) + be32((x % 0x1_0000_0000) as u32)
}

/// The big-endian value of the two bytes at `i`.
pub open spec fn u16_at(b: Seq<u8>, i: int) -> int {
    b[i] * 256 + b[i + 1]
}

/// The big-endian value of the four bytes at `i`.
pub open spec fn u32_at(b: Seq<u8>, i: int) -> int {
    b[i] * 0x100_0000 + b[i + 1] * 0x1_0000 + b[i + 2] * 256 + b[i + 3]
}

/// The big-endian value of the eight bytes at `i`.
pub open spec fn u64_at(b: Seq<u8>, i: int) -> int {
    u32_at(b, i) * 0x1_0000_0000 + u32_at(b, i + 4)
}

pub proof fn lemma_be16(x: u16)
    ensures
        be16(x).len() == 2,
        u16_at(be16(x), 0) == x,
{
    assert(x == (x / 256) * 256 + x % 256) by (nonlinear_arith);
}

pub proof fn lemma_be32(x: u32)
    ensures
        be32(x).len() == 4,
        u32_at(be32(x), 0) == x,
{
    let a = x / 0x100_0000;
    let b = (x / 0x1_0000) % 256;
    let c = (x / 256) % 256;
    let d = x % 256;
    assert(x == a * 0x100_0000 + b * 0x1_0000 + c * 256 + d) by (nonlinear_arith)
        requires
            a == x / 0x100_0000,
            b == (x / 0x1_0000) % 256,
            c == (x / 256) % 256,
            d == x % 256,
    ;
}

pub proof fn lemma_be64(x: u64)
    ensures
        be64(x).len() == 8,
        u64_at(be64(x), 0) == x,
{
    let hi = (x / 0x1_0000_0000) as u32;
    let lo = (x % 0x1_0000_0000) as u32;
    lemma_be32(hi);
    lemma_be32(lo);
    let s = be64(x);
    assert(s.subrange(0, 4) =~= be32(hi));
    assert(s.subrange(4, 8) =~= be32(lo));
    assert(u32_at(s, 0) == u32_at(be32(hi), 0));
    assert(u32_at(s, 4) == u32_at(be32(lo), 0));
    assert(x == (x / 0x1_0000_0000) * 0x1_0000_0000 + x % 0x1_0000_0000) by (nonlinear_arith);
}

/// Reads the big-endian `u16` at `i`.
pub fn get_u16_be(b: &[u8], i: usize) -> (r: u16)
    requires
        i + 2 <= b.len(),
    ensures
        r == u16_at(b@, i as int),
{
    (b[i] as u16) * 256 + (b[i + 1] as u16)
}

/// Reads the big-endian `u32` at `i`.
pub fn get_u32_be(b: &[u8], i: usize) -> (r: u32)
    requires
        i + 4 <= b.len(),
    ensures
        r == u32_at(b@, i as int),
{
    (b[i] as u32) * 0x100_0000 + (b[i + 1] as u32) * 0x1_0000 + (b[i + 2] as u32) * 256 + (b[i
        + 3] as u32)
}

/// Reads the big-endian `u64` at `i`.
pub fn get_u64_be(b: &[u8], i: usize) -> (r: u64)
    requires
        i + 8 <= b.len(),
    ensures
        r == u64_at(b@, i as int),
{
    let hi = get_u32_be(b, i);
    let lo = get_u32_be(b, i + 4);
    (hi as u64) * 0x1_0000_0000 + (lo as u64)
}

pub fn push_u16_be(v: &mut Vec<u8>, x: u16)
    ensures
        final(v)@ == old(v)@ + be16(x),
{
    v.push((x / 256) as u8);
    v.push((x % 256) as u8);
    assert(final(v)@ =~= old(v)@ + be16(x));
}

pub fn push_u32_be(v: &mut Vec<u8>, x: u32)
    ensures
        final(v)@ == old(v)@ + be32(x),
{
    v.push((x / 0x100_0000) as u8);
    v.push(((x / 0x1_0000) % 256) as u8);
    v.push(((x / 256) % 256) as u8);
    v.push((x % 256) as u8);
    assert(final(v)@ =~= old(v)@ + be32(x));
}

pub fn push_u64_be(v: &mut Vec<u8>, x: u64)
    ensures
        final(v)@ == old(v)@ + be64(x),
{
    let ghost start = v@;
    push_u32_be(v, (x / 0x1_0000_0000) as u32);
    push_u32_be(v, (x % 0x1_0000_0000) as u32);
    assert(v@ =~= start + be64(x));
}

} // verus!
