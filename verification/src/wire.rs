//! Big-endian integer encodings and byte-copy helpers shared by the binary
//! formats of the crate (block containers, IPC frames, signed payloads).
use vstd::prelude::*;

verus! {

/// Two bytes, most significant first.
pub open spec fn be16(n: u16) -> Seq<u8> {
    seq![(n / 256) as u8, (n % 256) as u8]
}

/// Four bytes, most significant first.
#[verifier::opaque]
pub open spec fn be32(n: u32) -> Seq<u8> {
    seq![(n / 16777216) as u8, ((n / 65536) % 256) as u8, ((n / 256) % 256) as u8, (n % 256) as u8]
}

/// Eight bytes, most significant first.
pub open spec fn be64(n: u64) -> Seq<u8> {
    be32((n / 4294967296) as u32) + be32((n % 4294967296) as u32)
}

/// The number that two big-endian bytes stand for.
pub open spec fn be16_value(b0: u8, b1: u8) -> int {
    b0 * 256 + b1
}

/// The number that four big-endian bytes stand for.
pub open spec fn be32_value(b: Seq<u8>) -> int {
    b[0] * 16777216 + b[1] * 65536 + b[2] * 256 + b[3]
}

pub proof fn lemma_be16_roundtrip(n: u16)
    ensures
        be16(n).len() == 2,
        be16_value(be16(n)[0], be16(n)[1]) == n,
{
}

pub proof fn lemma_be32_roundtrip(n: u32)
    ensures
        be32(n).len() == 4,
        be32_value(be32(n)) == n,
{
    reveal(be32);
    let a = n / 16777216;
    let r = n % 16777216;
    assert(n == a * 16777216 + r);
    assert(r / 65536 == (n / 65536) % 256);
    assert(((n / 256) % 256) == (r % 65536) / 256);
    assert(r == (r / 65536) * 65536 + (r % 65536));
    assert((r % 65536) == ((r % 65536) / 256) * 256 + (n % 256));
}

/// `n` as two big-endian bytes.
pub fn put_be16(out: &mut Vec<u8>, n: u16)
    ensures
        final(out)@ == old(out)@ + be16(n),
{
    out.push((n / 256) as u8);
    out.push((n % 256) as u8);
}

/// `n` as four big-endian bytes.
pub fn put_be32(out: &mut Vec<u8>, n: u32)
    ensures
        final(out)@ == old(out)@ + be32(n),
{
    reveal(be32);
    out.push((n / 16777216) as u8);
    out.push(((n / 65536) % 256) as u8);
    out.push(((n / 256) % 256) as u8);
    out.push((n % 256) as u8);
}

/// `n` as eight big-endian bytes.
pub fn put_be64(out: &mut Vec<u8>, n: u64)
    ensures
        final(out)@ == old(out)@ + be64(n),
{
    put_be32(out, (n / 4294967296) as u32);
    put_be32(out, (n % 4294967296) as u32);
}

/// Reads four big-endian bytes at `p`.
pub fn get_be32(bytes: &[u8], p: usize) -> (n: u32)
    requires
        p + 4 <= bytes@.len(),
    ensures
        n == be32_value(bytes@.subrange(p as int, p + 4)),
{
    let b0 = bytes[p] as u32;
    let b1 = bytes[p + 1] as u32;
    let b2 = bytes[p + 2] as u32;
    let b3 = bytes[p + 3] as u32;
    b0 * 16777216 + b1 * 65536 + b2 * 256 + b3
}

/// Appends all of `src` to `out`.
pub fn put_bytes(out: &mut Vec<u8>, src: &[u8])
    ensures
        final(out)@ == old(out)@ + src@,
{
    let mut i: usize = 0;
    let ghost start = out@;
    while i < src.len()
        invariant
            i <= src@.len(),
            out@ == start + src@.take(i as int),
        decreases src@.len() - i,
    {
        out.push(src[i]);
        i = i + 1;
        assert(src@.take(i as int) == src@.take(i - 1).push(src@[i - 1]));
    }
    assert(src@.take(i as int) == src@);
}

/// A copy of `len` bytes of `bytes` starting at `start`.
pub fn copy_range(bytes: &[u8], start: usize, len: usize) -> (v: Vec<u8>)
    requires
        start + len <= bytes@.len(),
    ensures
        v@ == bytes@.subrange(start as int, start + len),
{
    let mut v: Vec<u8> = Vec::new();
    let mut i: usize = 0;
    let blen = bytes.len();
    while i < len
        invariant
            i <= len,
            blen == bytes@.len(),
            start + len <= bytes@.len(),
            v@ == bytes@.subrange(start as int, start + i),
        decreases len - i,
    {
        assert(start + i < bytes@.len());
        v.push(bytes[start + i]);
        i = i + 1;
        assert(bytes@.subrange(start as int, start + i) == bytes@.subrange(start as int, start + i - 1).push(bytes@[start + i - 1]));
    }
    v
}

} // verus!
