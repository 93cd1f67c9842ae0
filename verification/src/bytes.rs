//! Little-endian byte encoding helpers and zero-fill padding for the
//! output image. All multi-byte fields of the cartridge format are
//! little-endian.

use vstd::prelude::*;

verus! {

/// A run of `n` zero bytes.
pub open spec fn seq_zeros(n: int) -> Seq<u8> {
    Seq::new(n as nat, |i: int| 0u8)
}

/// The value encoded by two little-endian bytes.
pub open spec fn le16(b0: u8, b1: u8) -> u16 {
    (b0 as u16) | ((b1 as u16) << 8)
}

/// The value encoded by four little-endian bytes.
pub open spec fn le32(b0: u8, b1: u8, b2: u8, b3: u8) -> u32 {
    (b0 as u32) | ((b1 as u32) << 8) | ((b2 as u32) << 16) | ((b3 as u32) << 24)
}

/// The 16-bit value stored little-endian at offset `off` of `s`.
pub open spec fn le16_at(s: Seq<u8>, off: int) -> u16 {
    le16(s[off], s[off + 1])
}

/// The 32-bit value stored little-endian at offset `off` of `s`.
pub open spec fn le32_at(s: Seq<u8>, off: int) -> u32 {
    le32(s[off], s[off + 1], s[off + 2], s[off + 3])
}

/// The two-byte little-endian encoding of `v`.
pub open spec fn u16_le_seq(v: u16) -> Seq<u8> {
    seq![(v & 0xFF) as u8, ((v >> 8) & 0xFF) as u8]
}

/// The four-byte little-endian encoding of `v`.
pub open spec fn u32_le_seq(v: u32) -> Seq<u8> {
    seq![
        (v & 0xFF) as u8,
        ((v >> 8) & 0xFF) as u8,
        ((v >> 16) & 0xFF) as u8,
        ((v >> 24) & 0xFF) as u8,
    ]
}

/// Decoding the two-byte encoding of `v` gives back `v`.
pub proof fn lemma_le16_round(v: u16)
    ensures
        le16(u16_le_seq(v)[0], u16_le_seq(v)[1]) == v,
{
    assert((((v & 0xFF) as u8) as u16) | ((((v >> 8) & 0xFF) as u8) as u16) << 8 == v)
        by (bit_vector);
}

/// Decoding the four-byte encoding of `v` gives back `v`.
pub proof fn lemma_le32_round(v: u32)
    ensures
        le32(u32_le_seq(v)[0], u32_le_seq(v)[1], u32_le_seq(v)[2], u32_le_seq(v)[3]) == v,
{
    assert((((v & 0xFF) as u8) as u32) | ((((v >> 8) & 0xFF) as u8) as u32) << 8
        | ((((v >> 16) & 0xFF) as u8) as u32) << 16 | ((((v >> 24) & 0xFF) as u8) as u32) << 24
        == v) by (bit_vector);
}

/// A subrange taken inside the left part of a concatenation reads the
/// left part alone.
pub proof fn lemma_concat_subrange_left(s: Seq<u8>, t: Seq<u8>, a: int, b: int)
    requires
        0 <= a <= b <= s.len(),
    ensures
        (s + t).subrange(a, b) == s.subrange(a, b),
{
    assert((s + t).subrange(a, b) =~= s.subrange(a, b));
}

/// A subrange taken inside the right part of a concatenation reads the
/// right part alone, shifted by the left part's length.
pub proof fn lemma_concat_subrange_right(s: Seq<u8>, t: Seq<u8>, a: int, b: int)
    requires
        s.len() <= a <= b <= s.len() + t.len(),
    ensures
        (s + t).subrange(a, b) == t.subrange(a - s.len(), b - s.len()),
{
    assert((s + t).subrange(a, b) =~= t.subrange(a - s.len(), b - s.len()));
}

/// A 16-bit value written at `off` reads back as itself.
pub proof fn lemma_read_back_u16(s: Seq<u8>, off: int, v: u16)
    requires
        0 <= off,
        off + 2 <= s.len(),
        s.subrange(off, off + 2) == u16_le_seq(v),
    ensures
        le16_at(s, off) == v,
{
    assert(s[off] == s.subrange(off, off + 2)[0]);
    assert(s[off + 1] == s.subrange(off, off + 2)[1]);
    lemma_le16_round(v);
}

/// A 32-bit value written at `off` reads back as itself.
pub proof fn lemma_read_back_u32(s: Seq<u8>, off: int, v: u32)
    requires
        0 <= off,
        off + 4 <= s.len(),
        s.subrange(off, off + 4) == u32_le_seq(v),
    ensures
        le32_at(s, off) == v,
{
    assert(s[off] == s.subrange(off, off + 4)[0]);
    assert(s[off + 1] == s.subrange(off, off + 4)[1]);
    assert(s[off + 2] == s.subrange(off, off + 4)[2]);
    assert(s[off + 3] == s.subrange(off, off + 4)[3]);
    lemma_le32_round(v);
}

/// Reads the 16-bit little-endian value at `off`.
pub fn read_u16_at(data: &[u8], off: usize) -> (r: u16)
    requires
        off + 2 <= data@.len(),
    ensures
        r == le16_at(data@, off as int),
{
    let b0 = data[off];
    let b1 = data[off + 1];
    (b0 as u16) | ((b1 as u16) << 8)
}

/// Reads the 32-bit little-endian value at `off`.
pub fn read_u32_at(data: &[u8], off: usize) -> (r: u32)
    requires
        off + 4 <= data@.len(),
    ensures
        r == le32_at(data@, off as int),
{
    let b0 = data[off];
    let b1 = data[off + 1];
    let b2 = data[off + 2];
    let b3 = data[off + 3];
    (b0 as u32) | ((b1 as u32) << 8) | ((b2 as u32) << 16) | ((b3 as u32) << 24)
}

/// Appends the two-byte little-endian encoding of `v`.
pub fn push_u16_le(out: &mut Vec<u8>, v: u16)
    ensures
        final(out)@ == old(out)@ + u16_le_seq(v),
{
    proof {
        assert(v & 0xFF < 256 && (v >> 8) & 0xFF < 256) by (bit_vector);
    }
    out.push((v & 0xFF) as u8);
    out.push(((v >> 8) & 0xFF) as u8);
    proof {
        assert(out@ =~= old(out)@ + u16_le_seq(v));
    }
}

/// Appends the four-byte little-endian encoding of `v`.
pub fn push_u32_le(out: &mut Vec<u8>, v: u32)
    ensures
        final(out)@ == old(out)@ + u32_le_seq(v),
{
    proof {
        assert(v & 0xFF < 256 && (v >> 8) & 0xFF < 256 && (v >> 16) & 0xFF < 256
            && (v >> 24) & 0xFF < 256) by (bit_vector);
    }
    out.push((v & 0xFF) as u8);
    out.push(((v >> 8) & 0xFF) as u8);
    out.push(((v >> 16) & 0xFF) as u8);
    out.push(((v >> 24) & 0xFF) as u8);
    proof {
        assert(out@ =~= old(out)@ + u32_le_seq(v));
    }
}

/// Appends `n` zero bytes.
pub fn push_zeros(out: &mut Vec<u8>, n: usize)
    requires
        old(out)@.len() + n <= usize::MAX,
    ensures
        final(out)@ == old(out)@ + seq_zeros(n as int),
{
    let mut i: usize = 0;
    while i < n
        invariant
            i <= n,
            out@ == old(out)@ + seq_zeros(i as int),
            old(out)@.len() + n <= usize::MAX,
        decreases n - i,
    {
        out.push(0u8);
        i = i + 1;
        proof {
            assert(out@ =~= old(out)@ + seq_zeros(i as int));
        }
    }
}

/// Extends `out` so that it is exactly `target` bytes long, zero-filling
/// the new tail.
pub fn pad_to(out: &mut Vec<u8>, target: usize)
    requires
        old(out)@.len() <= target,
    ensures
        final(out)@ == old(out)@ + seq_zeros(target - old(out)@.len()),
        final(out)@.len() == target,
{
    let n = target - out.len();
    push_zeros(out, n);
}

/// Appends a copy of every byte of `src`.
pub fn push_bytes(out: &mut Vec<u8>, src: &Vec<u8>)
    requires
        old(out)@.len() + src@.len() <= usize::MAX,
    ensures
        final(out)@ == old(out)@ + src@,
{
    let mut i: usize = 0;
    while i < src.len()
        invariant
            i <= src@.len(),
            out@ == old(out)@ + src@.take(i as int),
            old(out)@.len() + src@.len() <= usize::MAX,
        decreases src@.len() - i,
    {
        out.push(src[i]);
        i = i + 1;
        proof {
            assert(out@ =~= old(out)@ + src@.take(i as int));
        }
    }
    proof {
        assert(out@ =~= old(out)@ + src@);
    }
}

/// Copies `len` bytes of `data` starting at `start` into a fresh vector.
pub fn copy_range(data: &[u8], start: usize, len: usize) -> (r: Vec<u8>)
    requires
        start + len <= data@.len(),
    ensures
        r@ == data@.subrange(start as int, start + len),
{
    let dlen: usize = data.len();
    let mut r: Vec<u8> = Vec::new();
    let mut i: usize = 0;
    while i < len
        invariant
            i <= len,
            start + len <= data@.len(),
            data@.len() == dlen,
            r@ == data@.subrange(start as int, start + i),
        decreases len - i,
    {
        r.push(data[start + i]);
        i = i + 1;
        proof {
            assert(r@ =~= data@.subrange(start as int, start + i));
        }
    }
    r
}

} // verus!
