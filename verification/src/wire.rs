//! Fixed-width integer fields as they appear on the wire and on disk.
//!
//! The network protocol writes every multi-byte integer big-endian; the
//! persistence formats write them little-endian. Both layouts are defined
//! here once, as sequences of bytes, together with the executable readers
//! and writers that the framing code is built from.

use vstd::prelude::*;

verus! {

/// Big-endian bytes of a 16-bit value.
pub open spec fn u16_be(v: u16) -> Seq<u8> {
    seq![(v / 0x100) as u8, (v % 0x100) as u8]
}

/// Big-endian bytes of a 32-bit value.
pub open spec fn u32_be(v: u32) -> Seq<u8> {
    seq![
        (v / 0x100_0000) as u8,
        (v / 0x1_0000 % 0x100) as u8,
        (v / 0x100 % 0x100) as u8,
        (v % 0x100) as u8,
    ]
}

/// Big-endian bytes of a 64-bit value.
pub open spec fn u64_be(v: u64) -> Seq<u8> {
    seq![
        (v / 0x100_0000_0000_0000) as u8,
        (v / 0x1_0000_0000_0000 % 0x100) as u8,
        (v / 0x100_0000_0000 % 0x100) as u8,
        (v / 0x1_0000_0000 % 0x100) as u8,
        (v / 0x100_0000 % 0x100) as u8,
        (v / 0x1_0000 % 0x100) as u8,
        (v / 0x100 % 0x100) as u8,
        (v % 0x100) as u8,
    ]
}

/// Little-endian bytes of a 32-bit value.
pub open spec fn u32_le(v: u32) -> Seq<u8> {
    u32_be(v).reverse()
}

/// Little-endian bytes of a 64-bit value.
pub open spec fn u64_le(v: u64) -> Seq<u8> {
    u64_be(v).reverse()
}

/// The 16-bit value whose big-endian bytes start at `at`.
pub open spec fn be_u16_at(s: Seq<u8>, at: int) -> u16 {
    (s[at] as int * 0x100 + s[at + 1] as int) as u16
}

/// The 32-bit value whose big-endian bytes start at `at`.
pub open spec fn be_u32_at(s: Seq<u8>, at: int) -> u32 {
    (s[at] as int * 0x100_0000 + s[at + 1] as int * 0x1_0000 + s[at + 2] as int * 0x100
        + s[at + 3] as int) as u32
}

/// The 64-bit value whose big-endian bytes start at `at`.
pub open spec fn be_u64_at(s: Seq<u8>, at: int) -> u64 {
    (s[at] as int * 0x100_0000_0000_0000 + s[at + 1] as int * 0x1_0000_0000_0000
        + s[at + 2] as int * 0x100_0000_0000 + s[at + 3] as int * 0x1_0000_0000
        + s[at + 4] as int * 0x100_0000 + s[at + 5] as int * 0x1_0000 + s[at + 6] as int * 0x100
        + s[at + 7] as int) as u64
}

/// The 32-bit value whose little-endian bytes start at `at`.
pub open spec fn le_u32_at(s: Seq<u8>, at: int) -> u32 {
    (s[at + 3] as int * 0x100_0000 + s[at + 2] as int * 0x1_0000 + s[at + 1] as int * 0x100
        + s[at] as int) as u32
}

/// The 64-bit value whose little-endian bytes start at `at`.
pub open spec fn le_u64_at(s: Seq<u8>, at: int) -> u64 {
    (s[at + 7] as int * 0x100_0000_0000_0000 + s[at + 6] as int * 0x1_0000_0000_0000
        + s[at + 5] as int * 0x100_0000_0000 + s[at + 4] as int * 0x1_0000_0000
        + s[at + 3] as int * 0x100_0000 + s[at + 2] as int * 0x1_0000 + s[at + 1] as int * 0x100
        + s[at] as int) as u64
}

/// Two's complement image of a signed 64-bit value.
pub open spec fn i64_bits(v: i64) -> u64 {
    if v >= 0 {
        v as u64
    } else {
        (v + 0x1_0000_0000_0000_0000) as u64
    }
}

/// The signed value with the given two's complement image.
pub open spec fn bits_i64(b: u64) -> i64 {
    if b < 0x8000_0000_0000_0000 {
        b as i64
    } else {
        (b - 0x1_0000_0000_0000_0000) as i64
    }
}

/// Big-endian bytes of a signed 64-bit value.
pub open spec fn i64_be(v: i64) -> Seq<u8> {
    u64_be(i64_bits(v))
}

/// The signed 64-bit value whose big-endian bytes start at `at`.
pub open spec fn be_i64_at(s: Seq<u8>, at: int) -> i64 {
    bits_i64(be_u64_at(s, at))
}

/// Where the bytes at `at` are those written for `v`, reading at `at`
/// gives `v`.
pub proof fn lemma_be_u16_window(s: Seq<u8>, at: int, v: u16)
    requires
        0 <= at,
        at + 2 <= s.len(),
        s.subrange(at, at + 2) == u16_be(v),
    ensures
        be_u16_at(s, at) == v,
{
    let w = s.subrange(at, at + 2);
    assert(w[0] == s[at] && w[1] == s[at + 1]);
}

/// Where the four bytes at `at` are those of `v`, `v` is read there.
pub proof fn lemma_be_u32_window(s: Seq<u8>, at: int, v: u32)
    requires
        0 <= at,
        at + 4 <= s.len(),
        s.subrange(at, at + 4) == u32_be(v),
    ensures
        be_u32_at(s, at) == v,
{
    let w = s.subrange(at, at + 4);
    assert(w[0] == s[at] && w[1] == s[at + 1] && w[2] == s[at + 2] && w[3] == s[at + 3]);
}

/// A 64-bit value is the sum of its eight bytes, each at its weight.
proof fn lemma_u64_split(v: u64)
    ensures
        v == (v / 0x100_0000_0000_0000) * 0x100_0000_0000_0000 + (v / 0x1_0000_0000_0000 % 0x100)
            * 0x1_0000_0000_0000 + (v / 0x100_0000_0000 % 0x100) * 0x100_0000_0000 + (v
            / 0x1_0000_0000 % 0x100) * 0x1_0000_0000 + (v / 0x100_0000 % 0x100) * 0x100_0000 + (v
            / 0x1_0000 % 0x100) * 0x1_0000 + (v / 0x100 % 0x100) * 0x100 + v % 0x100,
        v / 0x100_0000_0000_0000 < 0x100,
{
    assert(v == (v / 0x100_0000_0000_0000) * 0x100_0000_0000_0000 + (v / 0x1_0000_0000_0000
        % 0x100) * 0x1_0000_0000_0000 + (v / 0x100_0000_0000 % 0x100) * 0x100_0000_0000 + (v
        / 0x1_0000_0000 % 0x100) * 0x1_0000_0000 + (v / 0x100_0000 % 0x100) * 0x100_0000 + (v
        / 0x1_0000 % 0x100) * 0x1_0000 + (v / 0x100 % 0x100) * 0x100 + v % 0x100)
        by (bit_vector);
    assert(v / 0x100_0000_0000_0000 < 0x100) by (bit_vector);
}

/// Where the eight bytes at `at` are those of `v`, `v` is read there.
pub proof fn lemma_be_u64_window(s: Seq<u8>, at: int, v: u64)
    requires
        0 <= at,
        at + 8 <= s.len(),
        s.subrange(at, at + 8) == u64_be(v),
    ensures
        be_u64_at(s, at) == v,
{
    let w = s.subrange(at, at + 8);
    lemma_u64_split(v);
    assert(w[0] == s[at] && w[1] == s[at + 1] && w[2] == s[at + 2] && w[3] == s[at + 3]);
    assert(w[4] == s[at + 4] && w[5] == s[at + 5] && w[6] == s[at + 6] && w[7] == s[at + 7]);
}

/// Where the eight bytes at `at` are those of `v`, `v` is read there.
pub proof fn lemma_be_i64_window(s: Seq<u8>, at: int, v: i64)
    requires
        0 <= at,
        at + 8 <= s.len(),
        s.subrange(at, at + 8) == i64_be(v),
    ensures
        be_i64_at(s, at) == v,
{
    lemma_be_u64_window(s, at, i64_bits(v));
}

/// Where the four bytes at `at` are those of `v` in little-endian order,
/// `v` is read there.
pub proof fn lemma_le_u32_window(s: Seq<u8>, at: int, v: u32)
    requires
        0 <= at,
        at + 4 <= s.len(),
        s.subrange(at, at + 4) == u32_le(v),
    ensures
        le_u32_at(s, at) == v,
{
    let w = s.subrange(at, at + 4);
    assert(w[0] == s[at] && w[1] == s[at + 1] && w[2] == s[at + 2] && w[3] == s[at + 3]);
}

/// Where the eight bytes at `at` are those of `v` in little-endian order,
/// `v` is read there.
pub proof fn lemma_le_u64_window(s: Seq<u8>, at: int, v: u64)
    requires
        0 <= at,
        at + 8 <= s.len(),
        s.subrange(at, at + 8) == u64_le(v),
    ensures
        le_u64_at(s, at) == v,
{
    let w = s.subrange(at, at + 8);
    lemma_u64_split(v);
    assert(w[0] == s[at] && w[1] == s[at + 1] && w[2] == s[at + 2] && w[3] == s[at + 3]);
    assert(w[4] == s[at + 4] && w[5] == s[at + 5] && w[6] == s[at + 6] && w[7] == s[at + 7]);
}

/// The three parts of a concatenation stand in it one after the other.
pub proof fn lemma_three_windows(a: Seq<u8>, b: Seq<u8>, c: Seq<u8>)
    ensures
        (a + b + c).len() == a.len() + b.len() + c.len(),
        (a + b + c).subrange(0, a.len() as int) == a,
        (a + b + c).subrange(a.len() as int, (a.len() + b.len()) as int) == b,
        (a + b + c).subrange((a.len() + b.len()) as int, (a.len() + b.len() + c.len()) as int)
            == c,
{
    let s = a + b + c;
    assert(s.subrange(0, a.len() as int) =~= a);
    assert(s.subrange(a.len() as int, (a.len() + b.len()) as int) =~= b);
    assert(s.subrange((a.len() + b.len()) as int, (a.len() + b.len() + c.len()) as int) =~= c);
}

/// Appends the big-endian bytes of `v`.
pub fn put_u16(buf: &mut Vec<u8>, v: u16)
    ensures
        final(buf)@ == old(buf)@ + u16_be(v),
{
    buf.push((v / 0x100) as u8);
    buf.push((v % 0x100) as u8);
    assert(buf@ =~= old(buf)@ + u16_be(v));
}

/// Appends the big-endian bytes of `v`.
pub fn put_u32(buf: &mut Vec<u8>, v: u32)
    ensures
        final(buf)@ == old(buf)@ + u32_be(v),
{
    buf.push((v / 0x100_0000) as u8);
    buf.push((v / 0x1_0000 % 0x100) as u8);
    buf.push((v / 0x100 % 0x100) as u8);
    buf.push((v % 0x100) as u8);
    assert(buf@ =~= old(buf)@ + u32_be(v));
}

/// Appends the big-endian bytes of `v`.
pub fn put_u64(buf: &mut Vec<u8>, v: u64)
    ensures
        final(buf)@ == old(buf)@ + u64_be(v),
{
    buf.push((v / 0x100_0000_0000_0000) as u8);
    buf.push((v / 0x1_0000_0000_0000 % 0x100) as u8);
    buf.push((v / 0x100_0000_0000 % 0x100) as u8);
    buf.push((v / 0x1_0000_0000 % 0x100) as u8);
    buf.push((v / 0x100_0000 % 0x100) as u8);
    buf.push((v / 0x1_0000 % 0x100) as u8);
    buf.push((v / 0x100 % 0x100) as u8);
    buf.push((v % 0x100) as u8);
    assert(buf@ =~= old(buf)@ + u64_be(v));
}

/// Appends the big-endian two's complement bytes of `v`.
pub fn put_i64(buf: &mut Vec<u8>, v: i64)
    ensures
        final(buf)@ == old(buf)@ + i64_be(v),
{
    let bits: u64 = if v >= 0 {
        v as u64
    } else {
        u64::MAX - ((-(v + 1)) as u64)
    };
    put_u64(buf, bits);
}

/// Appends the little-endian bytes of `v`.
pub fn put_u32_le(buf: &mut Vec<u8>, v: u32)
    ensures
        final(buf)@ == old(buf)@ + u32_le(v),
{
    buf.push((v % 0x100) as u8);
    buf.push((v / 0x100 % 0x100) as u8);
    buf.push((v / 0x1_0000 % 0x100) as u8);
    buf.push((v / 0x100_0000) as u8);
    assert(buf@ =~= old(buf)@ + u32_le(v));
}

/// Appends the little-endian bytes of `v`.
pub fn put_u64_le(buf: &mut Vec<u8>, v: u64)
    ensures
        final(buf)@ == old(buf)@ + u64_le(v),
{
    buf.push((v % 0x100) as u8);
    buf.push((v / 0x100 % 0x100) as u8);
    buf.push((v / 0x1_0000 % 0x100) as u8);
    buf.push((v / 0x100_0000 % 0x100) as u8);
    buf.push((v / 0x1_0000_0000 % 0x100) as u8);
    buf.push((v / 0x100_0000_0000 % 0x100) as u8);
    buf.push((v / 0x1_0000_0000_0000 % 0x100) as u8);
    buf.push((v / 0x100_0000_0000_0000) as u8);
    assert(buf@ =~= old(buf)@ + u64_le(v));
}

/// Appends a copy of `data`.
pub fn put_slice(buf: &mut Vec<u8>, data: &Vec<u8>)
    ensures
        final(buf)@ == old(buf)@ + data@,
{
    let mut i: usize = 0;
    while i < data.len()
        invariant
            i <= data.len(),
            buf@ == old(buf)@ + data@.subrange(0, i as int),
        decreases data.len() - i,
    {
        buf.push(data[i]);
        i += 1;
        assert(buf@ =~= old(buf)@ + data@.subrange(0, i as int));
    }
    assert(data@.subrange(0, data.len() as int) =~= data@);
}

/// Reads the big-endian 16-bit value at `at`.
pub fn get_u16(buf: &Vec<u8>, at: usize) -> (v: u16)
    requires
        at + 2 <= buf.len(),
    ensures
        v == be_u16_at(buf@, at as int),
{
    buf[at] as u16 * 0x100 + buf[at + 1] as u16
}

/// Reads the big-endian 32-bit value at `at`.
pub fn get_u32(buf: &Vec<u8>, at: usize) -> (v: u32)
    requires
        at + 4 <= buf.len(),
    ensures
        v == be_u32_at(buf@, at as int),
{
    buf[at] as u32 * 0x100_0000 + buf[at + 1] as u32 * 0x1_0000 + buf[at + 2] as u32 * 0x100
        + buf[at + 3] as u32
}

/// Reads the big-endian 64-bit value at `at`.
pub fn get_u64(buf: &Vec<u8>, at: usize) -> (v: u64)
    requires
        at + 8 <= buf.len(),
    ensures
        v == be_u64_at(buf@, at as int),
{
    buf[at] as u64 * 0x100_0000_0000_0000 + buf[at + 1] as u64 * 0x1_0000_0000_0000 + buf[at
        + 2] as u64 * 0x100_0000_0000 + buf[at + 3] as u64 * 0x1_0000_0000 + buf[at + 4] as u64
        * 0x100_0000 + buf[at + 5] as u64 * 0x1_0000 + buf[at + 6] as u64 * 0x100 + buf[at
        + 7] as u64
}

/// Reads the big-endian signed 64-bit value at `at`.
pub fn get_i64(buf: &Vec<u8>, at: usize) -> (v: i64)
    requires
        at + 8 <= buf.len(),
    ensures
        v == be_i64_at(buf@, at as int),
{
    let bits = get_u64(buf, at);
    if bits < 0x8000_0000_0000_0000 {
        bits as i64
    } else {
        -((u64::MAX - bits) as i64) - 1
    }
}

/// Reads the little-endian 32-bit value at `at`.
pub fn get_u32_le(buf: &Vec<u8>, at: usize) -> (v: u32)
    requires
        at + 4 <= buf.len(),
    ensures
        v == le_u32_at(buf@, at as int),
{
    buf[at + 3] as u32 * 0x100_0000 + buf[at + 2] as u32 * 0x1_0000 + buf[at + 1] as u32 * 0x100
        + buf[at] as u32
}

/// Reads the little-endian 64-bit value at `at`.
pub fn get_u64_le(buf: &Vec<u8>, at: usize) -> (v: u64)
    requires
        at + 8 <= buf.len(),
    ensures
        v == le_u64_at(buf@, at as int),
{
    buf[at + 7] as u64 * 0x100_0000_0000_0000 + buf[at + 6] as u64 * 0x1_0000_0000_0000 + buf[at
        + 5] as u64 * 0x100_0000_0000 + buf[at + 4] as u64 * 0x1_0000_0000 + buf[at + 3] as u64
        * 0x100_0000 + buf[at + 2] as u64 * 0x1_0000 + buf[at + 1] as u64 * 0x100
        + buf[at] as u64
}

/// Copies `len` bytes starting at `at`.
pub fn copy_range(buf: &Vec<u8>, at: usize, len: usize) -> (out: Vec<u8>)
    requires
        at + len <= buf.len(),
    ensures
        out@ == buf@.subrange(at as int, at + len),
{
    let mut out: Vec<u8> = Vec::new();
    let mut i: usize = 0;
    while i < len
        invariant
            i <= len,
            at + len <= buf.len(),
            out@ == buf@.subrange(at as int, at + i),
        decreases len - i,
    {
        out.push(buf[at + i]);
        i += 1;
        assert(out@ =~= buf@.subrange(at as int, at + i));
    }
    out
}

/// Whether two byte strings hold the same bytes.
pub fn bytes_eq(a: &Vec<u8>, b: &Vec<u8>) -> (r: bool)
    ensures
        r == (a@ == b@),
{
    let r = *a == *b;
    proof {
        if r {
            assert(a@ =~= b@);
        }
    }
    r
}

} // verus!
