//! Big-endian field access over byte sequences, shared by every codec.

use vstd::prelude::*;

verus! {

/// Why a byte range could not be decoded.
#[derive(Clone, Copy, Debug, PartialEq, Eq, Structural)]
pub enum DecodeError {
    /// The view is shorter than the layout read from it.
    Truncated,
    /// The IPv4 version nibble is not 4.
    BadVersion,
    /// The TCP data offset is below five words.
    BadDataOffset,
}

/// The 16-bit big-endian number at bytes `i` and `i + 1`.
pub open spec fn be16(s: Seq<u8>, i: int) -> int {
    s[i] * 256 + s[i + 1]
}

/// The 32-bit big-endian number at bytes `i` to `i + 3`.
pub open spec fn be32(s: Seq<u8>, i: int) -> int {
    be16(s, i) * 0x10000 + be16(s, i + 2)
}

/// The two big-endian bytes of a 16-bit number.
pub open spec fn u16_bytes(x: u16) -> Seq<u8> {
    seq![(x / 256) as u8, (x % 256) as u8]
}

/// The four big-endian bytes of a 32-bit number.
pub open spec fn u32_bytes(x: u32) -> Seq<u8> {
    u16_bytes((x / 0x10000) as u16) + u16_bytes((x % 0x10000) as u16)
}

/// Encoding a 16-bit number and reading it back gives the number.
pub proof fn lemma_be16_of_bytes(x: u16)
    ensures
        be16(u16_bytes(x), 0) == x,
{
    assert(x == 256 * (x / 256) + x % 256);
}

/// Reading a 16-bit number and encoding it gives the bytes back.
pub proof fn lemma_bytes_of_be16(h: Seq<u8>, i: int)
    requires
        0 <= i,
        i + 1 < h.len(),
    ensures
        u16_bytes(be16(h, i) as u16) == h.subrange(i, i + 2),
{
    let x = be16(h, i);
    assert(x / 256 == h[i]);
    assert(x % 256 == h[i + 1]);
    assert(u16_bytes(x as u16) =~= h.subrange(i, i + 2));
}

/// Encoding a 32-bit number and reading it back gives the number.
pub proof fn lemma_be32_of_bytes(x: u32)
    ensures
        be32(u32_bytes(x), 0) == x,
{
    lemma_be16_of_bytes((x / 0x10000) as u16);
    lemma_be16_of_bytes((x % 0x10000) as u16);
    assert(x == 0x10000 * (x / 0x10000) + x % 0x10000);
}

/// Reads the big-endian 16-bit number at `i`.
pub fn read_u16(s: &[u8], i: usize) -> (r: u16)
    requires
        i + 1 < s@.len(),
    ensures
        r == be16(s@, i as int),
{
    (s[i] as u16) * 256 + s[i + 1] as u16
}

/// Reads the big-endian 32-bit number at `i`.
pub fn read_u32(s: &[u8], i: usize) -> (r: u32)
    requires
        i + 3 < s@.len(),
    ensures
        r == be32(s@, i as int),
{
    let n = s.len();
    assert(i + 2 < n);
    (read_u16(s, i) as u32) * 0x10000 + read_u16(s, i + 2) as u32
}

/// Appends the big-endian bytes of `x`.
pub fn push_u16(v: &mut Vec<u8>, x: u16)
    ensures
        final(v)@ == old(v)@ + u16_bytes(x),
{
    v.push((x / 256) as u8);
    v.push((x % 256) as u8);
}

/// Appends the big-endian bytes of `x`.
pub fn push_u32(v: &mut Vec<u8>, x: u32)
    ensures
        final(v)@ == old(v)@ + u32_bytes(x),
{
    push_u16(v, (x / 0x10000) as u16);
    push_u16(v, (x % 0x10000) as u16);
}

/// Appends every byte of `s`.
pub fn push_all(v: &mut Vec<u8>, s: &[u8])
    ensures
        final(v)@ == old(v)@ + s@,
{
    let mut i: usize = 0;
    while i < s.len()
        invariant
            i <= s@.len(),
            v@ == old(v)@ + s@.subrange(0, i as int),
        decreases s@.len() - i,
    {
        v.push(s[i]);
        i = i + 1;
        assert(s@.subrange(0, i as int) == s@.subrange(0, i - 1) + seq![s@[i - 1]]);
    }
    assert(s@.subrange(0, i as int) == s@);
}

/// `s` with the bytes from `at` on replaced by `src`.
pub open spec fn splice(s: Seq<u8>, at: int, src: Seq<u8>) -> Seq<u8> {
    s.subrange(0, at) + src + s.subrange(at + src.len(), s.len() as int)
}

/// Copies `src` into `dst` from position `at` on.
pub fn write_bytes<const N: usize>(dst: &mut [u8; N], at: usize, src: &[u8])
    requires
        at + src@.len() <= N,
    ensures
        final(dst)@ == splice(old(dst)@, at as int, src@),
{
    let n = src.len();
    let mut i: usize = 0;
    while i < n
        invariant
            n == src@.len(),
            at + n <= N,
            i <= n,
            dst@.len() == N,
            dst@ == splice(old(dst)@, at as int, src@.subrange(0, i as int)),
        decreases n - i,
    {
        dst[at + i] = src[i];
        i = i + 1;
        assert(dst@ =~= splice(old(dst)@, at as int, src@.subrange(0, i as int)));
    }
    assert(src@.subrange(0, n as int) =~= src@);
}

/// Writes the big-endian bytes of `x` at `at`.
pub fn write_u16<const N: usize>(dst: &mut [u8; N], at: usize, x: u16)
    requires
        at + 2 <= N,
    ensures
        final(dst)@ == splice(old(dst)@, at as int, u16_bytes(x)),
{
    dst[at] = (x / 256) as u8;
    dst[at + 1] = (x % 256) as u8;
    assert(dst@ =~= splice(old(dst)@, at as int, u16_bytes(x)));
}

/// Writes the big-endian bytes of `x` at `at`.
pub fn write_u32<const N: usize>(dst: &mut [u8; N], at: usize, x: u32)
    requires
        at + 4 <= N,
    ensures
        final(dst)@ == splice(old(dst)@, at as int, u32_bytes(x)),
{
    write_u16(dst, at, (x / 0x10000) as u16);
    write_u16(dst, at + 2, (x % 0x10000) as u16);
    assert(dst@ =~= splice(old(dst)@, at as int, u32_bytes(x)));
}

/// The six bytes at `i`, as an array.
pub fn read_mac(s: &[u8], i: usize) -> (r: [u8; 6])
    requires
        i + 6 <= s@.len(),
    ensures
        r@ == s@.subrange(i as int, i + 6),
{
    let n = s.len();
    assert(i + 6 <= n);
    let mut r = [0u8; 6];
    write_bytes(&mut r, 0, &s[i..i + 6]);
    assert(r@ =~= s@.subrange(i as int, i + 6));
    r
}

/// Whether two byte ranges hold the same bytes.
pub fn bytes_equal(a: &[u8], b: &[u8]) -> (r: bool)
    ensures
        r == (a@ == b@),
{
    if a.len() != b.len() {
        return false;
    }
    let n = a.len();
    let mut i: usize = 0;
    while i < n
        invariant
            n == a@.len(),
            n == b@.len(),
            i <= n,
            a@.subrange(0, i as int) == b@.subrange(0, i as int),
        decreases n - i,
    {
        if a[i] != b[i] {
            assert(a@[i as int] != b@[i as int]);
            return false;
        }
        i = i + 1;
        assert(a@.subrange(0, i as int) =~= a@.subrange(0, i - 1) + seq![a@[i - 1]]);
        assert(b@.subrange(0, i as int) =~= b@.subrange(0, i - 1) + seq![b@[i - 1]]);
    }
    assert(a@ =~= a@.subrange(0, n as int));
    assert(b@ =~= b@.subrange(0, n as int));
    true
}

} // verus!
