//! Big-endian integers and byte strings, as they travel on a USB/IP stream.

use vstd::prelude::*;

verus! {

/// The two bytes of `x`, most significant first.
pub open spec fn be16(x: u16) -> Seq<u8> {
    seq![(x / 0x100) as u8, (x % 0x100) as u8]
}

/// The four bytes of `x`, most significant first.
pub open spec fn be32(x: u32) -> Seq<u8> {
    seq![
        (x / 0x100_0000) as u8,
        (x / 0x1_0000 % 0x100) as u8,
        (x / 0x100 % 0x100) as u8,
        (x % 0x100) as u8,
    ]
}

/// The two's-complement bit pattern of `x`, read as an unsigned number.
pub open spec fn twos_complement(x: i32) -> u32 {
    if x >= 0 {
        x as u32
    } else {
        (x + 0x1_0000_0000) as u32
    }
}

/// The four bytes of the two's-complement form of `x`, most significant first.
pub open spec fn be32_signed(x: i32) -> Seq<u8> {
    be32(twos_complement(x))
}

/// The number whose big-endian bytes stand at `at` in `s`.
pub open spec fn from_be16(s: Seq<u8>, at: int) -> u16 {
    (s[at] * 0x100 + s[at + 1]) as u16
}

/// The number whose big-endian bytes stand at `at` in `s`.
pub open spec fn from_be32(s: Seq<u8>, at: int) -> u32 {
    (s[at] * 0x100_0000 + s[at + 1] * 0x1_0000 + s[at + 2] * 0x100 + s[at + 3]) as u32
}

/// The signed number whose two's-complement bytes stand at `at` in `s`.
pub open spec fn from_be32_signed(s: Seq<u8>, at: int) -> i32 {
    let bits = from_be32(s, at);
    if bits < 0x8000_0000 {
        bits as i32
    } else {
        (bits - 0x1_0000_0000) as i32
    }
}

/// Appends the two big-endian bytes of `x`.
pub fn put_u16(out: &mut Vec<u8>, x: u16)
    ensures
        final(out)@ == old(out)@ + be16(x),
{
    out.push((x / 0x100) as u8);
    out.push((x % 0x100) as u8);
    assert(out@ =~= old(out)@ + be16(x));
}

/// Appends the four big-endian bytes of `x`.
pub fn put_u32(out: &mut Vec<u8>, x: u32)
    ensures
        final(out)@ == old(out)@ + be32(x),
{
    out.push((x / 0x100_0000) as u8);
    out.push((x / 0x1_0000 % 0x100) as u8);
    out.push((x / 0x100 % 0x100) as u8);
    out.push((x % 0x100) as u8);
    assert(out@ =~= old(out)@ + be32(x));
}

/// Appends the four big-endian bytes of the two's-complement form of `x`.
pub fn put_i32(out: &mut Vec<u8>, x: i32)
    ensures
        final(out)@ == old(out)@ + be32_signed(x),
{
    put_u32(out, bits_of(x));
}

/// The two's-complement bit pattern of `x`.
pub fn bits_of(x: i32) -> (bits: u32)
    ensures
        bits == twos_complement(x),
{
    if x >= 0 {
        x as u32
    } else {
        u32::MAX - (-(x + 1)) as u32
    }
}

/// Appends `bytes`.
pub fn put_bytes(out: &mut Vec<u8>, bytes: &[u8])
    ensures
        final(out)@ == old(out)@ + bytes@,
{
    out.extend_from_slice(bytes);
    assert(out@ =~= old(out)@ + bytes@);
}

/// Appends `count` zero bytes.
pub fn put_zeros(out: &mut Vec<u8>, count: usize)
    ensures
        final(out)@ == old(out)@ + zeros(count as nat),
{
    let mut done: usize = 0;
    while done < count
        invariant
            done <= count,
            out@ == old(out)@ + zeros(done as nat),
        decreases count - done,
    {
        out.push(0);
        done += 1;
        assert(out@ =~= old(out)@ + zeros(done as nat));
    }
}

/// `n` zero bytes.
pub open spec fn zeros(n: nat) -> Seq<u8> {
    Seq::new(n, |i: int| 0u8)
}

/// Reads the big-endian number at `*o` and moves `*o` past it.
pub fn read_u16(buf: &[u8], o: &mut usize) -> (v: u16)
    requires
        *old(o) + 2 <= buf@.len(),
    ensures
        v == from_be16(buf@, *old(o) as int),
        *final(o) == *old(o) + 2,
{
    let v: u16 = buf[*o] as u16 * 0x100 + buf[*o + 1] as u16;
    *o += 2;
    v
}

/// Reads the big-endian number at `*o` and moves `*o` past it.
pub fn read_u32(buf: &[u8], o: &mut usize) -> (v: u32)
    requires
        *old(o) + 4 <= buf@.len(),
    ensures
        v == from_be32(buf@, *old(o) as int),
        *final(o) == *old(o) + 4,
{
    let v: u32 = buf[*o] as u32 * 0x100_0000 + buf[*o + 1] as u32 * 0x1_0000
        + buf[*o + 2] as u32 * 0x100 + buf[*o + 3] as u32;
    *o += 4;
    v
}

/// Reads the big-endian signed number at `*o` and moves `*o` past it.
pub fn read_i32(buf: &[u8], o: &mut usize) -> (v: i32)
    requires
        *old(o) + 4 <= buf@.len(),
    ensures
        v == from_be32_signed(buf@, *old(o) as int),
        *final(o) == *old(o) + 4,
{
    let bits: u32 = read_u32(buf, o);
    if bits < 0x8000_0000 {
        bits as i32
    } else {
        -((u32::MAX - bits) as i32) - 1
    }
}

/// A number read back from where its big-endian bytes stand is that number.
pub proof fn be16_reads_back(s: Seq<u8>, at: int, x: u16)
    requires
        0 <= at,
        at + 2 <= s.len(),
        s.subrange(at, at + 2) == be16(x),
    ensures
        from_be16(s, at) == x,
{
    let w = s.subrange(at, at + 2);
    assert(w[0] == s[at] && w[1] == s[at + 1]);
}

/// A number read back from where its big-endian bytes stand is that number.
pub proof fn be32_reads_back(s: Seq<u8>, at: int, x: u32)
    requires
        0 <= at,
        at + 4 <= s.len(),
        s.subrange(at, at + 4) == be32(x),
    ensures
        from_be32(s, at) == x,
{
    let w = s.subrange(at, at + 4);
    assert(w[0] == s[at] && w[1] == s[at + 1] && w[2] == s[at + 2] && w[3] == s[at + 3]);
}

/// A signed number read back from where its bytes stand is that number.
pub proof fn be32_signed_reads_back(s: Seq<u8>, at: int, x: i32)
    requires
        0 <= at,
        at + 4 <= s.len(),
        s.subrange(at, at + 4) == be32_signed(x),
    ensures
        from_be32_signed(s, at) == x,
{
    be32_reads_back(s, at, twos_complement(x));
}

/// The first of two bytes counts 256 times as much as the second.
pub proof fn be16_is_big_endian(x: u16, s: Seq<u8>, at: int)
    ensures
        be16(x).len() == 2,
        be16(x)[0] * 0x100 + be16(x)[1] == x,
        from_be16(s, at) == s[at] * 0x100 + s[at + 1],
{
}

/// Of four bytes each counts 256 times as much as the next.
pub proof fn be32_is_big_endian(x: u32, s: Seq<u8>, at: int)
    ensures
        be32(x).len() == 4,
        ((be32(x)[0] * 0x100 + be32(x)[1]) * 0x100 + be32(x)[2]) * 0x100 + be32(x)[3] == x,
        from_be32(s, at) == ((s[at] * 0x100 + s[at + 1]) * 0x100 + s[at + 2]) * 0x100 + s[at + 3],
{
}

/// A signed number and its bytes, read as an unsigned number, differ by a multiple of
/// 2^32, and the highest bit of the first byte is the sign.
pub proof fn be32_signed_is_twos_complement(x: i32, s: Seq<u8>, at: int)
    ensures
        twos_complement(x) as int == x as int % 0x1_0000_0000,
        be32_signed(x).len() == 4,
        ((be32_signed(x)[0] * 0x100 + be32_signed(x)[1]) * 0x100 + be32_signed(x)[2]) * 0x100
            + be32_signed(x)[3] == x as int % 0x1_0000_0000,
        from_be32_signed(s, at) < 0 <==> s[at] >= 0x80,
        from_be32_signed(s, at) as int % 0x1_0000_0000 == ((s[at] * 0x100 + s[at + 1]) * 0x100
            + s[at + 2]) * 0x100 + s[at + 3],
{
    be32_is_big_endian(twos_complement(x), s, at);
}

/// Zeros are that many bytes, and each of them is zero.
pub proof fn zeros_are_zero(n: nat)
    ensures
        zeros(n).len() == n,
        forall|i: int| 0 <= i < n ==> #[trigger] zeros(n)[i] == 0,
{
}

} // verus!
