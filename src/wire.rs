//! Little-endian integer encodings shared by the codecs.

use vstd::prelude::*;

verus! {

/// Two bytes of `x`, least significant first.
pub open spec fn le_u16(x: u16) -> Seq<u8> {
    seq![(x & 0xff) as u8, ((x >> 8u16) & 0xff) as u8]
}

/// The low three bytes of `x`, least significant first.
pub open spec fn le_u24(x: u32) -> Seq<u8> {
    seq![(x & 0xff) as u8, ((x >> 8u32) & 0xff) as u8, ((x >> 16u32) & 0xff) as u8]
}

/// Four bytes of `x`, least significant first.
pub open spec fn le_u32(x: u32) -> Seq<u8> {
    seq![
        (x & 0xff) as u8,
        ((x >> 8u32) & 0xff) as u8,
        ((x >> 16u32) & 0xff) as u8,
        ((x >> 24u32) & 0xff) as u8,
    ]
}

/// Eight bytes of `x`, least significant first.
pub open spec fn le_u64(x: u64) -> Seq<u8> {
    seq![
        (x & 0xff) as u8,
        ((x >> 8u64) & 0xff) as u8,
        ((x >> 16u64) & 0xff) as u8,
        ((x >> 24u64) & 0xff) as u8,
        ((x >> 32u64) & 0xff) as u8,
        ((x >> 40u64) & 0xff) as u8,
        ((x >> 48u64) & 0xff) as u8,
        ((x >> 56u64) & 0xff) as u8,
    ]
}

/// Appends `x` little-endian.
pub fn push_u16_le(buf: &mut Vec<u8>, x: u16)
    ensures
        final(buf)@ == old(buf)@ + le_u16(x),
{
    buf.push((x & 0xff) as u8);
    buf.push(((x >> 8u16) & 0xff) as u8);
    assert(final(buf)@ =~= old(buf)@ + le_u16(x));
}

/// Appends the low three bytes of `x`, little-endian.
pub fn push_u24_le(buf: &mut Vec<u8>, x: u32)
    ensures
        final(buf)@ == old(buf)@ + le_u24(x),
{
    buf.push((x & 0xff) as u8);
    buf.push(((x >> 8u32) & 0xff) as u8);
    buf.push(((x >> 16u32) & 0xff) as u8);
    assert(final(buf)@ =~= old(buf)@ + le_u24(x));
}

/// Appends `x` little-endian.
pub fn push_u32_le(buf: &mut Vec<u8>, x: u32)
    ensures
        final(buf)@ == old(buf)@ + le_u32(x),
{
    buf.push((x & 0xff) as u8);
    buf.push(((x >> 8u32) & 0xff) as u8);
    buf.push(((x >> 16u32) & 0xff) as u8);
    buf.push(((x >> 24u32) & 0xff) as u8);
    assert(final(buf)@ =~= old(buf)@ + le_u32(x));
}

/// Appends `x` little-endian.
pub fn push_u64_le(buf: &mut Vec<u8>, x: u64)
    ensures
        final(buf)@ == old(buf)@ + le_u64(x),
{
    buf.push((x & 0xff) as u8);
    buf.push(((x >> 8u64) & 0xff) as u8);
    buf.push(((x >> 16u64) & 0xff) as u8);
    buf.push(((x >> 24u64) & 0xff) as u8);
    buf.push(((x >> 32u64) & 0xff) as u8);
    buf.push(((x >> 40u64) & 0xff) as u8);
    buf.push(((x >> 48u64) & 0xff) as u8);
    buf.push(((x >> 56u64) & 0xff) as u8);
    assert(final(buf)@ =~= old(buf)@ + le_u64(x));
}

/// Appends every byte of `data` to `buf`.
pub fn push_all(buf: &mut Vec<u8>, data: &[u8])
    ensures
        final(buf)@ == old(buf)@ + data@,
{
    let mut i: usize = 0;
    while i < data.len()
        invariant
            i <= data@.len(),
            buf@ == old(buf)@ + data@.subrange(0, i as int),
        decreases data@.len() - i,
    {
        buf.push(data[i]);
        i = i + 1;
        assert(buf@ =~= old(buf)@ + data@.subrange(0, i as int));
    }
    assert(data@.subrange(0, data@.len() as int) =~= data@);
}

/// The `u16` stored little-endian at `p`.
pub open spec fn u16_at(s: Seq<u8>, p: int) -> u16 {
    ((s[p] as u16) | ((s[p + 1] as u16) << 8u16)) as u16
}

/// The `u32` stored little-endian at `p`.
pub open spec fn u32_at(s: Seq<u8>, p: int) -> u32 {
    ((s[p] as u32) | ((s[p + 1] as u32) << 8u32) | ((s[p + 2] as u32) << 16u32) | ((s[p + 3]
        as u32) << 24u32)) as u32
}

/// The 24-bit value stored little-endian at `p`.
pub open spec fn u24_at(s: Seq<u8>, p: int) -> u32 {
    ((s[p] as u32) | ((s[p + 1] as u32) << 8u32) | ((s[p + 2] as u32) << 16u32)) as u32
}

/// The `u64` stored little-endian at `p`.
pub open spec fn u64_at(s: Seq<u8>, p: int) -> u64 {
    ((s[p] as u64) | ((s[p + 1] as u64) << 8u64) | ((s[p + 2] as u64) << 16u64) | ((s[p + 3]
        as u64) << 24u64) | ((s[p + 4] as u64) << 32u64) | ((s[p + 5] as u64) << 40u64) | ((s[p
        + 6] as u64) << 48u64) | ((s[p + 7] as u64) << 56u64)) as u64
}

/// Reading back a `u16` where its encoding stands gives the value.
pub proof fn lemma_u16_read_back(x: u16, s: Seq<u8>, p: int)
    requires
        0 <= p,
        p + 2 <= s.len(),
        s.subrange(p, p + 2) == le_u16(x),
    ensures
        u16_at(s, p) == x,
{
    let (b0, b1) = (s[p], s[p + 1]);
    assert(b0 == s.subrange(p, p + 2)[0] && b1 == s.subrange(p, p + 2)[1]);
    assert(((b0 as u16) | ((b1 as u16) << 8u16)) as u16 == x) by (bit_vector)
        requires
            b0 == (x & 0xff) as u8,
            b1 == ((x >> 8u16) & 0xff) as u8,
    ;
}

/// Reading back a 24-bit value where its encoding stands gives the value.
pub proof fn lemma_u24_read_back(x: u32, s: Seq<u8>, p: int)
    requires
        0 <= p,
        p + 3 <= s.len(),
        x < 0x100_0000,
        s.subrange(p, p + 3) == le_u24(x),
    ensures
        u24_at(s, p) == x,
{
    let (b0, b1, b2) = (s[p], s[p + 1], s[p + 2]);
    let t = s.subrange(p, p + 3);
    assert(b0 == t[0] && b1 == t[1] && b2 == t[2]);
    assert(((b0 as u32) | ((b1 as u32) << 8u32) | ((b2 as u32) << 16u32)) as u32 == x)
        by (bit_vector)
        requires
            x < 0x100_0000,
            b0 == (x & 0xff) as u8,
            b1 == ((x >> 8u32) & 0xff) as u8,
            b2 == ((x >> 16u32) & 0xff) as u8,
    ;
}

/// Reading back a `u32` where its encoding stands gives the value.
pub proof fn lemma_u32_read_back(x: u32, s: Seq<u8>, p: int)
    requires
        0 <= p,
        p + 4 <= s.len(),
        s.subrange(p, p + 4) == le_u32(x),
    ensures
        u32_at(s, p) == x,
{
    let (b0, b1, b2, b3) = (s[p], s[p + 1], s[p + 2], s[p + 3]);
    let t = s.subrange(p, p + 4);
    assert(b0 == t[0] && b1 == t[1] && b2 == t[2] && b3 == t[3]);
    assert(((b0 as u32) | ((b1 as u32) << 8u32) | ((b2 as u32) << 16u32) | ((b3 as u32)
        << 24u32)) as u32 == x) by (bit_vector)
        requires
            b0 == (x & 0xff) as u8,
            b1 == ((x >> 8u32) & 0xff) as u8,
            b2 == ((x >> 16u32) & 0xff) as u8,
            b3 == ((x >> 24u32) & 0xff) as u8,
    ;
}

/// Reading back a `u64` where its encoding stands gives the value.
pub proof fn lemma_u64_read_back(x: u64, s: Seq<u8>, p: int)
    requires
        0 <= p,
        p + 8 <= s.len(),
        s.subrange(p, p + 8) == le_u64(x),
    ensures
        u64_at(s, p) == x,
{
    let t = s.subrange(p, p + 8);
    let (b0, b1, b2, b3) = (s[p], s[p + 1], s[p + 2], s[p + 3]);
    let (b4, b5, b6, b7) = (s[p + 4], s[p + 5], s[p + 6], s[p + 7]);
    assert(b0 == t[0] && b1 == t[1] && b2 == t[2] && b3 == t[3]);
    assert(b4 == t[4] && b5 == t[5] && b6 == t[6] && b7 == t[7]);
    assert(((b0 as u64) | ((b1 as u64) << 8u64) | ((b2 as u64) << 16u64) | ((b3 as u64)
        << 24u64) | ((b4 as u64) << 32u64) | ((b5 as u64) << 40u64) | ((b6 as u64) << 48u64) | ((
    b7 as u64) << 56u64)) as u64 == x) by (bit_vector)
        requires
            b0 == (x & 0xff) as u8,
            b1 == ((x >> 8u64) & 0xff) as u8,
            b2 == ((x >> 16u64) & 0xff) as u8,
            b3 == ((x >> 24u64) & 0xff) as u8,
            b4 == ((x >> 32u64) & 0xff) as u8,
            b5 == ((x >> 40u64) & 0xff) as u8,
            b6 == ((x >> 48u64) & 0xff) as u8,
            b7 == ((x >> 56u64) & 0xff) as u8,
    ;
}

/// Reads the `u16` stored little-endian at `p`.
pub fn read_u16_le(data: &[u8], p: usize) -> (r: u16)
    requires
        p + 2 <= data@.len(),
    ensures
        r == u16_at(data@, p as int),
{
    (data[p] as u16) | ((data[p + 1] as u16) << 8u16)
}

/// Reads the `u32` stored little-endian at `p`.
pub fn read_u32_le(data: &[u8], p: usize) -> (r: u32)
    requires
        p + 4 <= data@.len(),
    ensures
        r == u32_at(data@, p as int),
{
    (data[p] as u32) | ((data[p + 1] as u32) << 8u32) | ((data[p + 2] as u32) << 16u32) | ((data[p
        + 3] as u32) << 24u32)
}

} // verus!

verus! {

/// A copy of `data[from..to]`.
pub fn copy_range(data: &[u8], from: usize, to: usize) -> (r: Vec<u8>)
    requires
        from <= to <= data@.len(),
    ensures
        r@ == data@.subrange(from as int, to as int),
{
    let mut r: Vec<u8> = Vec::new();
    let mut i: usize = from;
    while i < to
        invariant
            from <= i <= to,
            to <= data@.len(),
            r@ == data@.subrange(from as int, i as int),
        decreases to - i,
    {
        r.push(data[i]);
        i = i + 1;
        assert(r@ =~= data@.subrange(from as int, i as int));
    }
    r
}

/// The byte strings held by a list of 32-byte arrays.
pub open spec fn ids_view(s: Seq<[u8; 32]>) -> Seq<Seq<u8>> {
    s.map_values(|a: [u8; 32]| a@)
}

/// The byte strings held by a list of byte vectors.
pub open spec fn txs_view(s: Seq<Vec<u8>>) -> Seq<Seq<u8>> {
    s.map_values(|t: Vec<u8>| t@)
}

} // verus!
