//! Coinbase transaction pieces: the BIP34 height push, the prefix that
//! precedes the miner's extra nonce and the suffix that follows it.

use vstd::prelude::*;
use crate::wire::{le_u16, le_u32, le_u64, push_all, push_u16_le, push_u32_le, push_u64_le};

verus! {

/// The height push of a coinbase script, as the shortest of five fixed forms.
pub open spec fn height_bytes(h: u64) -> Seq<u8> {
    if h == 0 {
        seq![0x00u8]
    } else if h <= 0x7f {
        seq![0x01u8, h as u8]
    } else if h <= 0x7fff {
        seq![0x02u8] + le_u16(h as u16)
    } else if h <= 0x7fffff {
        seq![0x03u8, (h & 0xff) as u8, ((h >> 8u64) & 0xff) as u8, ((h >> 16u64) & 0xff) as u8]
    } else {
        seq![0x04u8] + le_u32(h as u32)
    }
}

/// The BIP34 height push for `h`.
pub fn encode_height(h: u64) -> (r: Vec<u8>)
    ensures
        r@ == height_bytes(h),
{
    let mut out: Vec<u8> = Vec::new();
    if h == 0 {
        out.push(0x00);
    } else if h <= 0x7f {
        out.push(0x01);
        out.push(h as u8);
    } else if h <= 0x7fff {
        out.push(0x02);
        push_u16_le(&mut out, h as u16);
    } else if h <= 0x7fffff {
        out.push(0x03);
        out.push((h & 0xff) as u8);
        out.push(((h >> 8u64) & 0xff) as u8);
        out.push(((h >> 16u64) & 0xff) as u8);
    } else {
        out.push(0x04);
        push_u32_le(&mut out, h as u32);
    }
    assert(out@ =~= height_bytes(h));
    out
}


/// Bitcoin's compact-size prefix for a length, in its one- and three-byte
/// forms; a length past `u16` keeps only its low sixteen bits.
pub open spec fn compact_size(n: usize) -> Seq<u8> {
    if n < 0xfd {
        seq![n as u8]
    } else {
        seq![0xfdu8] + le_u16(n as u16)
    }
}

/// `n` zero bytes.
pub open spec fn zeros(n: nat) -> Seq<u8> {
    Seq::new(n, |i: int| 0u8)
}

/// The coinbase bytes up to and including the script tag.
pub open spec fn cb_prefix_bytes(ver: u32, height: u64, tag: Seq<u8>) -> Seq<u8> {
    le_u32(ver) + seq![0x00u8, 0x01u8, 0x01u8] + zeros(32) + seq![0xffu8, 0xffu8, 0xffu8, 0xffu8]
        + compact_size((height_bytes(height).len() + tag.len()) as usize) + height_bytes(height)
        + tag
}

/// The commitment output script of a segwit coinbase.
pub open spec fn witness_script_bytes(commitment: Seq<u8>) -> Seq<u8> {
    seq![0x6au8, 0x24u8, 0xaau8, 0x21u8, 0xa9u8, 0xedu8] + commitment
}

/// The coinbase bytes after the miner's extra nonce.
pub open spec fn cb_suffix_bytes(value: u64, script: Seq<u8>, witness: Option<Seq<u8>>) -> Seq<u8> {
    seq![0xffu8, 0xffu8, 0xffu8, 0xffu8] + seq![if witness is Some { 2u8 } else { 1u8 }]
        + le_u64(value) + compact_size(script.len() as usize) + script + match witness {
        Some(w) => le_u64(0) + seq![witness_script_bytes(w).len() as u8] + witness_script_bytes(w),
        None => Seq::empty(),
    } + seq![0x01u8, 0x20u8] + zeros(32) + seq![0x00u8, 0x00u8, 0x00u8, 0x00u8]
}

fn push_zeros(buf: &mut Vec<u8>, n: usize)
    ensures
        final(buf)@ == old(buf)@ + zeros(n as nat),
{
    let mut i: usize = 0;
    while i < n
        invariant
            i <= n,
            buf@ == old(buf)@ + zeros(i as nat),
        decreases n - i,
    {
        buf.push(0u8);
        i = i + 1;
        assert(buf@ =~= old(buf)@ + zeros(i as nat));
    }
}

fn push_compact_size(buf: &mut Vec<u8>, n: usize)
    ensures
        final(buf)@ == old(buf)@ + compact_size(n),
{
    if n < 0xfd {
        buf.push(n as u8);
    } else {
        buf.push(0xfd);
        push_u16_le(buf, n as u16);
    }
    assert(final(buf)@ =~= old(buf)@ + compact_size(n));
}

/// The coinbase bytes before the extra nonce, with `tag` after the height.
pub fn build_cb_prefix(ver: u32, height: u64, tag: &[u8]) -> (r: Vec<u8>)
    requires
        tag@.len() + 5 <= usize::MAX,
    ensures
        r@ == cb_prefix_bytes(ver, height, tag@),
{
    let mut buf: Vec<u8> = Vec::new();
    push_u32_le(&mut buf, ver);
    buf.push(0x00);
    buf.push(0x01);
    buf.push(0x01);
    push_zeros(&mut buf, 32);
    buf.push(0xff);
    buf.push(0xff);
    buf.push(0xff);
    buf.push(0xff);
    let hscript = encode_height(height);
    assert(hscript@.len() <= 5);
    let slen = hscript.len() + tag.len();
    push_compact_size(&mut buf, slen);
    push_all(&mut buf, hscript.as_slice());
    push_all(&mut buf, tag);
    assert(buf@ =~= cb_prefix_bytes(ver, height, tag@));
    buf
}

/// The output script that carries a witness commitment.
pub fn witness_script(commitment: &[u8; 32]) -> (r: Vec<u8>)
    ensures
        r@ == witness_script_bytes(commitment@),
{
    let mut s: Vec<u8> = Vec::new();
    s.push(0x6a);
    s.push(0x24);
    s.push(0xaa);
    s.push(0x21);
    s.push(0xa9);
    s.push(0xed);
    push_all(&mut s, commitment);
    assert(s@ =~= witness_script_bytes(commitment@));
    s
}

/// The coinbase bytes after the extra nonce: one output paying `value` to
/// `script`, plus a commitment output when `witness` is given.
pub fn build_cb_suffix(value: u64, script: &[u8], witness: Option<&[u8; 32]>) -> (r: Vec<u8>)
    ensures
        r@ == cb_suffix_bytes(
            value,
            script@,
            match witness {
                Some(w) => Some(w@),
                None => None,
            },
        ),
{
    let mut buf: Vec<u8> = Vec::new();
    buf.push(0xff);
    buf.push(0xff);
    buf.push(0xff);
    buf.push(0xff);
    let outs: u8 = if witness.is_some() { 2 } else { 1 };
    buf.push(outs);
    push_u64_le(&mut buf, value);
    push_compact_size(&mut buf, script.len());
    push_all(&mut buf, script);
    match witness {
        Some(w) => {
            push_u64_le(&mut buf, 0);
            let wscript = witness_script(w);
            buf.push(wscript.len() as u8);
            push_all(&mut buf, wscript.as_slice());
        },
        None => {},
    }
    buf.push(0x01);
    buf.push(0x20);
    push_zeros(&mut buf, 32);
    buf.push(0x00);
    buf.push(0x00);
    buf.push(0x00);
    buf.push(0x00);
    assert(buf@ =~= cb_suffix_bytes(
        value,
        script@,
        match witness {
            Some(w) => Some(w@),
            None => None,
        },
    ));
    buf
}

} // verus!
