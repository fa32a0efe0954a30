//! Splitting a growing byte buffer into frames, and the law that a reader fed
//! piecemeal recovers the frames that were written.

use vstd::prelude::*;
use crate::messages::frame_bytes;
use crate::wire::{le_u16, le_u24, u16_at};

verus! {

#[verifier::external_type_specification]
#[verifier::external_body]
pub struct ExBytesMut(bytes::BytesMut);

/// The bytes a `BytesMut` holds, in order.
pub uninterp spec fn buffered(b: bytes::BytesMut) -> Seq<u8>;

/// Relies on `bytes::BytesMut::len`: the number of bytes held.
#[verifier::external_body]
fn buffer_len(b: &bytes::BytesMut) -> (r: usize)
    ensures
        r == buffered(*b).len(),
{
    b.len()
}

/// Relies on indexing a `BytesMut` through its slice: the byte at `i`.
#[verifier::external_body]
fn buffer_byte(b: &bytes::BytesMut, i: usize) -> (r: u8)
    requires
        i < buffered(*b).len(),
    ensures
        r == buffered(*b)[i as int],
{
    b[i]
}

/// Relies on `bytes::BytesMut::split_to`: the first `at` bytes leave the
/// buffer and are returned; it panics past the end, which `requires` rules out.
#[verifier::external_body]
fn buffer_split_to(b: &mut bytes::BytesMut, at: usize) -> (r: Vec<u8>)
    requires
        at <= buffered(*old(b)).len(),
    ensures
        r@ == buffered(*old(b)).subrange(0, at as int),
        buffered(*final(b)) == buffered(*old(b)).subrange(at as int, buffered(*old(b)).len() as int),
{
    b.split_to(at).to_vec()
}

/// Size of a frame header.
pub const HDR: usize = 6;

/// The payload length a header at the front of `s` advertises.
pub open spec fn advertised_len(s: Seq<u8>) -> u32 {
    ((s[3] as u32) | ((s[4] as u32) << 8u32) | ((s[5] as u32) << 16u32)) as u32
}

/// Whether `s` starts with a whole frame.
pub open spec fn has_frame(s: Seq<u8>) -> bool {
    s.len() >= 6 && s.len() >= 6 + advertised_len(s)
}

/// Size of the frame at the front of `s`.
pub open spec fn frame_size(s: Seq<u8>) -> int {
    6 + advertised_len(s)
}

/// The whole frames at the front of `s`, in order, and the bytes after them.
pub open spec fn split_frames(s: Seq<u8>) -> (Seq<Seq<u8>>, Seq<u8>)
    decreases s.len(),
{
    if has_frame(s) {
        let rest = split_frames(s.subrange(frame_size(s), s.len() as int));
        (seq![s.subrange(0, frame_size(s))] + rest.0, rest.1)
    } else {
        (Seq::empty(), s)
    }
}

/// A frame taken off the buffer, its payload still as it came.
#[derive(Debug, Clone)]
pub struct RawFrame {
    pub ext: u16,
    pub mtype: u8,
    pub payload: Vec<u8>,
}

/// Takes the first whole frame off the buffer; leaves a partial frame where
/// it is.
pub fn next_frame(buf: &mut bytes::BytesMut) -> (r: Option<RawFrame>)
    ensures
        !has_frame(buffered(*old(buf))) ==> r is None && buffered(*final(buf)) == buffered(
            *old(buf),
        ),
        has_frame(buffered(*old(buf))) ==> {
            let s = buffered(*old(buf));
            &&& r matches Some(f)
            &&& frame_bytes(f.mtype, f.ext, f.payload@) == s.subrange(0, frame_size(s))
            &&& f.ext == u16_at(s, 0)
            &&& f.mtype == s[2]
            &&& f.payload@ == s.subrange(6, frame_size(s))
            &&& buffered(*final(buf)) == s.subrange(frame_size(s), s.len() as int)
        },
{
    let ghost s = buffered(*buf);
    let n = buffer_len(buf);
    if n < HDR {
        return None;
    }
    let b0 = buffer_byte(buf, 0);
    let b1 = buffer_byte(buf, 1);
    let mtype = buffer_byte(buf, 2);
    let b3 = buffer_byte(buf, 3);
    let b4 = buffer_byte(buf, 4);
    let b5 = buffer_byte(buf, 5);
    let ext: u16 = (b0 as u16) | ((b1 as u16) << 8u16);
    let mlen: u32 = (b3 as u32) | ((b4 as u32) << 8u32) | ((b5 as u32) << 16u32);
    assert(mlen == advertised_len(s));
    if n - HDR < mlen as usize {
        return None;
    }
    let total = HDR + mlen as usize;
    let frame = buffer_split_to(buf, total);
    let mut payload: Vec<u8> = Vec::new();
    let mut i: usize = HDR;
    while i < total
        invariant
            HDR <= i <= total,
            total == frame@.len(),
            payload@ == frame@.subrange(6, i as int),
        decreases total - i,
    {
        payload.push(frame[i]);
        i = i + 1;
        assert(payload@ =~= frame@.subrange(6, i as int));
    }
    proof {
        lemma_header_fields(s, frame_size(s));
        assert(frame_bytes(mtype, ext, payload@) =~= s.subrange(0, frame_size(s)));
    }
    Some(RawFrame { ext, mtype, payload })
}

/// Takes every whole frame off the buffer, in order, and leaves the partial
/// frame after them.
pub fn drain_frames(buf: &mut bytes::BytesMut) -> (r: Vec<RawFrame>)
    ensures
        r@.len() == split_frames(buffered(*old(buf))).0.len(),
        forall|i: int|
            0 <= i < r@.len() ==> frame_bytes(#[trigger] r@[i].mtype, r@[i].ext, r@[i].payload@)
                == split_frames(buffered(*old(buf))).0[i],
        buffered(*final(buf)) == split_frames(buffered(*old(buf))).1,
{
    let ghost start = split_frames(buffered(*buf));
    let mut out: Vec<RawFrame> = Vec::new();
    loop
        invariant
            start == split_frames(buffered(*old(buf))),
            split_frames(buffered(*buf)).1 == start.1,
            out@.len() + split_frames(buffered(*buf)).0.len() == start.0.len(),
            forall|i: int|
                0 <= i < out@.len() ==> frame_bytes(#[trigger] out@[i].mtype, out@[i].ext, out@[i].payload@)
                    == start.0[i],
            split_frames(buffered(*buf)).0 == start.0.subrange(out@.len() as int, start.0.len() as int),
        decreases buffered(*buf).len(),
    {
        let ghost before = buffered(*buf);
        match next_frame(buf) {
            Some(f) => {
                proof {
                    let after = buffered(*buf);
                    assert(split_frames(before).0 == seq![before.subrange(0, frame_size(before))]
                        + split_frames(after).0);
                    let k = out@.len() as int;
                    assert(split_frames(before).0 == start.0.subrange(k, start.0.len() as int));
                    assert(start.0[k] == split_frames(before).0[0]);
                    assert(split_frames(after).0 =~= split_frames(before).0.subrange(
                        1,
                        split_frames(before).0.len() as int,
                    ));
                    assert(split_frames(after).0 =~= start.0.subrange(k + 1, start.0.len() as int));
                }
                out.push(f);
            },
            None => {
                assert(split_frames(before) == (Seq::<Seq<u8>>::empty(), before));
                return out;
            },
        }
    }
}

/// The header fields of a frame spell out its first six bytes again.
proof fn lemma_header_fields(s: Seq<u8>, total: int)
    requires
        s.len() >= total >= 6,
        total == 6 + advertised_len(s),
    ensures
        le_u16(u16_at(s, 0)) == s.subrange(0, 2),
        le_u24((total - 6) as u32) == s.subrange(3, 6),
{
    let (b0, b1, b3, b4, b5) = (s[0], s[1], s[3], s[4], s[5]);
    let x: u16 = u16_at(s, 0);
    assert((x & 0xff) as u8 == b0 && ((x >> 8u16) & 0xff) as u8 == b1) by (bit_vector)
        requires
            x == ((b0 as u16) | ((b1 as u16) << 8u16)) as u16,
    ;
    let m: u32 = advertised_len(s);
    assert((m & 0xff) as u8 == b3 && ((m >> 8u32) & 0xff) as u8 == b4 && ((m >> 16u32) & 0xff)
        as u8 == b5) by (bit_vector)
        requires
            m == ((b3 as u32) | ((b4 as u32) << 8u32) | ((b5 as u32) << 16u32)) as u32,
    ;
    assert(le_u16(x) =~= s.subrange(0, 2));
    assert(le_u24(m) =~= s.subrange(3, 6));
}

/// The frames written for messages given as `(type, extension, payload)`.
pub open spec fn frames_of(msgs: Seq<(u8, u16, Seq<u8>)>) -> Seq<Seq<u8>> {
    msgs.map_values(|m: (u8, u16, Seq<u8>)| frame_bytes(m.0, m.1, m.2))
}

/// Byte strings joined in order.
pub open spec fn concat_all(parts: Seq<Seq<u8>>) -> Seq<u8>
    decreases parts.len(),
{
    if parts.len() == 0 {
        Seq::empty()
    } else {
        parts[0] + concat_all(parts.drop_first())
    }
}

/// A reader's state after `bytes` arrive one at a time, each followed by
/// taking off every whole frame: the frames taken, in order, and the bytes
/// still waiting. This is what `drain_frames`, and so `process_data`, do
/// when called after each byte: each call takes `split_frames` of what is
/// buffered and leaves its rest.
pub open spec fn fed_bytewise(bytes: Seq<u8>) -> (Seq<Seq<u8>>, Seq<u8>)
    decreases bytes.len(),
{
    if bytes.len() == 0 {
        (Seq::empty(), Seq::empty())
    } else {
        let before = fed_bytewise(bytes.drop_last());
        let more = split_frames(before.1.push(bytes.last()));
        (before.0 + more.0, more.1)
    }
}

/// Splitting `a + b` takes the frames of `a` first, then those of what was
/// left of `a` followed by `b`.
pub proof fn lemma_split_append(a: Seq<u8>, b: Seq<u8>)
    ensures
        split_frames(a + b) == (
            split_frames(a).0 + split_frames(split_frames(a).1 + b).0,
            split_frames(split_frames(a).1 + b).1,
        ),
    decreases a.len(),
{
    if has_frame(a) {
        let k = frame_size(a);
        let tail = a.subrange(k, a.len() as int);
        assert(advertised_len(a + b) == advertised_len(a));
        assert((a + b).subrange(k, (a + b).len() as int) =~= tail + b);
        assert((a + b).subrange(0, k) =~= a.subrange(0, k));
        lemma_split_append(tail, b);
        assert(split_frames(a).0 == seq![a.subrange(0, k)] + split_frames(tail).0);
        assert(split_frames(a + b).0 =~= seq![a.subrange(0, k)] + (split_frames(tail).0
            + split_frames(split_frames(tail).1 + b).0));
    } else {
        assert(split_frames(a).0 + split_frames(a + b).0 =~= split_frames(a + b).0);
    }
}

/// A reader fed one byte at a time ends where one fed everything at once does.
pub proof fn lemma_bytewise_same_as_whole(bytes: Seq<u8>)
    ensures
        fed_bytewise(bytes) == split_frames(bytes),
    decreases bytes.len(),
{
    if bytes.len() == 0 {
        assert(!has_frame(bytes));
    } else {
        let init = bytes.drop_last();
        lemma_bytewise_same_as_whole(init);
        lemma_split_append(init, seq![bytes.last()]);
        assert(init + seq![bytes.last()] =~= bytes);
        assert(split_frames(init).1.push(bytes.last()) =~= split_frames(init).1 + seq![
            bytes.last(),
        ]);
    }
}

/// The advertised length of a built frame is its payload's length.
proof fn lemma_frame_header_len(mtype: u8, ext: u16, payload: Seq<u8>, tail: Seq<u8>)
    requires
        payload.len() < 0x100_0000,
    ensures
        has_frame(frame_bytes(mtype, ext, payload) + tail),
        frame_size(frame_bytes(mtype, ext, payload) + tail) == 6 + payload.len(),
{
    let f = frame_bytes(mtype, ext, payload);
    let x: u32 = payload.len() as u32;
    let s = f + tail;
    assert(s[3] == (x & 0xff) as u8 && s[4] == ((x >> 8u32) & 0xff) as u8 && s[5] == ((x
        >> 16u32) & 0xff) as u8);
    let (b3, b4, b5) = (s[3], s[4], s[5]);
    assert(((b3 as u32) | ((b4 as u32) << 8u32) | ((b5 as u32) << 16u32)) as u32 == x)
        by (bit_vector)
        requires
            x < 0x100_0000,
            b3 == (x & 0xff) as u8,
            b4 == ((x >> 8u32) & 0xff) as u8,
            b5 == ((x >> 16u32) & 0xff) as u8,
    ;
}

/// Splitting the bytes of well-formed frames gives back those frames.
proof fn lemma_split_frames_of(msgs: Seq<(u8, u16, Seq<u8>)>)
    requires
        forall|i: int| 0 <= i < msgs.len() ==> (#[trigger] msgs[i]).2.len() < 0x100_0000,
    ensures
        split_frames(concat_all(frames_of(msgs))) == (frames_of(msgs), Seq::<u8>::empty()),
    decreases msgs.len(),
{
    let fs = frames_of(msgs);
    if msgs.len() == 0 {
        assert(concat_all(fs) == Seq::<u8>::empty());
        assert(fs =~= Seq::<Seq<u8>>::empty());
    } else {
        let m = msgs[0];
        let rest = msgs.drop_first();
        assert(frames_of(rest) =~= fs.drop_first());
        lemma_split_frames_of(rest);
        let f = frame_bytes(m.0, m.1, m.2);
        let tail = concat_all(frames_of(rest));
        assert(concat_all(fs) == f + tail);
        lemma_frame_header_len(m.0, m.1, m.2, tail);
        assert((f + tail).subrange(0, f.len() as int) =~= f);
        assert((f + tail).subrange(f.len() as int, (f + tail).len() as int) =~= tail);
        assert(fs =~= seq![f] + frames_of(rest));
    }
}

/// A reader fed one byte at a time with the bytes of frames whose payloads
/// fit the 24-bit length field recovers exactly those frames, in order, and
/// keeps nothing back.
pub proof fn lemma_bytewise_reader_recovers_frames(msgs: Seq<(u8, u16, Seq<u8>)>)
    requires
        forall|i: int| 0 <= i < msgs.len() ==> (#[trigger] msgs[i]).2.len() < 0x100_0000,
    ensures
        fed_bytewise(concat_all(frames_of(msgs))) == (frames_of(msgs), Seq::<u8>::empty()),
{
    lemma_split_frames_of(msgs);
    lemma_bytewise_same_as_whole(concat_all(frames_of(msgs)));
}

} // verus!
