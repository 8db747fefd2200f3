//! The sixteen-byte frame header and the frame codec.
use vstd::prelude::*;

use crate::error::DanmukuError;
use crate::wire::{
    be16, be32, bits16, bits32, from_bits32, get_be16, get_be32, lemma_be16_read, lemma_be32_read,
    push_be16, push_be32, read_be16, read_be32, signed32, to_bits16, to_bits32,
};

verus! {

/// Length of the header that precedes every frame body.
pub const HEADER_LEN: u16 = 16;

/// Operation code of a heartbeat frame.
pub const OP_HEARTBEAT: i32 = 2;

/// Operation code of the acknowledgement of a heartbeat.
pub const OP_HEARTBEAT_ACK: i32 = 3;

/// Operation code of a frame that carries room commands.
pub const OP_COMMAND: i32 = 5;

/// Operation code of the join frame.
pub const OP_JOIN: i32 = 7;

/// Operation code of the acknowledgement of a join.
pub const OP_JOIN_ACK: i32 = 8;

/// Compression marker of a body that is a zlib stream of further frames.
pub const COMPRESSION_ZLIB: u16 = 2;

/// Largest body that fits a frame whose total length is a signed 32-bit number.
pub const MAX_BODY_LEN: usize = 0x7fff_ffef;

/// An outgoing frame header, in the field order of the wire.
#[derive(Debug, Clone, Copy, PartialEq, Eq, Structural)]
pub struct Header {
    /// Total length of the frame, header included.
    pub len: i32,
    /// Length of the header.
    pub a: i16,
    /// Protocol version.
    pub b: i16,
    /// Operation code.
    pub dtype: i32,
    /// Sequence number.
    pub c: i32,
}

/// The sixteen bytes of a header.
pub open spec fn header_bytes(h: Header) -> Seq<u8> {
    be32(bits32(h.len as int)) + be16(bits16(h.a as int)) + be16(bits16(h.b as int)) + be32(
        bits32(h.dtype as int),
    ) + be32(bits32(h.c as int))
}

/// The frame that carries `body` under operation `op`: header of length
/// sixteen, protocol version one, sequence one.
pub open spec fn encoded(body: Seq<u8>, op: i32) -> Seq<u8> {
    be32(body.len() + 16int) + be16(16) + be16(1) + be32(bits32(op as int)) + be32(1) + body
}

impl Header {
    /// The header of a frame whose body is `len` bytes long.
    pub fn new(len: i32, dtype: i32) -> (r: Header)
        requires
            len <= i32::MAX - 16,
        ensures
            r == (Header { len: (16 + len) as i32, a: 16, b: 1, dtype, c: 1 }),
    {
        Header { len: 16 + len, a: 16, b: 1, dtype, c: 1 }
    }
}

/// An outgoing frame: header and body.
#[derive(Debug)]
pub struct Pkg {
    pub header: Header,
    pub body: Vec<u8>,
}

impl Pkg {
    /// The frame that carries `body` under operation `dtype`; refused when
    /// its total length would not fit a signed 32-bit number.
    pub fn new(body: Vec<u8>, dtype: i32) -> (r: Result<Pkg, DanmukuError>)
        ensures
            body@.len() <= MAX_BODY_LEN ==> (r matches Ok(p) && p.body@ == body@ && p.header == (
            Header { len: (16 + body@.len()) as i32, a: 16, b: 1, dtype, c: 1 })),
            body@.len() > MAX_BODY_LEN ==> r == Err::<Pkg, DanmukuError>(DanmukuError::TooBigPkg),
    {
        if body.len() > MAX_BODY_LEN {
            return Err(DanmukuError::TooBigPkg);
        }
        let header = Header::new(body.len() as i32, dtype);
        Ok(Pkg { header, body })
    }

    /// The bytes of the frame: header fields big-endian, then the body.
    pub fn into_bytes(self) -> (r: Vec<u8>)
        ensures
            r@ == header_bytes(self.header) + self.body@,
    {
        let mut out: Vec<u8> = Vec::new();
        push_be32(&mut out, to_bits32(self.header.len));
        push_be16(&mut out, to_bits16(self.header.a));
        push_be16(&mut out, to_bits16(self.header.b));
        push_be32(&mut out, to_bits32(self.header.dtype));
        push_be32(&mut out, to_bits32(self.header.c));
        let ghost head = out@;
        let mut i: usize = 0;
        while i < self.body.len()
            invariant
                i <= self.body@.len(),
                out@ == head + self.body@.subrange(0, i as int),
            decreases self.body@.len() - i,
        {
            out.push(self.body[i]);
            i = i + 1;
            assert(out@ =~= head + self.body@.subrange(0, i as int));
        }
        assert(self.body@.subrange(0, i as int) =~= self.body@);
        assert(head =~= header_bytes(self.header));
        out
    }
}

/// The bytes of a frame carrying `body` under operation `op`, or `TooBigPkg`
/// when the body is longer than `MAX_BODY_LEN`.
pub fn encode(body: Vec<u8>, op: i32) -> (r: Result<Vec<u8>, DanmukuError>)
    ensures
        body@.len() <= MAX_BODY_LEN ==> (r matches Ok(b) && b@ == encoded(body@, op)),
        body@.len() > MAX_BODY_LEN ==> r == Err::<Vec<u8>, DanmukuError>(DanmukuError::TooBigPkg),
{
    let ghost b = body@;
    match Pkg::new(body, op) {
        Ok(p) => {
            let r = p.into_bytes();
            assert(header_bytes(p.header) + b =~= encoded(b, op));
            Ok(r)
        },
        Err(e) => Err(e),
    }
}

/// A frame read from the wire.
#[derive(Debug, PartialEq, Eq)]
pub struct Frame {
    pub total_length: u32,
    pub header_length: u16,
    pub compression: u16,
    pub operation: i32,
    pub sequence: i32,
    pub body: Vec<u8>,
}

/// What a frame is: its header fields and the bytes of its body.
pub struct FrameView {
    pub total_length: u32,
    pub header_length: u16,
    pub compression: u16,
    pub operation: i32,
    pub sequence: i32,
    pub body: Seq<u8>,
}

impl View for Frame {
    type V = FrameView;

    open spec fn view(&self) -> FrameView {
        FrameView {
            total_length: self.total_length,
            header_length: self.header_length,
            compression: self.compression,
            operation: self.operation,
            sequence: self.sequence,
            body: self.body@,
        }
    }
}

/// The views of a sequence of frames.
pub open spec fn frames_view(v: Seq<Frame>) -> Seq<FrameView> {
    v.map_values(|f: Frame| f@)
}

/// The frame whose header stands at the start of `buf` and whose total length is `total`.
pub open spec fn frame_at(buf: Seq<u8>, total: int) -> FrameView {
    FrameView {
        total_length: total as u32,
        header_length: read_be16(buf, 4) as u16,
        compression: read_be16(buf, 6) as u16,
        operation: signed32(read_be32(buf, 8)) as i32,
        sequence: signed32(read_be32(buf, 12)) as i32,
        body: buf.subrange(read_be16(buf, 4), total),
    }
}

/// The frames that `buf` holds, read one after another from its start, up
/// to the first header that is cut short or announces lengths the buffer
/// cannot hold; with the error that stopped the reading, if one did.
pub open spec fn decode_prefix(buf: Seq<u8>) -> (Seq<FrameView>, Option<DanmukuError>)
    decreases buf.len(),
{
    if buf.len() == 0 {
        (Seq::empty(), None)
    } else if buf.len() < 16 {
        (Seq::empty(), Some(DanmukuError::TruncatedHeader))
    } else {
        let total = read_be32(buf, 0);
        let hl = read_be16(buf, 4);
        if hl < 16 || total < hl || total > buf.len() {
            (Seq::empty(), Some(DanmukuError::InvalidFrameLength))
        } else {
            let rest = decode_prefix(buf.subrange(total, buf.len() as int));
            (seq![frame_at(buf, total)] + rest.0, rest.1)
        }
    }
}

/// The frames that `buf` holds, from its start to its end; the error that
/// stopped the reading if the frames do not fill it.
pub open spec fn decode_spec(buf: Seq<u8>) -> Result<Seq<FrameView>, DanmukuError> {
    match decode_prefix(buf).1 {
        None => Ok(decode_prefix(buf).0),
        Some(e) => Err(e),
    }
}

/// Copies `buf[start..end]`.
fn copy_range(buf: &[u8], start: usize, end: usize) -> (r: Vec<u8>)
    requires
        start <= end <= buf@.len(),
    ensures
        r@ == buf@.subrange(start as int, end as int),
{
    let mut out: Vec<u8> = Vec::new();
    let mut i: usize = start;
    while i < end
        invariant
            start <= i <= end <= buf@.len(),
            out@ == buf@.subrange(start as int, i as int),
        decreases end - i,
    {
        out.push(buf[i]);
        i = i + 1;
        assert(out@ =~= buf@.subrange(start as int, i as int));
    }
    out
}

/// Reads the frames of `buf` one after another from its start, and stops at
/// the end of the buffer or at the first header that is cut short or
/// announces impossible lengths. Returns the frames read before that point,
/// and the error that stopped the reading, if one did.
///
/// The error is `TruncatedHeader` where fewer than sixteen bytes remain for a
/// header, and `InvalidFrameLength` where a header announces a header length
/// under sixteen, a total length under the header length, or a frame that
/// runs past the end of the buffer.
pub fn decode_frames(buf: &[u8]) -> (r: (Vec<Frame>, Option<DanmukuError>))
    ensures
        frames_view(r.0@) == decode_prefix(buf@).0,
        r.1 == decode_prefix(buf@).1,
{
    let mut frames: Vec<Frame> = Vec::new();
    let mut offset: usize = 0;
    assert(buf@.subrange(0, buf@.len() as int) =~= buf@);
    assert(frames_view(frames@) + decode_prefix(buf@).0 =~= decode_prefix(buf@).0);
    while offset < buf.len()
        invariant
            offset <= buf@.len(),
            decode_prefix(buf@).0 == frames_view(frames@) + decode_prefix(
                buf@.subrange(offset as int, buf@.len() as int),
            ).0,
            decode_prefix(buf@).1 == decode_prefix(
                buf@.subrange(offset as int, buf@.len() as int),
            ).1,
        decreases buf@.len() - offset,
    {
        let ghost rest = buf@.subrange(offset as int, buf@.len() as int);
        if buf.len() - offset < 16 {
            assert(frames_view(frames@) + Seq::<FrameView>::empty() =~= frames_view(frames@));
            return (frames, Some(DanmukuError::TruncatedHeader));
        }
        let total = get_be32(buf, offset);
        let hl = get_be16(buf, offset + 4);
        assert(read_be32(rest, 0) == read_be32(buf@, offset as int));
        assert(read_be16(rest, 4) == read_be16(buf@, offset as int + 4));
        if hl < HEADER_LEN || total < hl as u32 || total as usize > buf.len() - offset {
            assert(frames_view(frames@) + Seq::<FrameView>::empty() =~= frames_view(frames@));
            return (frames, Some(DanmukuError::InvalidFrameLength));
        }
        let compression = get_be16(buf, offset + 6);
        let operation = from_bits32(get_be32(buf, offset + 8));
        let sequence = from_bits32(get_be32(buf, offset + 12));
        assert(read_be16(rest, 6) == read_be16(buf@, offset as int + 6));
        assert(read_be32(rest, 8) == read_be32(buf@, offset as int + 8));
        assert(read_be32(rest, 12) == read_be32(buf@, offset as int + 12));
        let end = offset + total as usize;
        let body = copy_range(buf, offset + hl as usize, end);
        let frame = Frame {
            total_length: total,
            header_length: hl,
            compression,
            operation,
            sequence,
            body,
        };
        assert(rest.subrange(hl as int, total as int) =~= buf@.subrange(
            offset + hl as int,
            end as int,
        ));
        assert(frame@ == frame_at(rest, total as int));
        assert(rest.subrange(total as int, rest.len() as int) =~= buf@.subrange(
            end as int,
            buf@.len() as int,
        ));
        let ghost before = frames_view(frames@);
        let ghost fv = frame@;
        let ghost after = decode_prefix(buf@.subrange(end as int, buf@.len() as int));
        frames.push(frame);
        assert(frames_view(frames@) =~= before + seq![fv]);
        assert(before + (seq![fv] + after.0) =~= frames_view(frames@) + after.0);
        offset = end;
    }
    assert(buf@.subrange(offset as int, buf@.len() as int) =~= Seq::<u8>::empty());
    assert(frames_view(frames@) + Seq::<FrameView>::empty() =~= frames_view(frames@));
    (frames, None)
}

/// Splits `buf` into the frames it holds, from its start to its end; fails
/// with the error of `decode_frames` where the frames do not fill it.
pub fn decode(buf: &[u8]) -> (r: Result<Vec<Frame>, DanmukuError>)
    ensures
        decode_spec(buf@) matches Ok(fs) ==> (r matches Ok(v) && frames_view(v@) == fs),
        decode_spec(buf@) matches Err(e) ==> r == Err::<Vec<Frame>, DanmukuError>(e),
{
    let (frames, err) = decode_frames(buf);
    match err {
        None => Ok(frames),
        Some(e) => Err(e),
    }
}

/// The frame that `encoded(body, op)` holds.
pub open spec fn encoded_view(body: Seq<u8>, op: i32) -> FrameView {
    FrameView {
        total_length: (body.len() + 16) as u32,
        header_length: 16,
        compression: 1,
        operation: op,
        sequence: 1,
        body,
    }
}

/// The bytes of the frames that carry `items`, one after another.
pub open spec fn concat_encoded(items: Seq<(Seq<u8>, i32)>) -> Seq<u8>
    decreases items.len(),
{
    if items.len() == 0 {
        Seq::empty()
    } else {
        encoded(items[0].0, items[0].1) + concat_encoded(items.drop_first())
    }
}

/// The frames that carry `items`.
pub open spec fn encoded_views(items: Seq<(Seq<u8>, i32)>) -> Seq<FrameView> {
    items.map_values(|it: (Seq<u8>, i32)| encoded_view(it.0, it.1))
}

proof fn lemma_encoded_header(body: Seq<u8>, op: i32, rest: Seq<u8>)
    requires
        body.len() <= MAX_BODY_LEN,
    ensures
        ({
            let s = encoded(body, op) + rest;
            &&& s.len() == body.len() + 16 + rest.len()
            &&& read_be32(s, 0) == body.len() + 16
            &&& read_be16(s, 4) == 16
            &&& read_be16(s, 6) == 1
            &&& read_be32(s, 8) == bits32(op as int)
            &&& read_be32(s, 12) == 1
            &&& s.subrange(16, body.len() + 16int) == body
            &&& s.subrange(body.len() + 16int, s.len() as int) == rest
        }),
{
    let t = body.len() + 16int;
    let s = encoded(body, op) + rest;
    let p0 = Seq::<u8>::empty();
    let p1 = be32(t);
    let p2 = p1 + be16(16);
    let p3 = p2 + be16(1);
    let p4 = p3 + be32(bits32(op as int));
    let tail = body + rest;
    assert(s =~= p0 + be32(t) + (be16(16) + be16(1) + be32(bits32(op as int)) + be32(1) + tail));
    lemma_be32_read(t, p0, be16(16) + be16(1) + be32(bits32(op as int)) + be32(1) + tail);
    assert(s =~= p1 + be16(16) + (be16(1) + be32(bits32(op as int)) + be32(1) + tail));
    lemma_be16_read(16, p1, be16(1) + be32(bits32(op as int)) + be32(1) + tail);
    assert(s =~= p2 + be16(1) + (be32(bits32(op as int)) + be32(1) + tail));
    lemma_be16_read(1, p2, be32(bits32(op as int)) + be32(1) + tail);
    assert(s =~= p3 + be32(bits32(op as int)) + (be32(1) + tail));
    lemma_be32_read(bits32(op as int), p3, be32(1) + tail);
    assert(s =~= p4 + be32(1) + tail);
    lemma_be32_read(1, p4, tail);
    assert(s.subrange(16, t) =~= body);
    assert(s.subrange(t, s.len() as int) =~= rest);
}

/// Reading a buffer that starts with an encoded frame yields that frame
/// followed by what reading the rest of the buffer yields.
pub proof fn lemma_decode_encoded_prefix(body: Seq<u8>, op: i32, rest: Seq<u8>)
    requires
        body.len() <= MAX_BODY_LEN,
    ensures
        decode_prefix(encoded(body, op) + rest) == (
            seq![encoded_view(body, op)] + decode_prefix(rest).0,
            decode_prefix(rest).1,
        ),
{
    let t = body.len() + 16int;
    let s = encoded(body, op) + rest;
    lemma_encoded_header(body, op, rest);
    assert(frame_at(s, t) == encoded_view(body, op));
}

/// Round trip: decoding the bytes of one encoded frame gives back exactly
/// that frame, with its body and operation code.
pub proof fn lemma_decode_encode(body: Seq<u8>, op: i32)
    requires
        body.len() <= MAX_BODY_LEN,
    ensures
        decode_spec(encoded(body, op)) == Ok::<Seq<FrameView>, DanmukuError>(
            seq![encoded_view(body, op)],
        ),
        encoded_view(body, op).body == body,
        encoded_view(body, op).operation == op,
{
    lemma_decode_encoded_prefix(body, op, Seq::empty());
    assert(encoded(body, op) + Seq::<u8>::empty() =~= encoded(body, op));
    assert(decode_prefix(Seq::<u8>::empty()).0 =~= Seq::<FrameView>::empty());
    assert(seq![encoded_view(body, op)] + Seq::<FrameView>::empty() =~= seq![encoded_view(body, op)]);
}

/// Decoding the concatenation of any number of encoded frames yields exactly
/// that many frames, in order, each with its own body and operation code.
pub proof fn lemma_decode_concatenation(items: Seq<(Seq<u8>, i32)>)
    requires
        forall|i: int| 0 <= i < items.len() ==> (#[trigger] items[i]).0.len() <= MAX_BODY_LEN,
    ensures
        decode_prefix(concat_encoded(items)) == (encoded_views(items), None::<DanmukuError>),
        decode_spec(concat_encoded(items)) == Ok::<Seq<FrameView>, DanmukuError>(
            encoded_views(items),
        ),
        encoded_views(items).len() == items.len(),
        forall|i: int|
            0 <= i < items.len() ==> (#[trigger] encoded_views(items)[i]).body == items[i].0
                && encoded_views(items)[i].operation == items[i].1,
    decreases items.len(),
{
    if items.len() == 0 {
        assert(concat_encoded(items) =~= Seq::<u8>::empty());
        assert(encoded_views(items) =~= Seq::<FrameView>::empty());
        assert(decode_prefix(Seq::<u8>::empty()).0 =~= Seq::<FrameView>::empty());
    } else {
        let tail = items.drop_first();
        assert forall|i: int| 0 <= i < tail.len() implies (#[trigger] tail[i]).0.len()
            <= MAX_BODY_LEN by {
            assert(tail[i] == items[i + 1]);
        }
        lemma_decode_concatenation(tail);
        lemma_decode_encoded_prefix(items[0].0, items[0].1, concat_encoded(tail));
        assert(encoded_views(items) =~= seq![encoded_view(items[0].0, items[0].1)]
            + encoded_views(tail));
    }
}

} // verus!
