//! Compressed batches of frames, and the command bodies of an inbound message.
use std::io::Read;
use vstd::prelude::*;

use crate::error::DanmukuError;
use crate::frame::{
    concat_encoded, decode_frames, decode_prefix, encoded_view, encoded_views, frames_view,
    lemma_decode_concatenation, Frame, FrameView, COMPRESSION_ZLIB, MAX_BODY_LEN, OP_COMMAND,
};

verus! {

/// Deepest nesting of compressed batches that `expand` follows.
pub const MAX_NESTING: usize = 8;

/// What inflating a zlib stream yields: the decompressed bytes, or nothing
/// when the stream is corrupt or incomplete.
pub uninterp spec fn zlib_inflated(data: Seq<u8>) -> Option<Seq<u8>>;

/// Relies on `flate2::read::ZlibDecoder` read to its end: the output of the
/// first zlib stream in `data` (bytes after its end are not read), or an
/// error where that stream is corrupt or cut short; the outcome depends on
/// the input bytes alone.
#[verifier::external_body]
fn inflate(data: &[u8]) -> (r: Option<Vec<u8>>)
    ensures
        r matches Some(v) ==> zlib_inflated(data@) == Some(v@),
        r is None ==> zlib_inflated(data@) is None,
{
    let mut out = Vec::new();
    match flate2::read::ZlibDecoder::new(data).read_to_end(&mut out) {
        Ok(_) => Some(out),
        Err(_) => None,
    }
}

/// The error that stopped a reading, as a last item.
pub open spec fn error_tail<T>(e: Option<DanmukuError>) -> Seq<Result<T, DanmukuError>> {
    match e {
        Some(e) => seq![Err(e)],
        None => Seq::empty(),
    }
}

/// What `f` stands for, following at most `depth` levels of compressed
/// batches: a frame that is not a compressed batch stands for itself; a
/// compressed batch stands for the expansions of the frames read from its
/// inflated body, followed by the error that stopped that reading, if any.
/// A batch that does not inflate, or that lies deeper than `depth`, stands
/// for its error.
pub open spec fn expand_spec(f: FrameView, depth: nat) -> Seq<Result<FrameView, DanmukuError>>
    decreases depth, 0nat,
{
    if f.compression != COMPRESSION_ZLIB {
        seq![Ok(f)]
    } else if depth == 0 {
        seq![Err(DanmukuError::NestingTooDeep)]
    } else {
        match zlib_inflated(f.body) {
            None => seq![Err(DanmukuError::DecompressionError)],
            Some(buf) => expand_all(decode_prefix(buf).0, (depth - 1) as nat) + error_tail(
                decode_prefix(buf).1,
            ),
        }
    }
}

/// The expansions of `fs`, one after another.
pub open spec fn expand_all(fs: Seq<FrameView>, depth: nat) -> Seq<Result<FrameView, DanmukuError>>
    decreases depth, fs.len(),
{
    if fs.len() == 0 {
        Seq::empty()
    } else {
        expand_spec(fs[0], depth) + expand_all(fs.drop_first(), depth)
    }
}

/// The view of one expanded item.
pub open spec fn expanded_view(r: Result<Frame, DanmukuError>) -> Result<FrameView, DanmukuError> {
    match r {
        Ok(f) => Ok(f@),
        Err(e) => Err(e),
    }
}

/// The views of expanded items.
pub open spec fn expanded_views(v: Seq<Result<Frame, DanmukuError>>) -> Seq<
    Result<FrameView, DanmukuError>,
> {
    v.map_values(|r: Result<Frame, DanmukuError>| expanded_view(r))
}

/// `fs` as items that are all frames.
pub open spec fn all_ok(fs: Seq<FrameView>) -> Seq<Result<FrameView, DanmukuError>> {
    fs.map_values(|f: FrameView| Ok::<FrameView, DanmukuError>(f))
}

fn expand_to_depth(frame: Frame, depth: usize) -> (r: Vec<Result<Frame, DanmukuError>>)
    ensures
        expanded_views(r@) == expand_spec(frame@, depth as nat),
    decreases depth, 0nat,
{
    let mut out: Vec<Result<Frame, DanmukuError>> = Vec::new();
    if frame.compression != COMPRESSION_ZLIB {
        let ghost fv = frame@;
        out.push(Ok(frame));
        assert(expanded_views(out@) =~= seq![Ok::<FrameView, DanmukuError>(fv)]);
        return out;
    }
    if depth == 0 {
        out.push(Err(DanmukuError::NestingTooDeep));
        assert(expanded_views(out@) =~= seq![Err::<FrameView, DanmukuError>(DanmukuError::NestingTooDeep)]);
        return out;
    }
    match inflate(frame.body.as_slice()) {
        None => {
            out.push(Err(DanmukuError::DecompressionError));
            assert(expanded_views(out@) =~= seq![
                Err::<FrameView, DanmukuError>(DanmukuError::DecompressionError),
            ]);
            out
        },
        Some(buf) => {
            let (frames, err) = decode_frames(buf.as_slice());
            let mut items = expand_frames(frames, depth - 1);
            let ghost iv = expanded_views(items@);
            match err {
                Some(e) => {
                    items.push(Err(e));
                    assert(expanded_views(items@) =~= iv + seq![Err::<FrameView, DanmukuError>(e)]);
                },
                None => {
                    assert(iv + error_tail::<FrameView>(None) =~= iv);
                },
            }
            items
        },
    }
}

fn expand_frames(frames: Vec<Frame>, depth: usize) -> (r: Vec<Result<Frame, DanmukuError>>)
    ensures
        expanded_views(r@) == expand_all(frames_view(frames@), depth as nat),
    decreases depth, 1nat,
{
    let ghost whole = frames_view(frames@);
    let mut rest = frames;
    let mut out: Vec<Result<Frame, DanmukuError>> = Vec::new();
    assert(expanded_views(out@) + expand_all(whole, depth as nat) =~= expand_all(whole, depth as nat));
    while rest.len() > 0
        invariant
            whole == frames_view(frames@),
            expand_all(whole, depth as nat) == expanded_views(out@) + expand_all(
                frames_view(rest@),
                depth as nat,
            ),
        decreases rest@.len(),
    {
        let ghost rv = frames_view(rest@);
        let f = rest.remove(0);
        assert(frames_view(rest@) =~= rv.drop_first());
        assert(rv[0] == f@);
        let mut part = expand_to_depth(f, depth);
        let ghost ov = expanded_views(out@);
        let ghost pv = expanded_views(part@);
        out.append(&mut part);
        assert(expanded_views(out@) =~= ov + pv);
        assert(ov + (pv + expand_all(rv.drop_first(), depth as nat)) =~= expanded_views(out@)
            + expand_all(rv.drop_first(), depth as nat));
    }
    assert(frames_view(rest@) =~= Seq::<FrameView>::empty());
    assert(expanded_views(out@) + Seq::<Result<FrameView, DanmukuError>>::empty() =~= expanded_views(out@));
    out
}

/// What `frame` stands for: itself unless it is a compressed batch;
/// otherwise the frames read from its inflated body, expanded in turn down
/// to `MAX_NESTING` levels of batches, each reading followed by the error
/// that stopped it.
///
/// The errors are `DecompressionError` where a batch does not inflate, the
/// error of `decode_frames` where the frames of an inflated batch do not
/// fill it, and `NestingTooDeep` where batches nest deeper than `MAX_NESTING`.
pub fn expand(frame: Frame) -> (r: Vec<Result<Frame, DanmukuError>>)
    ensures
        expanded_views(r@) == expand_spec(frame@, MAX_NESTING as nat),
{
    expand_to_depth(frame, MAX_NESTING)
}

/// The bodies that expanded items yield: each frame that carries commands
/// its body, each other frame nothing, each error itself.
pub open spec fn command_bodies(rs: Seq<Result<FrameView, DanmukuError>>) -> Seq<
    Result<Seq<u8>, DanmukuError>,
>
    decreases rs.len(),
{
    if rs.len() == 0 {
        Seq::empty()
    } else {
        let head: Seq<Result<Seq<u8>, DanmukuError>> = match rs[0] {
            Ok(f) => if f.operation == OP_COMMAND {
                seq![Ok(f.body)]
            } else {
                Seq::empty()
            },
            Err(e) => seq![Err(e)],
        };
        head + command_bodies(rs.drop_first())
    }
}

/// What one frame of an inbound message yields: nothing unless it carries
/// commands; else the command bodies and errors of its expansion.
pub open spec fn frame_items(f: FrameView) -> Seq<Result<Seq<u8>, DanmukuError>> {
    if f.operation != OP_COMMAND {
        Seq::empty()
    } else {
        command_bodies(expand_spec(f, MAX_NESTING as nat))
    }
}

/// What the frames `fs` yield, one after another.
pub open spec fn frames_items(fs: Seq<FrameView>) -> Seq<Result<Seq<u8>, DanmukuError>>
    decreases fs.len(),
{
    if fs.len() == 0 {
        Seq::empty()
    } else {
        frame_items(fs[0]) + frames_items(fs.drop_first())
    }
}

/// What an inbound message yields: the items of the frames read from it,
/// followed by the error that stopped the reading, if one did.
pub open spec fn message_items(buf: Seq<u8>) -> Seq<Result<Seq<u8>, DanmukuError>> {
    frames_items(decode_prefix(buf).0) + error_tail(decode_prefix(buf).1)
}

/// The view of one item handed out for an inbound message.
pub open spec fn item_view(r: Result<Vec<u8>, DanmukuError>) -> Result<Seq<u8>, DanmukuError> {
    match r {
        Ok(b) => Ok(b@),
        Err(e) => Err(e),
    }
}

/// The views of the items handed out for an inbound message.
pub open spec fn items_view(v: Seq<Result<Vec<u8>, DanmukuError>>) -> Seq<Result<Seq<u8>, DanmukuError>> {
    v.map_values(|r: Result<Vec<u8>, DanmukuError>| item_view(r))
}

/// Appends the command bodies and errors of expanded items.
fn push_command_bodies(out: &mut Vec<Result<Vec<u8>, DanmukuError>>, items: Vec<Result<Frame, DanmukuError>>)
    ensures
        items_view(final(out)@) == items_view(old(out)@) + command_bodies(expanded_views(items@)),
{
    let ghost start = items_view(out@);
    let mut rest = items;
    assert(start + Seq::<Result<Seq<u8>, DanmukuError>>::empty() =~= start);
    while rest.len() > 0
        invariant
            start == items_view(old(out)@),
            start + command_bodies(expanded_views(items@)) == items_view(out@) + command_bodies(
                expanded_views(rest@),
            ),
        decreases rest@.len(),
    {
        let ghost rv = expanded_views(rest@);
        let ghost before = items_view(out@);
        let item = rest.remove(0);
        assert(expanded_views(rest@) =~= rv.drop_first());
        assert(rv[0] == expanded_view(item));
        match item {
            Ok(f) => {
                if f.operation == OP_COMMAND {
                    let ghost body = f.body@;
                    out.push(Ok(f.body));
                    assert(items_view(out@) =~= before + seq![Ok::<Seq<u8>, DanmukuError>(body)]);
                    assert(before + command_bodies(rv) =~= items_view(out@) + command_bodies(
                        rv.drop_first(),
                    ));
                } else {
                    assert(command_bodies(rv) =~= command_bodies(rv.drop_first()));
                }
            },
            Err(e) => {
                out.push(Err(e));
                assert(items_view(out@) =~= before + seq![Err::<Seq<u8>, DanmukuError>(e)]);
                assert(before + command_bodies(rv) =~= items_view(out@) + command_bodies(
                    rv.drop_first(),
                ));
            },
        }
    }
    assert(expanded_views(rest@) =~= Seq::<Result<FrameView, DanmukuError>>::empty());
    assert(items_view(out@) + Seq::<Result<Seq<u8>, DanmukuError>>::empty() =~= items_view(out@));
}

/// Reads the frames of an inbound message and hands out the body of every
/// command it carries, in order, compressed batches expanded.
///
/// Frames with another operation code yield nothing. Where the reading of
/// the message, or of a batch, stops at a broken header, the frames read
/// before it are still handed out, followed by the error. A batch that does
/// not inflate yields its one error, and the frames after it are still read.
pub fn parse_pkg(data: Vec<u8>) -> (r: Vec<Result<Vec<u8>, DanmukuError>>)
    ensures
        items_view(r@) == message_items(data@),
{
    let mut out: Vec<Result<Vec<u8>, DanmukuError>> = Vec::new();
    let (frames, err) = decode_frames(data.as_slice());
    let ghost whole = frames_view(frames@);
    let mut rest = frames;
    assert(items_view(out@) + frames_items(whole) =~= frames_items(whole));
    while rest.len() > 0
        invariant
            frames_items(whole) == items_view(out@) + frames_items(frames_view(rest@)),
        decreases rest@.len(),
    {
        let ghost rv = frames_view(rest@);
        let ghost before = items_view(out@);
        let f = rest.remove(0);
        assert(frames_view(rest@) =~= rv.drop_first());
        assert(rv[0] == f@);
        if f.operation == OP_COMMAND {
            push_command_bodies(&mut out, expand(f));
        }
        assert(frames_items(rv) == frame_items(rv[0]) + frames_items(rv.drop_first()));
        assert(before + frames_items(rv) =~= items_view(out@) + frames_items(rv.drop_first()));
    }
    assert(frames_view(rest@) =~= Seq::<FrameView>::empty());
    let ghost got = items_view(out@);
    match err {
        Some(e) => {
            out.push(Err(e));
            assert(items_view(out@) =~= got + seq![Err::<Seq<u8>, DanmukuError>(e)]);
        },
        None => {
            assert(got + error_tail::<Seq<u8>>(None) =~= got);
        },
    }
    assert(got =~= frames_items(whole));
    out
}

proof fn lemma_expand_all_plain(fs: Seq<FrameView>, depth: nat)
    requires
        forall|i: int| 0 <= i < fs.len() ==> (#[trigger] fs[i]).compression != COMPRESSION_ZLIB,
    ensures
        expand_all(fs, depth) == all_ok(fs),
    decreases fs.len(),
{
    if fs.len() > 0 {
        let tail = fs.drop_first();
        assert forall|i: int| 0 <= i < tail.len() implies (#[trigger] tail[i]).compression
            != COMPRESSION_ZLIB by {
            assert(tail[i] == fs[i + 1]);
        }
        lemma_expand_all_plain(tail, depth);
        assert(fs[0].compression != COMPRESSION_ZLIB);
        assert(expand_spec(fs[0], depth) == seq![Ok::<FrameView, DanmukuError>(fs[0])]);
        assert(all_ok(fs) =~= seq![Ok::<FrameView, DanmukuError>(fs[0])] + all_ok(tail));
    } else {
        assert(all_ok(fs) =~= Seq::<Result<FrameView, DanmukuError>>::empty());
    }
}

/// A frame that is not a compressed batch expands to itself alone.
pub proof fn lemma_expand_plain(f: FrameView)
    requires
        f.compression != COMPRESSION_ZLIB,
    ensures
        expand_spec(f, MAX_NESTING as nat) == seq![Ok::<FrameView, DanmukuError>(f)],
{
}

/// A compressed batch whose body inflates to the encoded frames of `items`
/// expands to exactly those frames, in order, with no error.
pub proof fn lemma_expand_batch(f: FrameView, items: Seq<(Seq<u8>, i32)>)
    requires
        f.compression == COMPRESSION_ZLIB,
        zlib_inflated(f.body) == Some(concat_encoded(items)),
        forall|i: int| 0 <= i < items.len() ==> (#[trigger] items[i]).0.len() <= MAX_BODY_LEN,
    ensures
        expand_spec(f, MAX_NESTING as nat) == all_ok(encoded_views(items)),
{
    lemma_decode_concatenation(items);
    let fs = encoded_views(items);
    assert forall|i: int| 0 <= i < fs.len() implies (#[trigger] fs[i]).compression
        != COMPRESSION_ZLIB by {
        assert(fs[i] == encoded_view(items[i].0, items[i].1));
    }
    lemma_expand_all_plain(fs, (MAX_NESTING - 1) as nat);
    assert(all_ok(fs) + error_tail::<FrameView>(None) =~= all_ok(fs));
}

proof fn lemma_plain_frames_items(fs: Seq<FrameView>)
    requires
        forall|i: int| 0 <= i < fs.len() ==> (#[trigger] fs[i]).compression != COMPRESSION_ZLIB,
    ensures
        frames_items(fs) == command_bodies(all_ok(fs)),
    decreases fs.len(),
{
    if fs.len() > 0 {
        let tail = fs.drop_first();
        assert forall|i: int| 0 <= i < tail.len() implies (#[trigger] tail[i]).compression
            != COMPRESSION_ZLIB by {
            assert(tail[i] == fs[i + 1]);
        }
        lemma_plain_frames_items(tail);
        assert(fs[0].compression != COMPRESSION_ZLIB);
        let one = seq![Ok::<FrameView, DanmukuError>(fs[0])];
        assert(one.drop_first() =~= Seq::<Result<FrameView, DanmukuError>>::empty());
        assert(command_bodies(one.drop_first()) =~= Seq::<Result<Seq<u8>, DanmukuError>>::empty());
        assert(all_ok(fs).drop_first() =~= all_ok(tail));
        assert(all_ok(fs)[0] == Ok::<FrameView, DanmukuError>(fs[0]));
        if fs[0].operation == OP_COMMAND {
            assert(expand_spec(fs[0], MAX_NESTING as nat) == one);
            assert(frame_items(fs[0]) == command_bodies(one));
            assert(command_bodies(one) =~= seq![Ok::<Seq<u8>, DanmukuError>(fs[0].body)]);
        }
    } else {
        assert(all_ok(fs) =~= Seq::<Result<FrameView, DanmukuError>>::empty());
    }
}

/// Every command frame of a message is handed on by itself: in a message
/// made of encoded frames, each frame that carries commands yields its own
/// body, whatever that body holds, in order; the other frames yield nothing.
/// A body that is not valid JSON therefore never hides the frames after it.
pub proof fn lemma_message_command_bodies(items: Seq<(Seq<u8>, i32)>)
    requires
        forall|i: int| 0 <= i < items.len() ==> (#[trigger] items[i]).0.len() <= MAX_BODY_LEN,
    ensures
        message_items(concat_encoded(items)) == command_bodies(all_ok(encoded_views(items))),
{
    lemma_decode_concatenation(items);
    let fs = encoded_views(items);
    assert forall|i: int| 0 <= i < fs.len() implies (#[trigger] fs[i]).compression
        != COMPRESSION_ZLIB by {
        assert(fs[i] == encoded_view(items[i].0, items[i].1));
    }
    lemma_plain_frames_items(fs);
    assert(frames_items(fs) + error_tail::<Seq<u8>>(None) =~= frames_items(fs));
}

} // verus!
