//! Reading every frame of a buffer.

use vstd::prelude::*;
use vstd::slice::{slice_subrange, slice_to_vec};
use crate::proto::frame::{Frame, frame_readable, frame_len, frame_read_from};
use crate::proto::frame::head::{Head, head_from_bytes};

verus! {

/// Whether `buf` is a run of frames that can all be read.
pub open spec fn frames_readable(buf: Seq<u8>) -> bool
    decreases buf.len(),
{
    if buf.len() == 0 {
        true
    } else if !frame_readable(buf) {
        false
    } else {
        frames_readable(buf.subrange(frame_len(buf) as int, buf.len() as int))
    }
}

/// The frames of `buf`, each as the bytes from its start to the end of `buf`,
/// up to the first frame that cannot be read.
pub open spec fn frame_starts(buf: Seq<u8>) -> Seq<Seq<u8>>
    decreases buf.len(),
{
    if buf.len() == 0 || !frame_readable(buf) {
        Seq::empty()
    } else {
        seq![buf] + frame_starts(buf.subrange(frame_len(buf) as int, buf.len() as int))
    }
}

/// Whether the frames `frames` are those read from `buf`.
pub open spec fn frames_read_from(frames: Seq<Frame>, buf: Seq<u8>) -> bool {
    let starts = frame_starts(buf);
    &&& frames.len() == starts.len()
    &&& forall|i: int| 0 <= i < frames.len() ==> frame_read_from(#[trigger] frames[i], starts[i])
}

/// Whether every frame of `buf` can be read.
pub fn is_readable(buf: &[u8]) -> (r: bool)
    ensures
        r == frames_readable(buf@),
{
    let mut pointer: usize = 0;
    assert(buf@.subrange(0, buf@.len() as int) =~= buf@);
    while pointer < buf.len()
        invariant
            pointer <= buf.len(),
            frames_readable(buf@) == frames_readable(buf@.subrange(pointer as int, buf@.len() as int)),
        decreases buf.len() - pointer,
    {
        let rest = slice_subrange(buf, pointer, buf.len());
        if !Frame::is_readable(rest) {
            return false;
        }
        let head = Head::from(slice_to_vec(rest));
        assert(head == head_from_bytes(rest@));
        let ghost old_pointer = pointer;
        pointer = pointer + 9 + head.length as usize;
        assert(rest@.subrange(frame_len(rest@) as int, rest@.len() as int) =~= buf@.subrange(
            pointer as int,
            buf@.len() as int,
        ));
    }
    assert(buf@.subrange(pointer as int, buf@.len() as int).len() == 0);
    true
}

/// Reads every frame of `buf`, or `None` where one cannot be read.
pub fn try_parse_frames_from_buffer(buf: &[u8]) -> (r: Option<Vec<Frame>>)
    ensures
        r is Some <==> frames_readable(buf@),
        r matches Some(v) ==> frames_read_from(v@, buf@),
{
    if is_readable(buf) {
        Some(parse_frames_from_buffer(buf))
    } else {
        None
    }
}

/// Reads every frame of `buf`, one after another.
pub fn parse_frames_from_buffer(buf: &[u8]) -> (r: Vec<Frame>)
    requires
        frames_readable(buf@),
    ensures
        frames_read_from(r@, buf@),
{
    let mut pointer: usize = 0;
    let mut frames: Vec<Frame> = Vec::new();
    let ghost mut done: Seq<Seq<u8>> = Seq::empty();
    assert(buf@.subrange(0, buf@.len() as int) =~= buf@);
    assert(done + frame_starts(buf@) =~= frame_starts(buf@));
    while pointer < buf.len()
        invariant
            pointer <= buf.len(),
            frames_readable(buf@.subrange(pointer as int, buf@.len() as int)),
            done + frame_starts(buf@.subrange(pointer as int, buf@.len() as int)) == frame_starts(
                buf@,
            ),
            frames@.len() == done.len(),
            forall|i: int| 0 <= i < frames@.len() ==> frame_read_from(#[trigger] frames@[i], done[i]),
        decreases buf.len() - pointer,
    {
        let b = slice_subrange(buf, pointer, buf.len());
        let (frame, length, _stream_id) = Frame::parse(b);
        frames.push(frame);
        let ghost next = b@.subrange(frame_len(b@) as int, b@.len() as int);
        proof {
            assert(frame_starts(b@) == seq![b@] + frame_starts(next));
            done = done.push(b@);
        }
        pointer = pointer + length;
        assert(next =~= buf@.subrange(pointer as int, buf@.len() as int));
        assert(done + frame_starts(next) =~= frame_starts(buf@));
    }
    assert(buf@.subrange(pointer as int, buf@.len() as int).len() == 0);
    assert(done =~= frame_starts(buf@));
    frames
}

} // verus!

verus! {

/// What each frame of `buf` holds, in order.
pub open spec fn frame_models(buf: Seq<u8>) -> Seq<crate::proto::frame::FrameModel> {
    frame_starts(buf).map_values(|s: Seq<u8>| crate::proto::frame::frame_model(s))
}

/// A readable frame reads the same whatever bytes follow it.
pub proof fn lemma_frame_extend(s: Seq<u8>, b: Seq<u8>)
    requires
        frame_readable(s),
    ensures
        frame_readable(s + b),
        head_from_bytes(s + b) == head_from_bytes(s),
        frame_len(s + b) == frame_len(s),
        crate::proto::frame::frame_payload(s + b) == crate::proto::frame::frame_payload(s),
        crate::proto::frame::frame_model(s + b) == crate::proto::frame::frame_model(s),
        (s + b).subrange(frame_len(s) as int, (s + b).len() as int) == s.subrange(
            frame_len(s) as int,
            s.len() as int,
        ) + b,
{
    let t = s + b;
    assert(head_from_bytes(t) == head_from_bytes(s));
    assert(crate::proto::frame::frame_payload(t) =~= crate::proto::frame::frame_payload(s));
    assert(t.subrange(frame_len(s) as int, t.len() as int) =~= s.subrange(
        frame_len(s) as int,
        s.len() as int,
    ) + b);
}

/// Frames read from two buffers one after the other are the frames of the
/// first, then those of the second, when the first is a run of readable
/// frames; and the two together are readable exactly when the second is.
pub proof fn lemma_frames_concat(a: Seq<u8>, b: Seq<u8>)
    requires
        frames_readable(a),
    ensures
        frames_readable(a + b) == frames_readable(b),
        frame_models(a + b) == frame_models(a) + frame_models(b),
    decreases a.len(),
{
    if a.len() == 0 {
        assert(a + b =~= b);
        assert(frame_models(a) =~= Seq::<crate::proto::frame::FrameModel>::empty());
        assert(frame_models(a + b) =~= frame_models(a) + frame_models(b));
    } else {
        lemma_frame_extend(a, b);
        let rest = a.subrange(frame_len(a) as int, a.len() as int);
        lemma_frames_concat(rest, b);
        assert((a + b).len() > 0);
        assert(frame_starts(a + b) == seq![a + b] + frame_starts(rest + b));
        assert(frame_starts(a) == seq![a] + frame_starts(rest));
        let fa = crate::proto::frame::frame_model(a);
        assert(frame_models(a + b) =~= seq![fa] + frame_models(rest + b));
        assert(frame_models(a) =~= seq![fa] + frame_models(rest));
        assert(frame_models(a + b) =~= frame_models(a) + frame_models(b));
    }
}

} // verus!
