//! The answer to a call.

use vstd::prelude::*;
use crate::proto::frame::{DATA, HEADERS};
use crate::proto::frame::head::{Head, head_bytes, head_from_bytes, lemma_head_roundtrip};
use crate::proto::frame::headers::Headers;
use crate::proto::frame::data::Data;

verus! {

/// A message answering a call: its status.
#[derive(Debug)]
pub struct Message {
    pub status: u32,
}

/// The bytes written for a message with status `status` on stream `stream_id`:
/// for status 200 a HEADERS frame with the `:status: 200` block and
/// END_HEADERS, then an empty DATA frame with END_STREAM; nothing otherwise.
pub open spec fn response_bytes(status: u32, stream_id: u32) -> Seq<u8> {
    if status == 200 {
        head_bytes(Head { length: 1, kind: HEADERS, flags: 4, stream_id: stream_id }) + seq![0x88u8]
            + head_bytes(Head { length: 0, kind: DATA, flags: 1, stream_id: stream_id })
    } else {
        Seq::empty()
    }
}

impl Message {
    /// The bytes that answer a call on stream `stream_id`; stream 0 is
    /// answered on stream 1, and `stream_id` is set to the stream used.
    pub fn response(&self, stream_id: &mut u32) -> (r: Vec<u8>)
        ensures
            *final(stream_id) == (if *old(stream_id) == 0 { 1 } else { *old(stream_id) }),
            r@ == response_bytes(self.status, *final(stream_id)),
    {
        if *stream_id == 0 {
            *stream_id += 1;
        }
        let mut out: Vec<u8> = Vec::new();
        if self.status == 200 {
            let mut headers = Headers::new(*stream_id);
            let mut h = headers.as_bytes();
            out.append(&mut h);
            let mut d = Data::new(*stream_id, Vec::new());
            let mut b = d.as_bytes();
            out.append(&mut b);
            assert(out@ =~= response_bytes(self.status, *stream_id));
        } else {
            assert(out@ =~= response_bytes(self.status, *stream_id));
        }
        out
    }

    /// The message for a path without a handler: status 404.
    pub fn not_found() -> (r: Message)
        ensures
            r.status == 404,
    {
        Message { status: 404 }
    }
}

/// Every frame of an answer with status 200 is written on the answered
/// stream: the bytes are a HEADERS frame with END_HEADERS (flag 2) and the
/// one-byte block `0x88` (`:status: 200`), then an empty DATA frame with
/// END_STREAM (flag 0), and both heads read back with `stream_id`.
pub proof fn lemma_response_on_stream(stream_id: u32)
    requires
        stream_id < 0x8000_0000,
    ensures
        response_bytes(200, stream_id).len() == 19,
        head_from_bytes(response_bytes(200, stream_id)) == (Head {
            length: 1,
            kind: HEADERS,
            flags: 4,
            stream_id: stream_id,
        }),
        response_bytes(200, stream_id)[9] == 0x88,
        head_from_bytes(response_bytes(200, stream_id).subrange(10, 19)) == (Head {
            length: 0,
            kind: DATA,
            flags: 1,
            stream_id: stream_id,
        }),
{
    let h = Head { length: 1, kind: HEADERS, flags: 4, stream_id: stream_id };
    let d = Head { length: 0, kind: DATA, flags: 1, stream_id: stream_id };
    let r = response_bytes(200, stream_id);
    lemma_head_roundtrip(h);
    lemma_head_roundtrip(d);
    assert(r.subrange(0, 9) =~= head_bytes(h));
    assert(r.subrange(10, 19) =~= head_bytes(d));
    assert(head_from_bytes(r) == head_from_bytes(head_bytes(h)));
}

} // verus!
