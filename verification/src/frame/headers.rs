//! HEADERS frames of the first frame layer.

use vstd::prelude::*;
use crate::fields::TextFields;
use crate::frame::HEADERS;
use crate::frame::head::{Head, msb_flag};

verus! {

/// How many payload bytes come before the header block: one when flag 3 is
/// set and five when flag 5 is, flags counted from the most significant bit.
pub open spec fn block_start(flags: u8) -> nat {
    (if msb_flag(flags, 3) { 1nat } else { 0nat }) + (if msb_flag(flags, 5) { 5nat } else { 0nat })
}

/// A HEADERS frame: its head and its string-keyed fields.
#[derive(Debug)]
pub struct Headers {
    head: Head,
    inner: TextFields,
}

impl Headers {
    /// The head of this frame.
    pub closed spec fn head_of(&self) -> Head {
        self.head
    }

    /// The fields of this frame.
    pub closed spec fn fields_of(&self) -> Map<Seq<char>, Seq<char>> {
        self.inner@
    }

    /// Reads a HEADERS frame. Its header block, after the skipped bytes, is
    /// read by `crate::proto::util::parse_header_block_fragment`, which gives
    /// no fields.
    pub fn from(head: Head, buf: Vec<u8>) -> (r: Headers)
        requires
            block_start(head.flags) <= buf@.len(),
        ensures
            r.head_of() == head,
            r.fields_of() == Map::<Seq<char>, Seq<char>>::empty(),
    {
        let mut cursor: usize = 0;
        if head.has_flag(3) {
            cursor += 1;
        }
        if head.has_flag(5) {
            cursor += 5;
        }
        let block = vstd::slice::slice_subrange(buf.as_slice(), cursor, buf.len());
        let inner = crate::proto::util::parse_header_block_fragment(block);
        Headers { head: head, inner: inner }
    }

    /// Sets a field.
    pub fn insert(&mut self, name: String, value: String)
        ensures
            final(self).head_of() == old(self).head_of(),
            final(self).fields_of() == old(self).fields_of().insert(name@, value@),
    {
        self.inner.insert(name, value);
    }

    /// An empty HEADERS frame on stream `stream_id`.
    pub fn new(stream_id: u32) -> (r: Headers)
        ensures
            r.head_of() == (Head { length: 0, kind: HEADERS, flags: 0, stream_id: stream_id }),
            r.fields_of() == Map::<Seq<char>, Seq<char>>::empty(),
    {
        let data = TextFields::new();
        Headers {
            head: Head { length: 0, kind: HEADERS, flags: 0, stream_id: stream_id },
            inner: data,
        }
    }
}

} // verus!
