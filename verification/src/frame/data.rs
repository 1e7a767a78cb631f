//! DATA frames of the first frame layer.

use vstd::prelude::*;
use crate::bits::{fits_bit_reader, read_u32_at, lemma_byte_bits};
use crate::frame::head::{Head, msb_flag};

verus! {

/// Whether a DATA frame with head `head` and payload `buf` can be read: when
/// flag 3 (counted from the most significant bit) is set, the pad length is
/// read from the first byte and the range from the second byte to
/// `head.length` minus the pad length must lie inside the payload.
pub open spec fn data_readable(head: Head, buf: Seq<u8>) -> bool {
    msb_flag(head.flags, 3) ==> {
        &&& buf.len() >= 1
        &&& buf[0] as int + 1 <= head.length as int
        &&& head.length - buf[0] <= buf.len()
    }
}

/// The data of a readable DATA frame: the bytes between the pad length and the
/// padding when flag 3 is set, and the whole payload otherwise.
pub open spec fn data_of(head: Head, buf: Seq<u8>) -> Seq<u8> {
    if msb_flag(head.flags, 3) {
        buf.subrange(1, head.length - buf[0])
    } else {
        buf
    }
}

/// A DATA frame: its head and its data.
#[derive(Debug)]
pub struct Data {
    head: Head,
    inner: Vec<u8>,
}

impl Data {
    /// The head of this frame.
    pub closed spec fn head_of(&self) -> Head {
        self.head
    }

    /// The data of this frame.
    pub closed spec fn payload_of(&self) -> Seq<u8> {
        self.inner@
    }

    /// Reads a DATA frame: the padded data when flag 3 is set, the whole
    /// payload otherwise.
    pub fn from(head: Head, buf: Vec<u8>) -> (r: Data)
        requires
            data_readable(head, buf@),
            fits_bit_reader(buf@),
        ensures
            r.head_of() == head,
            r.payload_of() == data_of(head, buf@),
    {
        let data = if head.has_flag(3) {
            let buffer = read_u32_at(buf.as_slice(), 0, 8).unwrap();
            proof {
                lemma_byte_bits(buf@, 0);
            }
            let to = (head.length - buffer) as usize;
            vstd::slice::slice_to_vec(vstd::slice::slice_subrange(buf.as_slice(), 1, to))
        } else {
            buf
        };
        Data { head: head, inner: data }
    }

    /// The sample DATA frame: thirteen bytes on stream 7.
    pub fn new() -> (r: Data)
        ensures
            r.head_of() == (Head { length: 0, kind: 0, flags: 0, stream_id: 7 }),
            r.payload_of() == seq![24u8, 23, 23, 23, 23, 26, 45, 45, 23, 12, 11, 12, 23],
    {
        let r = Data {
            head: Head { length: 0, kind: 0, flags: 0, stream_id: 7 },
            inner: vec![24, 23, 23, 23, 23, 26, 45, 45, 23, 12, 11, 12, 23],
        };
        assert(r.inner@ =~= seq![24u8, 23, 23, 23, 23, 26, 45, 45, 23, 12, 11, 12, 23]);
        r
    }
}

} // verus!
