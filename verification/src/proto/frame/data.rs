//! DATA frames.

use vstd::prelude::*;
use crate::bits::{fits_bit_reader, read_u32_at, lemma_byte_bits};
use crate::proto::frame::head::{Head, head_bytes, flag_bit};

verus! {

/// Whether a DATA frame with head `head` and payload `buf` can be read: when
/// flag 3 (PADDED) is set, the first byte is the pad length, and the data runs
/// from the second byte to `head.length` minus the pad length, which must stay
/// inside the payload and leave the range not reversed.
pub open spec fn data_readable(head: Head, buf: Seq<u8>) -> bool {
    flag_bit(head.flags, 3) ==> {
        &&& buf.len() >= 1
        &&& buf[0] as int + 1 <= head.length as int
        &&& head.length - buf[0] <= buf.len()
    }
}

/// The data of a readable DATA frame: the bytes between the pad length and the
/// padding when flag 3 (PADDED) is set, and the whole payload otherwise.
pub open spec fn data_payload(head: Head, buf: Seq<u8>) -> Seq<u8> {
    if flag_bit(head.flags, 3) {
        buf.subrange(1, head.length - buf[0])
    } else {
        buf
    }
}

/// A DATA frame: its head and its data.
#[derive(Debug)]
pub struct Data {
    head: Head,
    inner: Vec<u8>,
}

impl Data {
    /// The head of this frame.
    pub closed spec fn head_of(&self) -> Head {
        self.head
    }

    /// The data of this frame.
    pub closed spec fn payload_of(&self) -> Seq<u8> {
        self.inner@
    }

    /// Reads a DATA frame, or `None` where its payload cannot be read.
    pub fn try_from(head: Head, buf: Vec<u8>) -> (r: Option<Data>)
        requires
            fits_bit_reader(buf@),
        ensures
            r is Some <==> data_readable(head, buf@),
            r matches Some(d) ==> d.head_of() == head && d.payload_of() == data_payload(
                head,
                buf@,
            ),
    {
        if head.has_flag(3) {
            if buf.len() < 1 {
                return None;
            }
            let pad = buf[0] as u32;
            if pad + 1 > head.length {
                return None;
            }
            if (head.length - pad) as usize > buf.len() {
                return None;
            }
        }
        Some(Data::from(head, buf))
    }

    /// Reads a DATA frame from its head and payload.
    pub fn from(head: Head, buf: Vec<u8>) -> (r: Data)
        requires
            fits_bit_reader(buf@),
            data_readable(head, buf@),
        ensures
            r.head_of() == head,
            r.payload_of() == data_payload(head, buf@),
    {
        let data = if head.has_flag(3) {
            let buffer = read_u32_at(buf.as_slice(), 0, 8).unwrap();
            proof {
                lemma_byte_bits(buf@, 0);
            }
            let to = (head.length - buffer) as usize;
            vstd::slice::slice_to_vec(vstd::slice::slice_subrange(buf.as_slice(), 1, to))
        } else {
            buf
        };
        Data { head: head, inner: data }
    }

    /// A DATA frame with `data` on stream `stream_id`.
    pub fn new(stream_id: u32, data: Vec<u8>) -> (r: Data)
        ensures
            r.head_of() == (Head { length: 0, kind: 0, flags: 0, stream_id: stream_id }),
            r.payload_of() == data@,
    {
        Data { head: Head { length: 0, kind: 0, flags: 0, stream_id: stream_id }, inner: data }
    }

    /// The wire form of this frame: the length set to the data's, flag 0
    /// (END_STREAM) added, the head followed by the data. The data moves into
    /// the result, so the frame is left without data.
    pub fn as_bytes(&mut self) -> (r: Vec<u8>)
        requires
            old(self).head_of().flags + 1 <= 255,
        ensures
            final(self).head_of() == (Head {
                length: old(self).payload_of().len() as u32,
                flags: (old(self).head_of().flags + 1) as u8,
                ..old(self).head_of()
            }),
            final(self).payload_of() == Seq::<u8>::empty(),
            r@ == head_bytes(final(self).head_of()) + old(self).payload_of(),
    {
        self.head.set_length(self.inner.len() as u32);
        assert(1u8 << 0u8 == 1) by (bit_vector);
        self.head.set_flag(0);
        let mut head = self.head.as_bytes();
        head.append(&mut self.inner);
        head
    }

    /// A copy of the data.
    pub fn get_payload(&self) -> (r: Vec<u8>)
        ensures
            r@ == self.payload_of(),
    {
        crate::fields::copy_bytes(&self.inner)
    }

    /// Whether flag 0 (END_STREAM) is set.
    pub fn is_end_stream(&self) -> (r: bool)
        ensures
            r == flag_bit(self.head_of().flags, 0),
    {
        self.head.has_flag(0)
    }
}

} // verus!
