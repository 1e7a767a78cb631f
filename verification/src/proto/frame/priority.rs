//! PRIORITY frames.

use vstd::prelude::*;
use crate::bits::{fits_bit_reader, be32, read_u32_at, read_u8_at, lemma_byte_bits, lemma_low31_bits};
use crate::proto::frame::head::Head;

verus! {

/// A PRIORITY frame: its head, the stream it depends on and its weight.
#[derive(Debug)]
pub struct Priority {
    head: Head,
    stream_dependency: u32,
    weigth: u8,
}

impl Priority {
    /// The head of this frame.
    pub closed spec fn head_of(&self) -> Head {
        self.head
    }

    /// The stream this one depends on.
    pub closed spec fn dependency_of(&self) -> u32 {
        self.stream_dependency
    }

    /// The weight of the stream.
    pub closed spec fn weight_of(&self) -> u8 {
        self.weigth
    }

    /// Reads a PRIORITY frame, or `None` where the payload is shorter than five bytes.
    pub fn try_from(head: Head, buf: Vec<u8>) -> (r: Option<Priority>)
        requires
            fits_bit_reader(buf@),
        ensures
            r is Some <==> buf@.len() >= 5,
            r matches Some(p) ==> p.head_of() == head && p.dependency_of() == be32(
                buf@[0],
                buf@[1],
                buf@[2],
                buf@[3],
            ) % 0x8000_0000 && p.weight_of() == buf@[4],
    {
        if buf.len() < 5 {
            None
        } else {
            Some(Priority::from(head, buf))
        }
    }

    /// Reads a PRIORITY frame: the exclusive bit is skipped, then come the 31
    /// bits of the stream dependency and the 8 bits of the weight.
    pub fn from(head: Head, buf: Vec<u8>) -> (r: Priority)
        requires
            fits_bit_reader(buf@),
            buf@.len() >= 5,
        ensures
            r.head_of() == head,
            r.dependency_of() == be32(buf@[0], buf@[1], buf@[2], buf@[3]) % 0x8000_0000,
            r.weight_of() == buf@[4],
    {
        let stream_dependency = read_u32_at(buf.as_slice(), 1, 31).unwrap();
        let weigth = read_u8_at(buf.as_slice(), 32, 8).unwrap();
        proof {
            lemma_low31_bits(buf@, 0);
            lemma_byte_bits(buf@, 4);
        }
        Priority { head: head, stream_dependency: stream_dependency, weigth: weigth }
    }
}

} // verus!
