//! WINDOW_UPDATE frames.

use vstd::prelude::*;
use crate::bits::{fits_bit_reader, be32, read_u32_at, lemma_low31_bits};
use crate::proto::frame::head::Head;

verus! {

/// A WINDOW_UPDATE frame: its head and the window size increment.
#[derive(Debug)]
pub struct WindowUpdate {
    head: Head,
    window_size_increment: u32,
}

impl WindowUpdate {
    /// The head of this frame.
    pub closed spec fn head_of(&self) -> Head {
        self.head
    }

    /// The window size increment.
    pub closed spec fn increment_of(&self) -> u32 {
        self.window_size_increment
    }

    /// Reads a WINDOW_UPDATE frame, or `None` where the payload is shorter than
    /// four bytes.
    pub fn try_from(head: Head, buf: Vec<u8>) -> (r: Option<WindowUpdate>)
        requires
            fits_bit_reader(buf@),
        ensures
            r is Some <==> buf@.len() >= 4,
            r matches Some(w) ==> w.head_of() == head && w.increment_of() == be32(
                buf@[0],
                buf@[1],
                buf@[2],
                buf@[3],
            ) % 0x8000_0000,
    {
        if buf.len() < 4 {
            None
        } else {
            Some(WindowUpdate::from(head, buf))
        }
    }

    /// Reads a WINDOW_UPDATE frame: the reserved bit is skipped, then come the
    /// 31 bits of the increment.
    pub fn from(head: Head, buf: Vec<u8>) -> (r: WindowUpdate)
        requires
            fits_bit_reader(buf@),
            buf@.len() >= 4,
        ensures
            r.head_of() == head,
            r.increment_of() == be32(buf@[0], buf@[1], buf@[2], buf@[3]) % 0x8000_0000,
    {
        let window_size_increment = read_u32_at(buf.as_slice(), 1, 31).unwrap();
        proof {
            lemma_low31_bits(buf@, 0);
        }
        WindowUpdate { head: head, window_size_increment: window_size_increment }
    }
}

} // verus!
