//! The nine-byte head that starts every HTTP/2 frame.

use vstd::prelude::*;
use vstd::std_specs::convert::FromSpecImpl;
use crate::bits::{be24, be32, read_u32_at, read_u8_at, lemma_be24_bits, lemma_byte_bits, lemma_low31_bits};
use vstd::slice::{slice_subrange, slice_to_vec};

verus! {

/// A frame head: payload length, frame type, flags and stream identifier.
#[derive(Debug)]
pub struct Head {
    pub length: u32,
    pub kind: u8,
    pub flags: u8,
    pub stream_id: u32,
}

/// Whether bit `index` (bit 0 the least significant) of `flags` is set.
pub open spec fn flag_bit(flags: u8, index: u8) -> bool {
    (flags >> index) & 1 == 1
}

/// The wire form of a head: the low 24 bits of the length, the type, the
/// flags and the stream identifier, all big-endian.
pub open spec fn head_bytes(h: Head) -> Seq<u8> {
    seq![
        (h.length >> 16u32) as u8,
        (h.length >> 8u32) as u8,
        h.length as u8,
        h.kind,
        h.flags,
        (h.stream_id >> 24u32) as u8,
        (h.stream_id >> 16u32) as u8,
        (h.stream_id >> 8u32) as u8,
        h.stream_id as u8,
    ]
}

/// The head read from the first nine bytes of `buf`: a 24-bit length, the
/// type, the flags and, past the reserved bit, the 31-bit stream identifier.
/// Fewer than nine bytes give the all-zero head.
pub open spec fn head_from_bytes(buf: Seq<u8>) -> Head {
    if buf.len() >= 9 {
        Head {
            length: be24(buf[0], buf[1], buf[2]) as u32,
            kind: buf[3],
            flags: buf[4],
            stream_id: (be32(buf[5], buf[6], buf[7], buf[8]) % 0x8000_0000) as u32,
        }
    } else {
        Head { length: 0, kind: 0, flags: 0, stream_id: 0 }
    }
}

impl Head {
    /// The nine bytes of this head.
    pub fn as_bytes(&self) -> (r: Vec<u8>)
        ensures
            r@ == head_bytes(*self),
    {
        let v = vec![
            ((self.length >> 16) & 0x000000FF) as u8,
            ((self.length >> 8) & 0x000000FF) as u8,
            ((self.length) & 0x000000FF) as u8,
            self.kind,
            self.flags,
            ((self.stream_id >> 24) & 0x000000FF) as u8,
            ((self.stream_id >> 16) & 0x000000FF) as u8,
            ((self.stream_id >> 8) & 0x000000FF) as u8,
            ((self.stream_id) & 0x000000FF) as u8,
        ];
        let l = self.length;
        let s = self.stream_id;
        assert(((l >> 16u32) & 0xFF) as u8 == (l >> 16u32) as u8) by (bit_vector);
        assert(((l >> 8u32) & 0xFF) as u8 == (l >> 8u32) as u8) by (bit_vector);
        assert((l & 0xFF) as u8 == l as u8) by (bit_vector);
        assert(((s >> 24u32) & 0xFF) as u8 == (s >> 24u32) as u8) by (bit_vector);
        assert(((s >> 16u32) & 0xFF) as u8 == (s >> 16u32) as u8) by (bit_vector);
        assert(((s >> 8u32) & 0xFF) as u8 == (s >> 8u32) as u8) by (bit_vector);
        assert((s & 0xFF) as u8 == s as u8) by (bit_vector);
        assert(v@ =~= head_bytes(*self));
        v
    }

    /// A copy of this head.
    pub fn clone(&self) -> (r: Head)
        ensures
            r == *self,
    {
        Head { length: self.length, kind: self.kind, flags: self.flags, stream_id: self.stream_id }
    }

    /// Whether flag bit `index` is set; indices from 8 on are never set.
    pub fn has_flag(&self, index: u8) -> (r: bool)
        ensures
            r == (index < 8 && flag_bit(self.flags, index)),
    {
        if index < 8 {
            let filter: u8 = 1u8 << index;
            let f = self.flags;
            assert(index < 8 ==> ((filter & f != 0) == ((f >> index) & 1 == 1))) by (bit_vector)
                requires
                    filter == 1u8 << index,
            ;
            (filter & self.flags) != 0
        } else {
            false
        }
    }

    /// Adds `1 << index` to the flags.
    pub fn set_flag(&mut self, index: u8)
        requires
            index < 8,
            old(self).flags + (1u8 << index) <= 255,
        ensures
            final(self).flags == old(self).flags + (1u8 << index),
            final(self).length == old(self).length,
            final(self).kind == old(self).kind,
            final(self).stream_id == old(self).stream_id,
    {
        self.flags = self.flags + (1u8 << index);
    }

    /// Replaces the payload length.
    pub fn set_length(&mut self, length: u32)
        ensures
            *final(self) == (Head { length: length, ..*old(self) }),
    {
        self.length = length;
    }
}

/// Reading back the bytes of a head whose length fits in 24 bits gives its
/// length, type and flags, and its stream identifier without the reserved bit.
pub proof fn lemma_head_read_back(h: Head)
    requires
        h.length < 0x100_0000,
    ensures
        head_from_bytes(head_bytes(h)) == (Head { stream_id: h.stream_id % 0x8000_0000, ..h }),
{
    let b = head_bytes(h);
    let l = h.length;
    let s = h.stream_id;
    assert(be24(b[0], b[1], b[2]) == l) by {
        assert(l < 0x100_0000 ==> ((l >> 16u32) as u8) as u32 * 65536 + ((l >> 8u32) as u8) as u32
            * 256 + (l as u8) as u32 == l) by (bit_vector);
    }
    assert(be32(b[5], b[6], b[7], b[8]) == s) by {
        assert(((s >> 24u32) as u8) as u64 * 16777216 + ((s >> 16u32) as u8) as u64 * 65536 + ((s
            >> 8u32) as u8) as u64 * 256 + (s as u8) as u64 == s as u64) by (bit_vector);
    }
}

/// A head whose length fits in 24 bits and whose stream identifier fits in
/// 31 bits is read back as it was written.
pub proof fn lemma_head_roundtrip(h: Head)
    requires
        h.length < 0x100_0000,
        h.stream_id < 0x8000_0000,
    ensures
        head_from_bytes(head_bytes(h)) == h,
{
    lemma_head_read_back(h);
}

/// Setting a flag bit that is clear sets it and leaves the other bits as they were.
pub proof fn lemma_set_flag(flags: u8, index: u8)
    requires
        index < 8,
        !flag_bit(flags, index),
    ensures
        flags + (1u8 << index) <= 255,
        flag_bit((flags + (1u8 << index)) as u8, index),
        forall|j: u8| j < 8 && j != index ==> flag_bit((flags + (1u8 << index)) as u8, j) == flag_bit(flags, j),
{
    assert(index < 8 && (flags >> index) & 1 != 1 ==> flags as u16 + (1u8 << index) as u16 <= 255 && ((
    (flags + (1u8 << index)) as u8) >> index) & 1 == 1) by (bit_vector);
    assert forall|j: u8| j < 8 && j != index implies flag_bit((flags + (1u8 << index)) as u8, j)
        == flag_bit(flags, j) by {
        assert(index < 8 && j < 8 && j != index && (flags >> index) & 1 != 1 ==> ((((flags + (1u8
            << index)) as u8) >> j) & 1 == 1) == ((flags >> j) & 1 == 1)) by (bit_vector);
    }
}

impl From<Vec<u8>> for Head {
    /// Reads a head from the start of `buf` with bitreader.
    fn from(buf: Vec<u8>) -> (r: Head) {
        if buf.len() >= 9 {
            let t = slice_to_vec(slice_subrange(buf.as_slice(), 0, 9));
            let h = t.as_slice();
            let length = read_u32_at(h, 0, 24).unwrap();
            let kind = read_u8_at(h, 24, 8).unwrap();
            let flags = read_u8_at(h, 32, 8).unwrap();
            let stream_id = read_u32_at(h, 41, 31).unwrap();
            proof {
                assert(t@ =~= buf@.subrange(0, 9));
                lemma_be24_bits(h@, 0);
                lemma_byte_bits(h@, 3);
                lemma_byte_bits(h@, 4);
                lemma_low31_bits(h@, 5);
            }
            Head { length: length, kind: kind, flags: flags, stream_id: stream_id }
        } else {
            Head { length: 0, kind: 0, flags: 0, stream_id: 0 }
        }
    }
}

impl FromSpecImpl<Vec<u8>> for Head {
    open spec fn obeys_from_spec() -> bool {
        true
    }

    open spec fn from_spec(v: Vec<u8>) -> Head {
        head_from_bytes(v@)
    }
}

} // verus!
