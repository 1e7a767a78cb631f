//! Frame heads of the first frame layer, whose flags are numbered from the
//! most significant bit.

use vstd::prelude::*;
use vstd::std_specs::convert::FromSpecImpl;
use vstd::slice::{slice_subrange, slice_to_vec};
use vstd::arithmetic::power2::lemma2_to64;
use vstd::arithmetic::div_mod::lemma_small_mod;
use crate::frame::binary::{binary_digits, binary_string, fixed_digits, is_binary, lemma_binary_ascii, lemma_binary_digits, lemma_fixed_binary, lemma_fixed_split, lemma_fixed_top_zero, lemma_fixed_value, lemma_pad_binary, lemma_padded_binary};
use crate::frame::util::{bin_to_vec, pad};
use crate::proto::util::{binary_bytes, binary_value, padded};
use crate::proto::frame::head::head_bytes;
use crate::bits::{be24, be32, read_u32_at, read_u8_at, lemma_be24_bits, lemma_byte_bits, lemma_low31_bits};

verus! {

/// A frame head: payload length, frame type, flags and stream identifier.
#[derive(Debug)]
pub struct Head {
    pub length: u32,
    pub kind: u8,
    pub flags: u8,
    pub stream_id: u32,
}

/// The head read from the first nine bytes of `buf`, as the other frame layer
/// reads it (`crate::proto::frame::head::head_from_bytes`); fewer than nine
/// bytes give the all-zero head.
pub open spec fn head_from_bytes(buf: Seq<u8>) -> Head {
    if buf.len() >= 9 {
        Head {
            length: be24(buf[0], buf[1], buf[2]) as u32,
            kind: buf[3],
            flags: buf[4],
            stream_id: (be32(buf[5], buf[6], buf[7], buf[8]) % 0x8000_0000) as u32,
        }
    } else {
        Head { length: 0, kind: 0, flags: 0, stream_id: 0 }
    }
}

/// Whether flag `index` is set, flags numbered from the most significant bit
/// (flag 0 is `0x80`, flag 7 is `0x01`).
pub open spec fn msb_flag(flags: u8, index: u8) -> bool {
    (flags >> ((7 - index) as u8)) & 1 == 1
}

impl Head {
    /// A copy of this head.
    pub fn clone(&self) -> (r: Head)
        ensures
            r == *self,
    {
        Head { length: self.length, kind: self.kind, flags: self.flags, stream_id: self.stream_id }
    }

    /// Whether flag `index` is set, counting from the most significant bit;
    /// indices from 8 on are never set.
    pub fn has_flag(&self, index: u8) -> (r: bool)
        ensures
            r == (index < 8 && msb_flag(self.flags, index)),
    {
        if index < 8 {
            let filter: u8 = 1u8 << (7 - index);
            let f = self.flags;
            assert(index < 8 ==> ((filter & f != 0) == ((f >> ((7 - index) as u8)) & 1 == 1)))
                by (bit_vector)
                requires
                    filter == 1u8 << (7 - index) as u8,
            ;
            (filter & self.flags) != 0
        } else {
            false
        }
    }
}

/// The binary string a head is written as: the length padded to 24 digits,
/// the type and the flags to 8 each, a reserved `0`, the stream identifier to
/// 31. Padding never cuts, so a number too large for its width makes its
/// field longer.
pub open spec fn head_digits(h: Head) -> Seq<char> {
    padded(binary_digits(h.length as nat), 24) + padded(binary_digits(h.kind as nat), 8) + padded(
        binary_digits(h.flags as nat),
        8,
    ) + seq!['0'] + padded(binary_digits(h.stream_id as nat), 31)
}

/// The digits of a head are binary.
pub proof fn lemma_head_digits_binary(h: Head)
    ensures
        is_binary(head_digits(h)),
{
    lemma_binary_digits(h.length as nat, 0);
    lemma_binary_digits(h.kind as nat, 0);
    lemma_binary_digits(h.flags as nat, 0);
    lemma_binary_digits(h.stream_id as nat, 0);
    lemma_padded_binary(binary_digits(h.length as nat), 24);
    lemma_padded_binary(binary_digits(h.kind as nat), 8);
    lemma_padded_binary(binary_digits(h.flags as nat), 8);
    lemma_padded_binary(binary_digits(h.stream_id as nat), 31);
    assert(is_binary(head_digits(h)));
}

/// The digits of a head whose fields fit their widths, as nine 8-digit chunks.
proof fn lemma_head_chunks(length: u32, kind: u8, flags: u8, stream_id: u32)
    requires
        length < 0x100_0000,
        stream_id < 0x8000_0000,
    ensures
        head_digits(Head { length, kind, flags, stream_id }) == fixed_digits(
            length as nat / 65536,
            8,
        ) + fixed_digits(length as nat / 256, 8) + fixed_digits(length as nat, 8) + fixed_digits(
            kind as nat,
            8,
        ) + fixed_digits(flags as nat, 8) + fixed_digits(stream_id as nat / 16777216, 8)
            + fixed_digits(stream_id as nat / 65536, 8) + fixed_digits(stream_id as nat / 256, 8)
            + fixed_digits(stream_id as nat, 8),
{
    let l = length as nat;
    let s = stream_id as nat;
    lemma2_to64();
    lemma_pad_binary(l, 24);
    lemma_pad_binary(kind as nat, 8);
    lemma_pad_binary(flags as nat, 8);
    lemma_pad_binary(s, 31);
    lemma_fixed_top_zero(s);
    lemma_fixed_split(l, 8, 16);
    lemma_fixed_split(l, 8, 8);
    lemma_fixed_split(s, 8, 24);
    lemma_fixed_split(s, 8, 16);
    lemma_fixed_split(s, 8, 8);
    assert(fixed_digits(l, 24) =~= fixed_digits(l / 65536, 8) + (fixed_digits(l / 256, 8)
        + fixed_digits(l, 8)));
    assert(fixed_digits(s, 32) =~= fixed_digits(s / 16777216, 8) + (fixed_digits(s / 65536, 8) + (
    fixed_digits(s / 256, 8) + fixed_digits(s, 8))));
    assert(padded(binary_digits(l), 24) == fixed_digits(l, 24));
    assert(padded(binary_digits(s), 31) == fixed_digits(s, 31));
    assert(head_digits(Head { length, kind, flags, stream_id }) == fixed_digits(l, 24) + fixed_digits(
        kind as nat,
        8,
    ) + fixed_digits(flags as nat, 8) + seq!['0'] + fixed_digits(s, 31));
    assert(head_digits(Head { length, kind, flags, stream_id }) =~= fixed_digits(l, 24) + fixed_digits(
        kind as nat,
        8,
    ) + fixed_digits(flags as nat, 8) + fixed_digits(s, 32));
    assert(head_digits(Head { length, kind, flags, stream_id }) =~= fixed_digits(l / 65536, 8)
        + fixed_digits(l / 256, 8) + fixed_digits(l, 8) + fixed_digits(kind as nat, 8)
        + fixed_digits(flags as nat, 8) + fixed_digits(s / 16777216, 8) + fixed_digits(s / 65536, 8)
        + fixed_digits(s / 256, 8) + fixed_digits(s, 8));
}

/// Nine 8-digit chunks make nine bytes, each the value of its chunk.
proof fn lemma_nine_chunks(
    c0: Seq<char>,
    c1: Seq<char>,
    c2: Seq<char>,
    c3: Seq<char>,
    c4: Seq<char>,
    c5: Seq<char>,
    c6: Seq<char>,
    c7: Seq<char>,
    c8: Seq<char>,
)
    requires
        c0.len() == 8,
        c1.len() == 8,
        c2.len() == 8,
        c3.len() == 8,
        c4.len() == 8,
        c5.len() == 8,
        c6.len() == 8,
        c7.len() == 8,
        c8.len() == 8,
    ensures
        ({
            let d = c0 + c1 + c2 + c3 + c4 + c5 + c6 + c7 + c8;
            &&& d.len() == 72
            &&& binary_bytes(d) == seq![
                binary_value(c0) as u8,
                binary_value(c1) as u8,
                binary_value(c2) as u8,
                binary_value(c3) as u8,
                binary_value(c4) as u8,
                binary_value(c5) as u8,
                binary_value(c6) as u8,
                binary_value(c7) as u8,
                binary_value(c8) as u8,
            ]
        }),
{
    let d = c0 + c1 + c2 + c3 + c4 + c5 + c6 + c7 + c8;
    assert(d.subrange(0, 8) =~= c0);
    assert(d.subrange(8, 16) =~= c1);
    assert(d.subrange(16, 24) =~= c2);
    assert(d.subrange(24, 32) =~= c3);
    assert(d.subrange(32, 40) =~= c4);
    assert(d.subrange(40, 48) =~= c5);
    assert(d.subrange(48, 56) =~= c6);
    assert(d.subrange(56, 64) =~= c7);
    assert(d.subrange(64, 72) =~= c8);
    assert(binary_bytes(d) =~= seq![
        binary_value(c0) as u8,
        binary_value(c1) as u8,
        binary_value(c2) as u8,
        binary_value(c3) as u8,
        binary_value(c4) as u8,
        binary_value(c5) as u8,
        binary_value(c6) as u8,
        binary_value(c7) as u8,
        binary_value(c8) as u8,
    ]);
}

/// For a length below `2^24` and a stream identifier below `2^31`, a head
/// written through binary strings is 72 digits, and its bytes are the nine
/// bytes that the protocol layer writes for the same fields.
pub proof fn lemma_head_layers_agree(length: u32, kind: u8, flags: u8, stream_id: u32)
    requires
        length < 0x100_0000,
        stream_id < 0x8000_0000,
    ensures
        head_digits(Head { length, kind, flags, stream_id }).len() == 72,
        binary_bytes(head_digits(Head { length, kind, flags, stream_id })) == head_bytes(
            crate::proto::frame::head::Head { length, kind, flags, stream_id },
        ),
{
    let l = length as nat;
    let s = stream_id as nat;
    lemma2_to64();
    lemma_head_chunks(length, kind, flags, stream_id);
    let c0 = fixed_digits(l / 65536, 8);
    let c1 = fixed_digits(l / 256, 8);
    let c2 = fixed_digits(l, 8);
    let c3 = fixed_digits(kind as nat, 8);
    let c4 = fixed_digits(flags as nat, 8);
    let c5 = fixed_digits(s / 16777216, 8);
    let c6 = fixed_digits(s / 65536, 8);
    let c7 = fixed_digits(s / 256, 8);
    let c8 = fixed_digits(s, 8);
    lemma_fixed_binary(l / 65536, 8);
    lemma_fixed_binary(l / 256, 8);
    lemma_fixed_binary(l, 8);
    lemma_fixed_binary(kind as nat, 8);
    lemma_fixed_binary(flags as nat, 8);
    lemma_fixed_binary(s / 16777216, 8);
    lemma_fixed_binary(s / 65536, 8);
    lemma_fixed_binary(s / 256, 8);
    lemma_fixed_binary(s, 8);
    lemma_nine_chunks(c0, c1, c2, c3, c4, c5, c6, c7, c8);
    lemma_fixed_value(l / 65536, 8);
    lemma_fixed_value(l / 256, 8);
    lemma_fixed_value(l, 8);
    lemma_fixed_value(kind as nat, 8);
    lemma_fixed_value(flags as nat, 8);
    lemma_fixed_value(s / 16777216, 8);
    lemma_fixed_value(s / 65536, 8);
    lemma_fixed_value(s / 256, 8);
    lemma_fixed_value(s, 8);
    assert((length >> 16u32) as u8 == ((length / 65536) % 256) as u8) by (bit_vector);
    assert((length >> 8u32) as u8 == ((length / 256) % 256) as u8) by (bit_vector);
    assert(length as u8 == (length % 256) as u8) by (bit_vector);
    assert((stream_id >> 24u32) as u8 == ((stream_id / 16777216) % 256) as u8) by (bit_vector);
    assert((stream_id >> 16u32) as u8 == ((stream_id / 65536) % 256) as u8) by (bit_vector);
    assert((stream_id >> 8u32) as u8 == ((stream_id / 256) % 256) as u8) by (bit_vector);
    assert(stream_id as u8 == (stream_id % 256) as u8) by (bit_vector);
    lemma_small_mod(kind as nat, 256);
    lemma_small_mod(flags as nat, 256);
    assert(binary_bytes(head_digits(Head { length, kind, flags, stream_id })) =~= head_bytes(
        crate::proto::frame::head::Head { length, kind, flags, stream_id },
    ));
}

impl Head {
    /// The wire form of this head, written as a binary string and read back
    /// eight digits to a byte. The fields must add up to whole bytes.
    pub fn as_bytes(&self) -> (r: Vec<u8>)
        requires
            head_digits(*self).len() % 8 == 0,
        ensures
            r@ == binary_bytes(head_digits(*self)),
    {
        let mut string = String::new();
        string.append(pad(binary_string(self.length), 24).as_str());
        string.append(pad(binary_string(self.kind as u32), 8).as_str());
        string.append(pad(binary_string(self.flags as u32), 8).as_str());
        let reserved = "0";
        proof {
            reveal_strlit("0");
        }
        string.append(reserved);
        string.append(pad(binary_string(self.stream_id), 31).as_str());
        proof {
            assert(string@ =~= head_digits(*self));
            lemma_head_digits_binary(*self);
            lemma_binary_ascii(head_digits(*self));
        }
        bin_to_vec(string)
    }
}

impl From<Vec<u8>> for Head {
    /// Reads a head from the start of `buf` with bitreader.
    fn from(buf: Vec<u8>) -> (r: Head) {
        if buf.len() >= 9 {
            let t = slice_to_vec(slice_subrange(buf.as_slice(), 0, 9));
            let h = t.as_slice();
            let length = read_u32_at(h, 0, 24).unwrap();
            let kind = read_u8_at(h, 24, 8).unwrap();
            let flags = read_u8_at(h, 32, 8).unwrap();
            let stream_id = read_u32_at(h, 41, 31).unwrap();
            proof {
                assert(t@ =~= buf@.subrange(0, 9));
                lemma_be24_bits(h@, 0);
                lemma_byte_bits(h@, 3);
                lemma_byte_bits(h@, 4);
                lemma_low31_bits(h@, 5);
            }
            Head { length: length, kind: kind, flags: flags, stream_id: stream_id }
        } else {
            Head { length: 0, kind: 0, flags: 0, stream_id: 0 }
        }
    }
}

impl FromSpecImpl<Vec<u8>> for Head {
    open spec fn obeys_from_spec() -> bool {
        true
    }

    open spec fn from_spec(v: Vec<u8>) -> Head {
        head_from_bytes(v@)
    }
}

} // verus!
