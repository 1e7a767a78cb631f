//! A line protocol: items are lines of UTF-8 text ended by `\n`.

use vstd::prelude::*;
use vstd::utf8::{valid_utf8, decode_utf8, encode_utf8, encode_scalar};
use crate::text::string_from_utf8;

verus! {

/// Why a line cannot be read.
#[derive(Debug)]
pub enum LineError {
    /// The line is not valid UTF-8.
    InvalidUtf8,
}

/// The position of the first `\n` in `buf` at or after `from`, if there is one.
pub open spec fn newline_from(buf: Seq<u8>, from: int) -> Option<int>
    decreases buf.len() - from,
{
    if from < 0 || from >= buf.len() {
        None
    } else if buf[from] == 10u8 {
        Some(from)
    } else {
        newline_from(buf, from + 1)
    }
}

/// The position of the first `\n` in `buf`, if there is one.
pub open spec fn first_newline(buf: Seq<u8>) -> Option<int> {
    newline_from(buf, 0)
}

/// `buf` followed by the UTF-8 encoding of `msg` and a `\n`.
pub open spec fn line_frame(buf: Seq<u8>, msg: Seq<char>) -> Seq<u8> {
    buf + encode_utf8(msg) + seq![10u8]
}

/// Whether `msg` holds no `\n`.
pub open spec fn no_newline(msg: Seq<char>) -> bool {
    forall|i: int| 0 <= i < msg.len() ==> msg[i] != '\n'
}

/// A text without `\n` encodes to bytes without the byte 10.
proof fn lemma_encoding_has_no_newline(msg: Seq<char>)
    requires
        no_newline(msg),
    ensures
        forall|j: int| 0 <= j < encode_utf8(msg).len() ==> encode_utf8(msg)[j] != 10u8,
    decreases msg.len(),
{
    if msg.len() > 0 {
        lemma_encoding_has_no_newline(msg.drop_first());
        let c = msg[0];
        let v = c as u32;
        assert(v != 10) by {
            vstd::utf8::char_u32_cast(c, v);
            if v == 10 {
                assert(c == '\n');
            }
        }
        let e = encode_scalar(v);
        assert(forall|j: int| 0 <= j < e.len() ==> e[j] != 10u8) by {
            assert(v <= 0x7F && v != 10 ==> (v & 0x7F) as u8 != 10u8) by (bit_vector);
            assert((0xC0u8 | ((v >> 6u32) & 0x1F) as u8) != 10u8) by (bit_vector);
            assert((0xE0u8 | ((v >> 12u32) & 0x0F) as u8) != 10u8) by (bit_vector);
            assert((0xF0u8 | ((v >> 18u32) & 0x7) as u8) != 10u8) by (bit_vector);
            assert((0x80u8 | (v & 0x3F) as u8) != 10u8) by (bit_vector);
            assert((0x80u8 | ((v >> 6u32) & 0x3F) as u8) != 10u8) by (bit_vector);
            assert((0x80u8 | ((v >> 12u32) & 0x3F) as u8) != 10u8) by (bit_vector);
        }
        let r = encode_utf8(msg.drop_first());
        assert(encode_utf8(msg) == e + r);
        assert forall|j: int| 0 <= j < encode_utf8(msg).len() implies encode_utf8(msg)[j] != 10u8 by {
            if j >= e.len() {
                assert(encode_utf8(msg)[j] == r[j - e.len()]);
            }
        }
    }
}

/// No `\n` from `from` up to `to`, then one at `to`: the first from `from` is at `to`.
proof fn lemma_newline_at(buf: Seq<u8>, from: int, to: int)
    requires
        0 <= from <= to < buf.len(),
        buf[to] == 10u8,
        forall|j: int| from <= j < to ==> buf[j] != 10u8,
    ensures
        newline_from(buf, from) == Some(to),
    decreases to - from,
{
    if from < to {
        lemma_newline_at(buf, from + 1, to);
    }
}

/// A line encoded into an empty buffer is decoded back: the first `\n` is the
/// one encoding added, the bytes before it are valid UTF-8 that decode to the
/// text, and nothing is left after it.
pub proof fn lemma_line_roundtrip(msg: Seq<char>)
    requires
        no_newline(msg),
    ensures
        ({
            let b = line_frame(Seq::empty(), msg);
            let n = encode_utf8(msg).len() as int;
            &&& first_newline(b) == Some(n)
            &&& valid_utf8(b.subrange(0, n))
            &&& decode_utf8(b.subrange(0, n)) == msg
            &&& b.subrange(n + 1, b.len() as int) == Seq::<u8>::empty()
        }),
{
    let e = encode_utf8(msg);
    let b = line_frame(Seq::empty(), msg);
    let n = e.len() as int;
    lemma_encoding_has_no_newline(msg);
    assert(b =~= e + seq![10u8]);
    assert(b.subrange(0, n) =~= e);
    lemma_newline_at(b, 0, n);
    vstd::utf8::encode_utf8_valid_utf8(msg);
    vstd::utf8::encode_utf8_decode_utf8(msg);
    assert(b.subrange(n + 1, b.len() as int) =~= Seq::<u8>::empty());
}

/// The codec of the line protocol.
pub struct LineCodec;

/// The server side of the line protocol.
pub struct LineProto;

impl LineCodec {
    /// Appends `msg` and a `\n` to the output buffer.
    pub fn encode(&mut self, msg: String, buf: &mut Vec<u8>)
        ensures
            final(buf)@ == line_frame(old(buf)@, msg@),
    {
        let bytes = msg.as_str().as_bytes();
        let mut i: usize = 0;
        let ghost start = buf@;
        while i < bytes.len()
            invariant
                i <= bytes@.len(),
                buf@ == start + bytes@.take(i as int),
            decreases bytes.len() - i,
        {
            buf.push(bytes[i]);
            assert(bytes@.take(i + 1) =~= bytes@.take(i as int).push(bytes@[i as int]));
            i = i + 1;
        }
        assert(bytes@.take(i as int) =~= bytes@);
        buf.push(10u8);
    }

    /// Takes the first line out of the buffer: with a `\n` there, the line
    /// and its `\n` leave the buffer and the line is given as text, or as
    /// `InvalidUtf8` when it is not UTF-8; without one, nothing is taken.
    pub fn decode(&mut self, buf: &mut Vec<u8>) -> (r: Result<Option<String>, LineError>)
        ensures
            match first_newline(old(buf)@) {
                Some(i) => {
                    &&& final(buf)@ == old(buf)@.subrange(i + 1, old(buf)@.len() as int)
                    &&& (valid_utf8(old(buf)@.subrange(0, i)) ==> (r matches Ok(Some(s)) && s@
                        == decode_utf8(old(buf)@.subrange(0, i))))
                    &&& (!valid_utf8(old(buf)@.subrange(0, i)) ==> r matches Err(
                        LineError::InvalidUtf8,
                    ))
                },
                None => r matches Ok(None) && final(buf)@ == old(buf)@,
            },
    {
        let mut i: usize = 0;
        while i < buf.len()
            invariant
                i <= buf@.len(),
                buf@ == old(buf)@,
                first_newline(buf@) == newline_from(buf@, i as int),
            decreases buf.len() - i,
        {
            if buf[i] == 10u8 {
                let ghost b = buf@;
                let mut line: Vec<u8> = Vec::new();
                let mut rest: Vec<u8> = Vec::new();
                let mut k: usize = 0;
                while k < buf.len()
                    invariant
                        buf@ == b,
                        b == old(buf)@,
                        i < b.len(),
                        k <= b.len(),
                        k <= i ==> line@ == b.take(k as int) && rest@.len() == 0,
                        k > i ==> line@ == b.take(i as int) && rest@ == b.subrange(
                            i + 1,
                            k as int,
                        ),
                    decreases buf.len() - k,
                {
                    if k < i {
                        line.push(buf[k]);
                        assert(b.take(k + 1) =~= b.take(k as int).push(b[k as int]));
                    } else if k > i {
                        rest.push(buf[k]);
                        assert(b.subrange(i + 1, k + 1) =~= b.subrange(i + 1, k as int).push(
                            b[k as int],
                        ));
                    } else {
                        assert(b.subrange(i + 1, k + 1) =~= Seq::<u8>::empty());
                    }
                    k = k + 1;
                }
                *buf = rest;
                return match string_from_utf8(line) {
                    Some(s) => Ok(Some(s)),
                    None => Err(LineError::InvalidUtf8),
                };
            }
            i = i + 1;
        }
        Ok(None)
    }
}

} // verus!
