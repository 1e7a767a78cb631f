//! HEADERS frames and the HPACK header blocks they carry (through `hpack_codec`).

use vstd::prelude::*;
use hpack_codec::Decoder;
use hpack_codec::Encoder;
use hpack_codec::table::StaticEntry;
use crate::fields::{HeaderFields, fields_map, pairs_of, copy_bytes};
use crate::proto::frame::HEADERS;
use crate::proto::frame::head::{Head, head_bytes, flag_bit};
use crate::proto::frame::block_scan::{block_accepted, block_is_accepted};

verus! {

/// What each call of `HeaderBlockDecoder::decode_field` gives when a fresh
/// `hpack_codec::Decoder` with a 4096-byte dynamic table reads `block`, in
/// order, up to the call that reports the end of the block: the field's name
/// and value, or `None` where the call fails.
pub uninterp spec fn hpack_field_results(block: Seq<u8>) -> Seq<Option<(Seq<u8>, Seq<u8>)>>;

/// The names and values of a list of decoding outcomes.
pub open spec fn results_of(v: Seq<Option<(Vec<u8>, Vec<u8>)>>) -> Seq<Option<(Seq<u8>, Seq<u8>)>> {
    Seq::new(
        v.len(),
        |i: int|
            match v[i] {
                Some(f) => Some((f.0@, f.1@)),
                None => None,
            },
    )
}

/// Decodes the header block `block` with `hpack_codec`: `Decoder::new(4096)`,
/// `Decoder::enter_header_block`, then `HeaderBlockDecoder::decode_field`
/// called again after a failure, as long as it does not report the end of
/// the block; each field's name and value are copied out, and a failed call
/// gives `None`. The result is the named list of outcomes: it depends on the
/// block alone, since every call starts from a fresh decoder. What the
/// outcomes are for a given block (HPACK decoding with the static and dynamic
/// tables and Huffman coding) is not stated.
///
/// The block must be [`block_accepted`]: there `enter_header_block` succeeds,
/// every call of `decode_field` moves the reader on, so that the calls come
/// to the end of the block, no integer goes on to the fourth continuation
/// octet on which `hpack_codec` panics (it shifts a 16-bit value by 21 bits),
/// and no literal field can decode past the 65503 octets of name and value on
/// which it panics.
#[verifier::external_body]
fn decode_header_block(block: &[u8]) -> (r: Vec<Option<(Vec<u8>, Vec<u8>)>>)
    requires
        block_accepted(block@),
    ensures
        results_of(r@) == hpack_field_results(block@),
{
    let mut decoder = Decoder::new(4096);
    let mut header = decoder.enter_header_block(block).unwrap();
    let mut results = Vec::new();
    loop {
        match header.decode_field() {
            Ok(Some(field)) => results.push(Some((field.name().to_vec(), field.value().to_vec()))),
            Ok(None) => break,
            Err(_) => results.push(None),
        }
    }
    results
}

/// Encodes, with `hpack_codec` (`Encoder::new(4096)`,
/// `Encoder::enter_header_block`, `HeaderBlockEncoder::encode_field` with
/// `StaticEntry::Status200`, `HeaderBlockEncoder::finish`), the header block
/// that holds the single field `:status: 200`. A fresh encoder has no table
/// size update to emit, and the field is the indexed representation of static
/// entry 8: the one byte `0x80 | 8`.
#[verifier::external_body]
pub(crate) fn encode_status_200_block() -> (r: Vec<u8>)
    ensures
        r@ == seq![0x88u8],
{
    let mut encoder = Encoder::new(4096);
    let mut header = encoder.enter_header_block(Vec::new()).unwrap();
    header.encode_field(StaticEntry::Status200).unwrap();
    header.finish()
}

/// The fields of the calls that succeeded, in order.
pub open spec fn decoded_pairs(s: Seq<Option<(Seq<u8>, Seq<u8>)>>) -> Seq<(Seq<u8>, Seq<u8>)>
    decreases s.len(),
{
    if s.len() == 0 {
        Seq::empty()
    } else {
        match s.last() {
            Some(f) => decoded_pairs(s.drop_last()).push(f),
            None => decoded_pairs(s.drop_last()),
        }
    }
}

/// Whether `block` is a header block that the decoder reads to its end.
pub open spec fn block_decodes(block: Seq<u8>) -> bool {
    block_accepted(block)
}

/// The header fields of a header block: those of the fields that decode,
/// those that fail being passed over; a later field with a name replaces an
/// earlier one.
pub open spec fn block_fields(block: Seq<u8>) -> Map<Seq<u8>, Seq<u8>> {
    fields_map(decoded_pairs(hpack_field_results(block)))
}

/// The fields of the decoding outcomes `results` that succeeded, read in
/// order; a later field with a name replaces an earlier one.
pub fn fields_from_results(results: Vec<Option<(Vec<u8>, Vec<u8>)>>) -> (r: HeaderFields)
    ensures
        r@ == fields_map(decoded_pairs(results_of(results@))),
{
    let ghost all = results_of(results@);
    let mut pairs: Vec<(Vec<u8>, Vec<u8>)> = Vec::new();
    let mut k: usize = 0;
    while k < results.len()
        invariant
            k <= results.len(),
            all == results_of(results@),
            pairs_of(pairs@) == decoded_pairs(all.take(k as int)),
        decreases results.len() - k,
    {
        proof {
            assert(all.take(k + 1).drop_last() =~= all.take(k as int));
        }
        match &results[k] {
            Some(f) => {
                let ghost before = pairs@;
                pairs.push((copy_bytes(&f.0), copy_bytes(&f.1)));
                assert(pairs_of(pairs@) =~= pairs_of(before).push((f.0@, f.1@)));
            },
            None => {},
        }
        k = k + 1;
    }
    assert(all.take(k as int) =~= all);
    HeaderFields::from_pairs(pairs)
}

/// Decodes a header block into its fields, or `None` where the decoder would
/// not read it to its end.
pub fn try_parse_header_block_fragment(buf: &[u8]) -> (r: Option<HeaderFields>)
    ensures
        r is Some <==> block_decodes(buf@),
        r matches Some(f) ==> f@ == block_fields(buf@),
{
    if !block_is_accepted(buf) {
        return None;
    }
    Some(parse_header_block_fragment(buf))
}

/// Decodes a header block into its fields, passing over the fields that fail
/// to decode.
pub fn parse_header_block_fragment(buf: &[u8]) -> (r: HeaderFields)
    requires
        block_decodes(buf@),
    ensures
        r@ == block_fields(buf@),
{
    let results = decode_header_block(buf);
    fields_from_results(results)
}

/// The header block sent for a response: the field `:status: 200`, whatever
/// the fields given.
pub fn create_header_block_fragment(headers: HeaderFields) -> (r: Vec<u8>)
    ensures
        r@ == seq![0x88u8],
{
    encode_status_200_block()
}

/// How many payload bytes come before the header block of a HEADERS frame:
/// one for the pad length (flag 3, PADDED) and five for the priority (flag 5,
/// PRIORITY).
pub open spec fn headers_block_start(flags: u8) -> nat {
    (if flag_bit(flags, 3) { 1nat } else { 0nat }) + (if flag_bit(flags, 5) { 5nat } else { 0nat })
}

/// Whether a HEADERS frame with head `head` and payload `buf` can be read: its
/// header block starts inside the payload and decodes.
pub open spec fn headers_readable(head: Head, buf: Seq<u8>) -> bool {
    &&& headers_block_start(head.flags) <= buf.len()
    &&& block_decodes(buf.subrange(headers_block_start(head.flags) as int, buf.len() as int))
}

/// The fields of a readable HEADERS frame.
pub open spec fn headers_payload_fields(head: Head, buf: Seq<u8>) -> Map<Seq<u8>, Seq<u8>> {
    block_fields(buf.subrange(headers_block_start(head.flags) as int, buf.len() as int))
}

/// A HEADERS frame: its head and the header fields it carries.
#[derive(Debug)]
pub struct Headers {
    head: Head,
    inner: HeaderFields,
}

impl Headers {
    /// The head of this frame.
    pub closed spec fn head_of(&self) -> Head {
        self.head
    }

    /// The header fields of this frame.
    pub closed spec fn fields_of(&self) -> Map<Seq<u8>, Seq<u8>> {
        self.inner@
    }

    /// Reads a HEADERS frame, or `None` where its payload cannot be read.
    pub fn try_from(head: Head, buf: Vec<u8>) -> (r: Option<Headers>)
        ensures
            r is Some <==> headers_readable(head, buf@),
            r matches Some(h) ==> h.head_of() == head && h.fields_of() == headers_payload_fields(
                head,
                buf@,
            ),
    {
        let mut cursor: usize = 0;
        if head.has_flag(3) {
            cursor += 1;
        }
        if head.has_flag(5) {
            cursor += 5;
        }
        if cursor > buf.len() {
            return None;
        }
        let block = vstd::slice::slice_subrange(buf.as_slice(), cursor, buf.len());
        if !block_is_accepted(block) {
            return None;
        }
        Some(Headers::from(head, buf))
    }

    /// Reads a HEADERS frame from its head and payload: the header block
    /// starts after the pad length and the priority, where those flags are set.
    pub fn from(head: Head, buf: Vec<u8>) -> (r: Headers)
        requires
            headers_readable(head, buf@),
        ensures
            r.head_of() == head,
            r.fields_of() == headers_payload_fields(head, buf@),
    {
        let mut cursor: usize = 0;
        if head.has_flag(3) {
            cursor += 1;
        }
        if head.has_flag(5) {
            cursor += 5;
        }
        let block = vstd::slice::slice_subrange(buf.as_slice(), cursor, buf.len());
        let inner = parse_header_block_fragment(block);
        Headers { head: head, inner: inner }
    }

    /// Sets a header field.
    pub fn insert(&mut self, name: Vec<u8>, value: Vec<u8>)
        ensures
            final(self).head_of() == old(self).head_of(),
            final(self).fields_of() == old(self).fields_of().insert(name@, value@),
    {
        self.inner.insert(name, value);
    }

    /// An empty HEADERS frame on stream `stream_id`.
    pub fn new(stream_id: u32) -> (r: Headers)
        ensures
            r.head_of() == (Head { length: 0, kind: HEADERS, flags: 0, stream_id: stream_id }),
            r.fields_of() == Map::<Seq<u8>, Seq<u8>>::empty(),
    {
        let data = HeaderFields::new();
        Headers {
            head: Head { length: 0, kind: HEADERS, flags: 0, stream_id: stream_id },
            inner: data,
        }
    }

    /// The wire form of this frame: its header block is the `:status: 200`
    /// block, its length set to that block's, flag 2 (END_HEADERS) added.
    pub fn as_bytes(&mut self) -> (r: Vec<u8>)
        requires
            old(self).head_of().flags + 4 <= 255,
        ensures
            final(self).head_of() == (Head {
                length: 1,
                flags: (old(self).head_of().flags + 4) as u8,
                ..old(self).head_of()
            }),
            final(self).fields_of() == old(self).fields_of(),
            r@ == head_bytes(final(self).head_of()) + seq![0x88u8],
    {
        let mut data = create_header_block_fragment(self.inner.clone());
        self.head.set_length(data.len() as u32);
        assert(1u8 << 2u8 == 4) by (bit_vector);
        self.head.set_flag(2);
        let mut head = self.head.as_bytes();
        head.append(&mut data);
        head
    }

    /// Whether flag 0 (END_STREAM) is set.
    pub fn is_end_stream(&self) -> (r: bool)
        ensures
            r == flag_bit(self.head_of().flags, 0),
    {
        self.head.has_flag(0)
    }

    /// Whether flag 2 (END_HEADERS) is set.
    pub fn is_end_headers(&self) -> (r: bool)
        ensures
            r == flag_bit(self.head_of().flags, 2),
    {
        self.head.has_flag(2)
    }

    /// A copy of the header fields.
    pub fn get_headers(&self) -> (r: HeaderFields)
        ensures
            r@ == self.fields_of(),
    {
        self.inner.clone()
    }
}

/// Where the header block of a HEADERS frame starts: after the pad length
/// (one byte) when PADDED (flag 3) is set and after the priority (five bytes)
/// when PRIORITY (flag 5) is set, and at the first byte otherwise; the frame
/// can be read exactly when the payload reaches that start and the block from
/// there is accepted, and its fields are those of that block.
pub proof fn lemma_headers_block_offset(head: Head, buf: Seq<u8>)
    ensures
        !flag_bit(head.flags, 3) && !flag_bit(head.flags, 5) ==> (headers_readable(head, buf)
            <==> block_decodes(buf)) && headers_payload_fields(head, buf) == block_fields(buf),
        flag_bit(head.flags, 3) && !flag_bit(head.flags, 5) ==> (headers_readable(head, buf)
            <==> buf.len() >= 1 && block_decodes(buf.subrange(1, buf.len() as int))) && (
        buf.len() >= 1 ==> headers_payload_fields(head, buf) == block_fields(
            buf.subrange(1, buf.len() as int),
        )),
        !flag_bit(head.flags, 3) && flag_bit(head.flags, 5) ==> (headers_readable(head, buf)
            <==> buf.len() >= 5 && block_decodes(buf.subrange(5, buf.len() as int))) && (
        buf.len() >= 5 ==> headers_payload_fields(head, buf) == block_fields(
            buf.subrange(5, buf.len() as int),
        )),
        flag_bit(head.flags, 3) && flag_bit(head.flags, 5) ==> (headers_readable(head, buf)
            <==> buf.len() >= 6 && block_decodes(buf.subrange(6, buf.len() as int))) && (
        buf.len() >= 6 ==> headers_payload_fields(head, buf) == block_fields(
            buf.subrange(6, buf.len() as int),
        )),
{
    assert(buf.subrange(0, buf.len() as int) =~= buf);
}

} // verus!
