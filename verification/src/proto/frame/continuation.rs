//! CONTINUATION frames.

use vstd::prelude::*;
use crate::fields::HeaderFields;
use crate::proto::frame::head::{Head, flag_bit};
use crate::proto::frame::headers::{
    block_decodes, block_fields, parse_header_block_fragment, try_parse_header_block_fragment,
};

verus! {

/// A CONTINUATION frame: its head and the header fields of its block.
#[derive(Debug)]
pub struct Continuation {
    head: Head,
    inner: HeaderFields,
}

impl Continuation {
    /// The head of this frame.
    pub closed spec fn head_of(&self) -> Head {
        self.head
    }

    /// The header fields of this frame.
    pub closed spec fn fields_of(&self) -> Map<Seq<u8>, Seq<u8>> {
        self.inner@
    }

    /// Reads a CONTINUATION frame, or `None` where its block does not decode.
    pub fn try_from(head: Head, buf: Vec<u8>) -> (r: Option<Continuation>)
        ensures
            r is Some <==> block_decodes(buf@),
            r matches Some(c) ==> c.head_of() == head && c.fields_of() == block_fields(buf@),
    {
        match try_parse_header_block_fragment(buf.as_slice()) {
            Some(_) => Some(Continuation::from(head, buf)),
            None => None,
        }
    }

    /// Reads a CONTINUATION frame: its whole payload is a header block.
    pub fn from(head: Head, buf: Vec<u8>) -> (r: Continuation)
        requires
            block_decodes(buf@),
        ensures
            r.head_of() == head,
            r.fields_of() == block_fields(buf@),
    {
        let inner = parse_header_block_fragment(buf.as_slice());
        Continuation { head: head, inner: inner }
    }

    /// Whether flag 2 (END_HEADERS) is set.
    pub fn is_end_headers(&self) -> (r: bool)
        ensures
            r == flag_bit(self.head_of().flags, 2),
    {
        self.head.has_flag(2)
    }

    /// A copy of the header fields.
    pub fn get_headers(&self) -> (r: HeaderFields)
        ensures
            r@ == self.fields_of(),
    {
        self.inner.clone()
    }
}

} // verus!
