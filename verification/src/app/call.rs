//! A call from a client, assembled from the frames of one stream.

use vstd::prelude::*;
use vstd::utf8::{valid_utf8, decode_utf8};
use crate::fields::HeaderFields;
use crate::text::string_from_utf8;
use crate::proto::frame::head::flag_bit;
use crate::proto::frame::data::Data;
use crate::proto::frame::headers::Headers;
use crate::proto::frame::continuation::Continuation;

verus! {

/// The header name `:path`.
pub open spec fn path_name() -> Seq<u8> {
    seq![0x3au8, 0x70, 0x61, 0x74, 0x68]
}

/// The header name `:method`.
pub open spec fn method_name() -> Seq<u8> {
    seq![0x3au8, 0x6d, 0x65, 0x74, 0x68, 0x6f, 0x64]
}

/// A call: its header fields, its data, and whether the headers and the
/// stream have ended.
#[derive(Debug)]
pub struct Call {
    headers: HeaderFields,
    data: Vec<u8>,
    end_headers: bool,
    end_stream: bool,
}

/// What a call has received, as mathematical values.
pub struct CallModel {
    pub headers: Map<Seq<u8>, Seq<u8>>,
    pub data: Seq<u8>,
    pub end_headers: bool,
    pub end_stream: bool,
}

/// A call that has received nothing.
pub open spec fn empty_call() -> CallModel {
    CallModel { headers: Map::empty(), data: Seq::empty(), end_headers: false, end_stream: false }
}

/// A frame that a call takes in, as the values the call keeps of it.
pub enum CallEvent {
    Data { flags: u8, data: Seq<u8> },
    Headers { flags: u8, fields: Map<Seq<u8>, Seq<u8>> },
    Continuation { flags: u8, fields: Map<Seq<u8>, Seq<u8>> },
}

/// What a call holds after it takes in `e`: DATA sets the end of the stream
/// (flag 0) and appends its data; HEADERS sets the end of the stream and of
/// the headers (flag 2) and adds its fields; CONTINUATION sets the end of the
/// headers and adds its fields.
pub open spec fn call_step(c: CallModel, e: CallEvent) -> CallModel {
    match e {
        CallEvent::Data { flags, data } => CallModel {
            end_stream: flag_bit(flags, 0),
            data: c.data + data,
            ..c
        },
        CallEvent::Headers { flags, fields } => CallModel {
            end_stream: flag_bit(flags, 0),
            end_headers: flag_bit(flags, 2),
            headers: c.headers.union_prefer_right(fields),
            ..c
        },
        CallEvent::Continuation { flags, fields } => CallModel {
            end_headers: flag_bit(flags, 2),
            headers: c.headers.union_prefer_right(fields),
            ..c
        },
    }
}

/// What a call holds after it takes in the frames `es`, in order.
pub open spec fn call_after(c: CallModel, es: Seq<CallEvent>) -> CallModel
    decreases es.len(),
{
    if es.len() == 0 {
        c
    } else {
        call_step(call_after(c, es.drop_last()), es.last())
    }
}

/// Whether the last DATA or HEADERS frame of `es` has END_STREAM (flag 0);
/// false where there is none.
pub open spec fn stream_ended(es: Seq<CallEvent>) -> bool
    decreases es.len(),
{
    if es.len() == 0 {
        false
    } else {
        match es.last() {
            CallEvent::Data { flags, .. } => flag_bit(flags, 0),
            CallEvent::Headers { flags, .. } => flag_bit(flags, 0),
            CallEvent::Continuation { .. } => stream_ended(es.drop_last()),
        }
    }
}

/// Whether the last HEADERS or CONTINUATION frame of `es` has END_HEADERS
/// (flag 2); false where there is none.
pub open spec fn headers_ended(es: Seq<CallEvent>) -> bool
    decreases es.len(),
{
    if es.len() == 0 {
        false
    } else {
        match es.last() {
            CallEvent::Data { .. } => headers_ended(es.drop_last()),
            CallEvent::Headers { flags, .. } => flag_bit(flags, 2),
            CallEvent::Continuation { flags, .. } => flag_bit(flags, 2),
        }
    }
}

/// A new call that takes in any frames is ready exactly when a DATA or
/// HEADERS frame came and the last of them ended the stream, and a HEADERS or
/// CONTINUATION frame came and the last of them ended the headers.
pub proof fn lemma_ready_after(es: Seq<CallEvent>)
    ensures
        call_after(empty_call(), es).end_stream == stream_ended(es),
        call_after(empty_call(), es).end_headers == headers_ended(es),
        (call_after(empty_call(), es).end_headers && call_after(empty_call(), es).end_stream) == (
        stream_ended(es) && headers_ended(es)),
    decreases es.len(),
{
    if es.len() > 0 {
        lemma_ready_after(es.drop_last());
    }
}

impl View for Call {
    type V = CallModel;

    closed spec fn view(&self) -> CallModel {
        CallModel {
            headers: self.headers@,
            data: self.data@,
            end_headers: self.end_headers,
            end_stream: self.end_stream,
        }
    }
}

impl Call {
    /// A call that has received nothing.
    pub fn from() -> (r: Call)
        ensures
            r@ == empty_call(),
    {
        Call { headers: HeaderFields::new(), data: Vec::new(), end_headers: false, end_stream: false }
    }

    /// Whether both the headers and the stream have ended.
    pub fn is_ready(&self) -> (r: bool)
        ensures
            r == (self@.end_headers && self@.end_stream),
    {
        self.end_headers && self.end_stream
    }

    /// Takes in a DATA frame: its END_STREAM flag, and its data appended.
    pub fn insert_data(&mut self, data: Data)
        ensures
            final(self)@ == call_step(
                old(self)@,
                CallEvent::Data { flags: data.head_of().flags, data: data.payload_of() },
            ),
            final(self)@.end_stream == flag_bit(data.head_of().flags, 0),
            final(self)@.data == old(self)@.data + data.payload_of(),
            final(self)@.headers == old(self)@.headers,
            final(self)@.end_headers == old(self)@.end_headers,
    {
        self.end_stream = data.is_end_stream();
        let mut payload = data.get_payload();
        self.data.append(&mut payload);
    }

    /// Takes in a HEADERS frame: its END_STREAM and END_HEADERS flags, and its
    /// fields, which replace those of the same names.
    pub fn insert_headers(&mut self, headers: Headers)
        ensures
            final(self)@ == call_step(
                old(self)@,
                CallEvent::Headers { flags: headers.head_of().flags, fields: headers.fields_of() },
            ),
            final(self)@.end_stream == flag_bit(headers.head_of().flags, 0),
            final(self)@.end_headers == flag_bit(headers.head_of().flags, 2),
            final(self)@.headers == old(self)@.headers.union_prefer_right(
                headers.fields_of(),
            ),
            final(self)@.data == old(self)@.data,
    {
        self.end_stream = headers.is_end_stream();
        self.end_headers = headers.is_end_headers();
        self.insert_all(headers.get_headers());
    }

    /// Takes in a CONTINUATION frame: its END_HEADERS flag, and its fields.
    pub fn insert_continuation(&mut self, continuation: Continuation)
        ensures
            final(self)@ == call_step(
                old(self)@,
                CallEvent::Continuation {
                    flags: continuation.head_of().flags,
                    fields: continuation.fields_of(),
                },
            ),
            final(self)@.end_headers == flag_bit(continuation.head_of().flags, 2),
            final(self)@.headers == old(self)@.headers.union_prefer_right(
                continuation.fields_of(),
            ),
            final(self)@.end_stream == old(self)@.end_stream,
            final(self)@.data == old(self)@.data,
    {
        self.end_headers = continuation.is_end_headers();
        self.insert_all(continuation.get_headers());
    }

    /// The value of the `:path` field.
    pub fn path(&self) -> (r: Option<&Vec<u8>>)
        ensures
            r is Some <==> self@.headers.contains_key(path_name()),
            r matches Some(v) ==> v@ == self@.headers[path_name()],
    {
        let name = vec![0x3au8, 0x70, 0x61, 0x74, 0x68];
        assert(name@ =~= path_name());
        self.headers.get(&name)
    }

    fn insert_all(&mut self, headers: HeaderFields)
        ensures
            final(self)@.headers == old(self)@.headers.union_prefer_right(headers@),
            final(self)@.data == old(self)@.data,
            final(self)@.end_headers == old(self)@.end_headers,
            final(self)@.end_stream == old(self)@.end_stream,
    {
        self.headers.insert_fields(&headers);
    }

    /// A copy of this call.
    pub fn copy(&self) -> (r: Call)
        ensures
            r@ == self@,
    {
        Call {
            headers: self.headers.clone(),
            data: crate::fields::copy_bytes(&self.data),
            end_headers: self.end_headers,
            end_stream: self.end_stream,
        }
    }

    /// Whether the call has a `:method` field that is valid UTF-8.
    pub open spec fn has_method(&self) -> bool {
        &&& self@.headers.contains_key(method_name())
        &&& valid_utf8(self@.headers[method_name()])
    }

    /// The method of the call: the `:method` field as text.
    pub fn method(&self) -> (r: String)
        requires
            self.has_method(),
        ensures
            r@ == decode_utf8(self@.headers[method_name()]),
    {
        let name = vec![0x3au8, 0x6d, 0x65, 0x74, 0x68, 0x6f, 0x64];
        assert(name@ =~= method_name());
        let value = crate::fields::copy_bytes(self.headers.get(&name).unwrap());
        string_from_utf8(value).unwrap()
    }

    /// Whether the method is `GET`.
    pub fn is_get(&self) -> (r: bool)
        requires
            self.has_method(),
        ensures
            r == (decode_utf8(self@.headers[method_name()]) == "GET"@),
    {
        self.method() == String::from_str("GET")
    }

    /// Whether the method is `POST`.
    pub fn is_post(&self) -> (r: bool)
        requires
            self.has_method(),
        ensures
            r == (decode_utf8(self@.headers[method_name()]) == "POST"@),
    {
        self.method() == String::from_str("POST")
    }
}

} // verus!
