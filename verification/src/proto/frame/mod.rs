//! HTTP/2 frames.

pub mod head;
pub mod block_scan;
pub mod headers;
pub mod data;
pub mod continuation;
pub mod priority;
pub mod window_update;
pub mod settings;

use vstd::prelude::*;

verus! {

/// Frame type DATA.
pub const DATA: u8 = 0;
/// Frame type HEADERS.
pub const HEADERS: u8 = 1;
/// Frame type PRIORITY.
pub const PRIORITY: u8 = 2;
/// Frame type RST_STREAM.
pub const RST_STREAM: u8 = 3;
/// Frame type SETTINGS.
pub const SETTINGS: u8 = 4;
/// Frame type PUSH_PROMISE.
pub const PUSH_PROMISE: u8 = 5;
/// Frame type PING.
pub const PING: u8 = 6;
/// Frame type GOAWAY.
pub const GOAWAY: u8 = 7;
/// Frame type WINDOW_UPDATE.
pub const WINDOW_UPDATE: u8 = 8;
/// Frame type CONTINUATION.
pub const CONTINUATION: u8 = 9;

} // verus!

use crate::bits::fits_bit_reader;
use self::head::{Head, head_from_bytes};
use self::data::{Data, data_readable, data_payload};
use self::headers::{Headers, headers_readable, headers_payload_fields, block_decodes, block_fields, try_parse_header_block_fragment};
use self::priority::Priority;
use self::settings::Settings;
use self::window_update::WindowUpdate;
use self::continuation::Continuation;
use crate::frame::settings::settings_list;
use crate::bits::be32;
use vstd::slice::{slice_subrange, slice_to_vec};

verus! {

/// A frame, by type; frames of other types keep their payload.
#[derive(Debug)]
pub enum Frame {
    Data(Data),
    Headers(Headers),
    Priority(Priority),
    Settings(Settings),
    WindowUpdate(WindowUpdate),
    Continuation(Continuation),
    Unknown(Vec<u8>),
}

/// The payload of the frame at the start of `buf`: the `length` bytes after
/// its head.
pub open spec fn frame_payload(buf: Seq<u8>) -> Seq<u8> {
    buf.subrange(9, 9 + head_from_bytes(buf).length)
}

/// The number of bytes of the frame at the start of `buf`.
pub open spec fn frame_len(buf: Seq<u8>) -> nat {
    (9 + head_from_bytes(buf).length) as nat
}

/// Whether the frame at the start of `buf` can be read: its head and payload
/// are there, and the payload can be read as its type asks.
pub open spec fn frame_readable(buf: Seq<u8>) -> bool {
    let head = head_from_bytes(buf);
    let payload = frame_payload(buf);
    &&& buf.len() >= 9
    &&& 9 + head.length <= buf.len()
    &&& (head.kind == DATA ==> data_readable(head, payload))
    &&& (head.kind == HEADERS ==> headers_readable(head, payload))
    &&& (head.kind == PRIORITY ==> payload.len() >= 5)
    &&& (head.kind == WINDOW_UPDATE ==> payload.len() >= 4)
    &&& (head.kind == CONTINUATION ==> block_decodes(payload))
}

/// What a frame holds, as mathematical values.
pub enum FrameModel {
    Data { head: Head, data: Seq<u8> },
    Headers { head: Head, fields: Map<Seq<u8>, Seq<u8>> },
    Priority { head: Head, dependency: u32, weight: u8 },
    Settings { head: Head, settings: Seq<(u16, u32)> },
    WindowUpdate { head: Head, increment: u32 },
    Continuation { head: Head, fields: Map<Seq<u8>, Seq<u8>> },
    Unknown { payload: Seq<u8> },
}

/// What the frame at the start of `buf` holds, where it can be read.
pub open spec fn frame_model(buf: Seq<u8>) -> FrameModel {
    let head = head_from_bytes(buf);
    let payload = frame_payload(buf);
    if head.kind == DATA {
        FrameModel::Data { head: head, data: data_payload(head, payload) }
    } else if head.kind == HEADERS {
        FrameModel::Headers { head: head, fields: headers_payload_fields(head, payload) }
    } else if head.kind == PRIORITY {
        FrameModel::Priority {
            head: head,
            dependency: (be32(payload[0], payload[1], payload[2], payload[3]) % 0x8000_0000) as u32,
            weight: payload[4],
        }
    } else if head.kind == SETTINGS {
        FrameModel::Settings { head: head, settings: settings_list(payload) }
    } else if head.kind == WINDOW_UPDATE {
        FrameModel::WindowUpdate {
            head: head,
            increment: (be32(payload[0], payload[1], payload[2], payload[3]) % 0x8000_0000) as u32,
        }
    } else if head.kind == CONTINUATION {
        FrameModel::Continuation { head: head, fields: block_fields(payload) }
    } else {
        FrameModel::Unknown { payload: payload }
    }
}

/// Whether `f` is the frame read from the start of `buf`.
pub open spec fn frame_read_from(f: Frame, buf: Seq<u8>) -> bool {
    f.model() == frame_model(buf)
}

impl Frame {
    /// What this frame holds.
    pub open spec fn model(&self) -> FrameModel {
        match self {
            Frame::Data(d) => FrameModel::Data { head: d.head_of(), data: d.payload_of() },
            Frame::Headers(h) => FrameModel::Headers { head: h.head_of(), fields: h.fields_of() },
            Frame::Priority(p) => FrameModel::Priority {
                head: p.head_of(),
                dependency: p.dependency_of(),
                weight: p.weight_of(),
            },
            Frame::Settings(s) => FrameModel::Settings { head: s.head_of(), settings: s.settings_of() },
            Frame::WindowUpdate(w) => FrameModel::WindowUpdate {
                head: w.head_of(),
                increment: w.increment_of(),
            },
            Frame::Continuation(c) => FrameModel::Continuation {
                head: c.head_of(),
                fields: c.fields_of(),
            },
            Frame::Unknown(v) => FrameModel::Unknown { payload: v@ },
        }
    }

    /// Whether the frame at the start of `buf` can be read.
    pub fn is_readable(buf: &[u8]) -> (r: bool)
        ensures
            r == frame_readable(buf@),
    {
        if buf.len() < 9 {
            return false;
        }
        let head = Head::from(slice_to_vec(buf));
        assert(head == head_from_bytes(buf@));
        let end = 9 + head.length as usize;
        if end > buf.len() {
            return false;
        }
        let payload = slice_subrange(buf, 9, end);
        assert(payload@ == frame_payload(buf@));
        proof {
            assert(fits_bit_reader(payload@));
        }
        if head.kind == DATA {
            Data::try_from(head.clone(), slice_to_vec(payload)).is_some()
        } else if head.kind == HEADERS {
            Headers::try_from(head.clone(), slice_to_vec(payload)).is_some()
        } else if head.kind == PRIORITY {
            payload.len() >= 5
        } else if head.kind == WINDOW_UPDATE {
            payload.len() >= 4
        } else if head.kind == CONTINUATION {
            try_parse_header_block_fragment(payload).is_some()
        } else {
            true
        }
    }

    /// Reads the frame at the start of `buf`, or `None` where it cannot be read.
    pub fn try_parse(buf: &[u8]) -> (r: Option<(Frame, usize, u32)>)
        ensures
            r is Some <==> frame_readable(buf@),
            r matches Some(t) ==> frame_read_from(t.0, buf@) && t.1 == frame_len(buf@) && t.2
                == head_from_bytes(buf@).stream_id,
    {
        if Frame::is_readable(buf) {
            Some(Frame::parse(buf))
        } else {
            None
        }
    }

    /// Reads the frame at the start of `buf`; gives the frame, its length in
    /// bytes and its stream identifier.
    pub fn parse(buf: &[u8]) -> (r: (Frame, usize, u32))
        requires
            frame_readable(buf@),
        ensures
            frame_read_from(r.0, buf@),
            r.1 == frame_len(buf@),
            r.2 == head_from_bytes(buf@).stream_id,
    {
        let head = Head::from(slice_to_vec(buf));
        assert(head == head_from_bytes(buf@));
        let data = slice_subrange(buf, 9, 9 + head.length as usize);
        assert(data@ == frame_payload(buf@));
        proof {
            assert(fits_bit_reader(data@));
        }
        let frame = if head.kind == DATA {
            Frame::Data(Data::from(head.clone(), slice_to_vec(data)))
        } else if head.kind == HEADERS {
            Frame::Headers(Headers::from(head.clone(), slice_to_vec(data)))
        } else if head.kind == PRIORITY {
            Frame::Priority(Priority::from(head.clone(), slice_to_vec(data)))
        } else if head.kind == SETTINGS {
            Frame::Settings(Settings::from(head.clone(), slice_to_vec(data)))
        } else if head.kind == WINDOW_UPDATE {
            Frame::WindowUpdate(WindowUpdate::from(head.clone(), slice_to_vec(data)))
        } else if head.kind == CONTINUATION {
            Frame::Continuation(Continuation::from(head.clone(), slice_to_vec(data)))
        } else {
            Frame::Unknown(slice_to_vec(data))
        };
        (frame, 9 + head.length as usize, head.stream_id)
    }

    /// Whether this frame goes to a call: DATA, HEADERS and CONTINUATION frames do.
    pub fn is_call(&self) -> (r: bool)
        ensures
            r == (self is Data || self is Headers || self is Continuation),
    {
        match self {
            Frame::Data(_) | Frame::Headers(_) | Frame::Continuation(_) => true,
            _ => false,
        }
    }
}

/// A DATA frame written as its head and its data, with a length that fits in
/// 24 bits, a stream identifier of 31 bits and PADDED (flag 3) clear, is read
/// back as the same head and the same data, and takes the whole buffer.
pub proof fn lemma_data_roundtrip(h: Head, data: Seq<u8>)
    requires
        h.kind == DATA,
        h.length == data.len(),
        data.len() < 0x100_0000,
        h.stream_id < 0x8000_0000,
        !self::head::flag_bit(h.flags, 3),
    ensures
        frame_readable(self::head::head_bytes(h) + data),
        frame_len(self::head::head_bytes(h) + data) == 9 + data.len(),
        frame_model(self::head::head_bytes(h) + data) == (FrameModel::Data { head: h, data: data }),
{
    let b = self::head::head_bytes(h) + data;
    self::head::lemma_head_roundtrip(h);
    assert(b.subrange(0, 9) =~= self::head::head_bytes(h));
    assert(head_from_bytes(b) == head_from_bytes(self::head::head_bytes(h)));
    assert(frame_payload(b) =~= data);
}

} // verus!
