//! The first frame layer: heads written through binary strings, settings,
//! HEADERS, DATA and PRIORITY frames.

pub mod binary;
pub mod data;
pub mod head;
pub mod headers;
pub mod priority;
pub mod settings;
pub mod util;

use vstd::prelude::*;

verus! {

/// A frame size.
pub type Size = u32;

/// Frame type DATA.
pub const DATA: u8 = 0;
/// Frame type HEADERS.
pub const HEADERS: u8 = 1;
/// Frame type PRIORITY.
pub const PRIORITY: u8 = 2;
/// Frame type RST_STREAM.
pub const RST_STREAM: u8 = 3;
/// Frame type SETTINGS.
pub const SETTINGS: u8 = 4;
/// Frame type PING, as this layer numbers it.
pub const PING: u8 = 5;
/// Frame type GOAWAY, as this layer numbers it.
pub const GOAWAY: u8 = 6;
/// Frame type WINDOW_UPDATE, as this layer numbers it.
pub const WINDOW_UPDATE: u8 = 7;
/// Frame type CONTINUATION, as this layer numbers it.
pub const CONTINUATION: u8 = 8;

} // verus!

use self::head::{Head, head_from_bytes};
use self::headers::{Headers, block_start};
use self::settings::{Settings, settings_list};
use vstd::slice::{slice_subrange, slice_to_vec};

verus! {

/// A frame of this layer: HEADERS, SETTINGS, or another type with its payload.
#[derive(Debug)]
pub enum Frame {
    Headers(Headers),
    Settings(Settings),
    Unknown(Vec<u8>),
}

/// The payload of the frame at the start of `buf`.
pub open spec fn layer_payload(buf: Seq<u8>) -> Seq<u8> {
    buf.subrange(9, 9 + head_from_bytes(buf).length)
}

/// Whether the frame at the start of `buf` can be read.
pub open spec fn layer_readable(buf: Seq<u8>) -> bool {
    let head = head_from_bytes(buf);
    let payload = layer_payload(buf);
    &&& buf.len() >= 9
    &&& 9 + head.length <= buf.len()
    &&& (head.kind == 1 ==> block_start(head.flags) <= payload.len())
}

impl Frame {
    /// Reads the frame at the start of `buf`; gives the frame and its length in bytes.
    pub fn parse(buf: Vec<u8>) -> (r: (Frame, usize))
        requires
            layer_readable(buf@),
        ensures
            r.1 == 9 + head_from_bytes(buf@).length,
            match r.0 {
                Frame::Headers(h) => head_from_bytes(buf@).kind == 1 && h.head_of() == head_from_bytes(
                    buf@,
                ) && h.fields_of() == Map::<Seq<char>, Seq<char>>::empty(),
                Frame::Settings(s) => head_from_bytes(buf@).kind == 4 && s.head_of()
                    == head_from_bytes(buf@) && s.settings_of() == settings_list(
                    layer_payload(buf@),
                ),
                Frame::Unknown(v) => head_from_bytes(buf@).kind != 1 && head_from_bytes(buf@).kind
                    != 4 && v@ == layer_payload(buf@),
            },
    {
        let head = Head::from(slice_to_vec(buf.as_slice()));
        assert(head == head_from_bytes(buf@));
        let data = slice_subrange(buf.as_slice(), 9, 9 + head.length as usize);
        assert(data@ == layer_payload(buf@));
        let frame = if head.kind == 1 {
            Frame::Headers(Headers::from(head.clone(), slice_to_vec(data)))
        } else if head.kind == 4 {
            Frame::Settings(Settings::from(head.clone(), slice_to_vec(data)))
        } else {
            Frame::Unknown(slice_to_vec(data))
        };
        (frame, 9 + head.length as usize)
    }
}

} // verus!
