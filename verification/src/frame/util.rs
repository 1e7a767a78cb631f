//! Helpers of the first frame layer: the same powers, padding and binary
//! strings as the protocol layer, and the names of this layer's frame types.

use vstd::prelude::*;
use crate::frame::{DATA, HEADERS, PRIORITY, RST_STREAM, SETTINGS, PING, GOAWAY, WINDOW_UPDATE, CONTINUATION};
use crate::proto::util::{power, padded, byte_len, binary_bytes, binary_value};

verus! {

/// `n` to the power `t`, for results that fit in a `u32`.
pub fn pow(n: u32, t: u32) -> (r: u32)
    requires
        power(n as nat, t as nat) <= u32::MAX,
    ensures
        r == power(n as nat, t as nat),
{
    crate::proto::util::pow(n, t)
}

/// Puts zeros in front of `s` until it is `len` bytes long.
pub fn pad(s: String, len: usize) -> (r: String)
    ensures
        r@ == padded(s@, len as nat),
{
    crate::proto::util::pad(s, len)
}

/// Turns a binary string of ASCII characters, eight to a byte, into bytes.
pub fn bin_to_vec(s: String) -> (r: Vec<u8>)
    requires
        s.is_ascii(),
        byte_len(s@) % 8 == 0,
    ensures
        r@ == binary_bytes(s@),
        forall|k: int| 0 <= k < r@.len() ==> r@[k] == binary_value(s@.subrange(8 * k, 8 * k + 8)),
{
    crate::proto::util::bin_to_vec(s)
}

/// The name of frame type `i`, as this layer numbers the types.
pub open spec fn layer_type_label(i: u8) -> Seq<char> {
    if i == DATA {
        "DATA"@
    } else if i == HEADERS {
        "HEADERS"@
    } else if i == PRIORITY {
        "PRIORITY"@
    } else if i == RST_STREAM {
        "RST_STREAM"@
    } else if i == SETTINGS {
        "SETTINGS"@
    } else if i == PING {
        "PING"@
    } else if i == GOAWAY {
        "GOAWAY"@
    } else if i == WINDOW_UPDATE {
        "WINDOW_UPDATE"@
    } else if i == CONTINUATION {
        "CONTINUATION"@
    } else {
        "UNKNOWN"@
    }
}

/// The name of frame type `i`, as this layer numbers the types.
pub fn get_type(i: u8) -> (r: String)
    ensures
        r@ == layer_type_label(i),
{
    let r = if i == DATA {
        "DATA"
    } else if i == HEADERS {
        "HEADERS"
    } else if i == PRIORITY {
        "PRIORITY"
    } else if i == RST_STREAM {
        "RST_STREAM"
    } else if i == SETTINGS {
        "SETTINGS"
    } else if i == PING {
        "PING"
    } else if i == GOAWAY {
        "GOAWAY"
    } else if i == WINDOW_UPDATE {
        "WINDOW_UPDATE"
    } else if i == CONTINUATION {
        "CONTINUATION"
    } else {
        "UNKNOWN"
    };
    String::from_str(r)
}

} // verus!
