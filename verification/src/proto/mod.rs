//! The HTTP/2 protocol layer: frames, header blocks, the connection preface
//! and the session state.

pub mod codec;
pub mod frame;
pub mod session;
pub mod util;

use vstd::prelude::*;

verus! {

/// The connection preface a client sends first:
/// `PRI * HTTP/2.0\r\n\r\nSM\r\n\r\n`.
pub open spec fn preface_bytes() -> Seq<u8> {
    seq![
        0x50u8, 0x52, 0x49, 0x20, 0x2a, 0x20, 0x48, 0x54, 0x54, 0x50, 0x2f, 0x32, 0x2e, 0x30,
        0x0d, 0x0a, 0x0d, 0x0a, 0x53, 0x4d, 0x0d, 0x0a, 0x0d, 0x0a,
    ]
}

/// The bytes of the connection preface.
pub fn preface() -> (r: Vec<u8>)
    ensures
        r@ == preface_bytes(),
{
    let r = vec![
        0x50u8, 0x52, 0x49, 0x20, 0x2a, 0x20, 0x48, 0x54, 0x54, 0x50, 0x2f, 0x32, 0x2e, 0x30,
        0x0d, 0x0a, 0x0d, 0x0a, 0x53, 0x4d, 0x0d, 0x0a, 0x0d, 0x0a,
    ];
    assert(r@ =~= preface_bytes());
    r
}

/// Whether `buf` starts with the connection preface; only its first 24 bytes
/// are looked at.
pub fn handshake(buf: &[u8]) -> (r: bool)
    requires
        buf@.len() >= 24,
    ensures
        r == (buf@.subrange(0, 24) == preface_bytes()),
{
    let p = preface();
    let mut i: usize = 0;
    while i < 24
        invariant
            i <= 24,
            buf@.len() >= 24,
            p@ == preface_bytes(),
            forall|j: int| 0 <= j < i ==> buf@[j] == p@[j],
        decreases 24 - i,
    {
        if buf[i] != p[i] {
            assert(buf@.subrange(0, 24)[i as int] != preface_bytes()[i as int]);
            return false;
        }
        i = i + 1;
    }
    assert(buf@.subrange(0, 24) =~= preface_bytes());
    true
}

} // verus!
