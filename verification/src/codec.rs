//! A codec that passes bytes through whole.

use vstd::prelude::*;

verus! {

/// A codec whose items are the byte strings it is given.
pub struct Codec;

impl Codec {
    /// Appends `msg` to the output buffer.
    pub fn encode(&mut self, msg: Vec<u8>, buf: &mut Vec<u8>)
        ensures
            final(buf)@ == old(buf)@ + msg@,
    {
        let mut msg = msg;
        buf.append(&mut msg);
    }

    /// Takes everything buffered as one item; nothing when nothing is buffered.
    pub fn decode(&mut self, buf: &mut Vec<u8>) -> (r: Option<Vec<u8>>)
        ensures
            old(buf)@.len() > 0 ==> (r matches Some(v) && v@ == old(buf)@ && final(buf)@.len() == 0),
            old(buf)@.len() == 0 ==> r is None && final(buf)@ == old(buf)@,
    {
        if buf.len() > 0 {
            let mut s = Vec::new();
            std::mem::swap(&mut s, buf);
            Some(s)
        } else {
            None
        }
    }
}

} // verus!
