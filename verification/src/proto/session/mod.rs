//! The state of an HTTP/2 session.

pub mod stream;

use vstd::prelude::*;
use std::collections::HashMap;
use self::stream::Stream;

verus! {

/// A session: whether the connection preface was accepted, the settings
/// received and the streams.
pub struct Session {
    /// The handshake is done.
    pub accepted: bool,
    pub settings: HashMap<u16, u32>,
    pub streams: HashMap<u32, Stream>,
}

impl Session {
    /// A session whose preface has not been accepted, with no settings and no
    /// streams.
    pub fn new() -> (r: Session)
        ensures
            !r.accepted,
            r.settings@ == Map::<u16, u32>::empty(),
            r.streams@ == Map::<u32, Stream>::empty(),
    {
        Session { accepted: false, settings: HashMap::new(), streams: HashMap::new() }
    }

    /// Whether the preface was accepted.
    pub fn is_accepted(&self) -> (r: bool)
        ensures
            r == self.accepted,
    {
        return self.accepted;
    }

    /// Records that the preface was accepted.
    pub fn accept(&mut self)
        ensures
            final(self).accepted,
            final(self).settings@ == old(self).settings@,
            final(self).streams@ == old(self).streams@,
    {
        self.accepted = true;
    }
}

} // verus!
