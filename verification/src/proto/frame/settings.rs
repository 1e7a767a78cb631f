//! SETTINGS frames of the protocol layer.

use vstd::prelude::*;
use crate::bits::fits_bit_reader;
use crate::frame::settings::{Setting, setting_pairs, settings_list, read_settings, default_settings, default_setting_list};
use crate::proto::frame::SETTINGS;
use crate::proto::frame::head::Head;

verus! {

/// A SETTINGS frame: its head and its settings.
#[derive(Debug)]
pub struct Settings {
    head: Head,
    inner: Vec<Setting>,
}

impl Settings {
    /// The head of this frame.
    pub closed spec fn head_of(&self) -> Head {
        self.head
    }

    /// The settings of this frame.
    pub closed spec fn settings_of(&self) -> Seq<(u16, u32)> {
        setting_pairs(self.inner@)
    }

    /// Reads a SETTINGS frame from its head and payload.
    pub fn from(head: Head, buf: Vec<u8>) -> (r: Settings)
        requires
            fits_bit_reader(buf@),
        ensures
            r.head_of() == head,
            r.settings_of() == settings_list(buf@),
    {
        let settings = read_settings(buf.as_slice());
        Settings { head: head, inner: settings }
    }

    /// A SETTINGS frame on stream `stream_id` with the three default settings,
    /// its length six bytes for each.
    pub fn new(stream_id: u32) -> (r: Settings)
        ensures
            r.head_of() == (Head { length: 18, kind: SETTINGS, flags: 0, stream_id: stream_id }),
            r.settings_of() == default_settings(),
    {
        let settings = default_setting_list();
        Settings { head: Head { length: 18, kind: SETTINGS, flags: 0, stream_id: stream_id }, inner: settings }
    }
}

} // verus!
