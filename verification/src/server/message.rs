//! The answer to a request of the first frame layer.

use vstd::prelude::*;

verus! {

/// A message: its status.
#[derive(Debug)]
pub struct Message {
    pub status: u32,
}

impl Message {
    /// The message for a path without a handler: status 404.
    pub fn not_found() -> (r: Message)
        ensures
            r.status == 404,
    {
        Message { status: 404 }
    }
}

} // verus!
