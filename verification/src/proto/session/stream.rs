//! The streams of a session.

use vstd::prelude::*;

verus! {

/// The state of a stream.
#[allow(dead_code)]
enum State {
    Idle(),
    Open(),
}

/// A stream: its state, the stream it depends on and its priority.
#[allow(dead_code)]
pub struct Stream {
    state: State,
    stream_dependency: u32,
    priority: u8,
}

} // verus!
