//! The server side of the first frame layer: its messages.

pub mod message;
