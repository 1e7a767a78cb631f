//! A small HTTP/2 library: frame heads, frame payloads, header blocks and the
//! per-connection exchange of frames, with their contracts proved by Verus.

pub mod bits;
pub mod proto;
pub mod fields;
pub mod frame;
pub mod app;
pub mod text;
pub mod codec;
pub mod protocol;
pub mod server;
pub mod connection;
pub mod keys;
