//! The application layer: calls assembled from frames, the messages that
//! answer them, and the exchange of frames on one connection.

pub mod call;
pub mod message;
pub mod connection;
pub mod route;
