//! The transports that carry the protocol.

pub mod http;
pub mod lifecycle;
