//! The messages exchanged, in the wire format of protocol buffers.

pub mod client;
pub mod fault;
pub mod host;
pub mod layout;
pub mod resize;
pub mod transport;
pub mod wire;
