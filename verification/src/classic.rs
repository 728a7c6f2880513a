//! The classic programs: `mosh`, `mosh-client` and `mosh-server`.
//!
//! They talk over the untimed connection, without a handshake and without an end that the other side
//! is told of.

pub mod client;
pub mod server;
pub mod wrapper;
