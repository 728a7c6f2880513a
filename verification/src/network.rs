//! Packets: fragments, round-trip times, connections and the transport on top of them.

pub mod connection;
pub mod constants;
pub mod fragment;
pub mod rtt;
pub mod transport;
pub mod untimed;
