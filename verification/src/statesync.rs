//! The states that the two ends keep in step, and the differences sent between them.

pub mod complete;
pub mod emulated;
pub mod monitor;
pub mod replay;
pub mod sequences;
pub mod user_stream;
pub mod vt;
