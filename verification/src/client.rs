//! The client: keys to bytes, what the server sent, and when to do what.

pub mod host_message;
pub mod input;
pub mod keys;
pub mod predicted;
pub mod state;
