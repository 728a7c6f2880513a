//! The server: its options, the program that it runs, and what it tells the client.

pub mod daemon;
pub mod options;
pub mod pty;
pub mod state;
