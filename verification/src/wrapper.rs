//! The wrapper: how the server is started on the remote host, and what it answers.

pub mod connect;
pub mod launch;
pub mod remote;
pub mod ssh;
