//! State synchronisation for a roaming terminal.

pub mod bytes;
pub mod classic;
pub mod client;
pub mod crypto;
pub mod network;
pub mod prediction;
pub mod proto;
pub mod server;
pub mod statesync;
pub mod terminal;
pub mod text;
pub mod time;
pub mod words;
pub mod wrapper;
