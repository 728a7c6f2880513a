//! The screen and the escape sequences that draw it.

pub mod display;
pub mod escape;
pub mod laws;
pub mod placement;
pub mod runs;
pub mod snapshot;
pub mod terminal;
