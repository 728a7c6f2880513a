//! What the user is shown before the server has answered.

pub mod engine;
pub mod keystrokes;
pub mod laws;
pub mod notification;
pub mod overlay;
pub mod verdicts;
