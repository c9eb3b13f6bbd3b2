//! The state machines behind the terminal UI: the text input widget, the
//! key map, and each screen's reaction to user intents. Drawing and the
//! terminal itself are the caller's.

pub mod args;
pub mod error;
pub mod keymap;
pub mod screens;
pub mod session;
pub mod text_input;
