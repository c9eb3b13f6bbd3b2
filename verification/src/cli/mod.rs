//! The command-line tool's own logic: its error type, the icon
//! extension, the one-line event rendering, date input, the option
//! mappings, and the decisions of each subcommand. Reading and writing
//! files and the terminal is left to the caller.

pub mod display;
pub mod error;
pub mod icons;
pub mod input;
pub mod presentation;
pub mod use_cases;
