//! `icskit` — an iCalendar (RFC 5545) toolkit with machine-checked contracts.
//!
//! The library covers the text layer of the format (line unfolding, logical
//! line tokenization, TEXT escapes), the typed calendar model with its parser
//! and formatter, calendar queries, the lint rules, the decisions of the
//! command-line use cases, and the state machines behind the terminal UI.

pub mod text;
pub mod number;
pub mod escape;
pub mod unfold;
pub mod raw;
pub mod line;
pub mod date;
pub mod error;
pub mod profile;
pub mod event;
pub mod vcalendar;
pub mod parser;
pub mod calendar;
pub mod roundtrip;
pub mod document_roundtrip;
pub mod query;
pub mod lint;
pub mod cli;
pub mod tui;
