//! Lint rules for iCalendar sources: RFC 5545 cardinality and required
//! fields, vendor-extension hygiene, TEXT-value encoding and the physical
//! structure of the file.

pub mod diagnostic;

pub use diagnostic::{exit_code_for, Diagnostic, Severity};
pub mod walker;
pub mod rules;
pub mod pass;

pub use pass::lint;
pub mod reporter;
