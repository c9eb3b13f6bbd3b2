//! Diagnostic reporters: each renders a batch of `(path, diagnostic)`
//! pairs in its wire shape. Which stream the text goes to is the caller's
//! choice.

pub mod github;
pub mod human;
pub mod json;

pub use github::GithubReporter;
pub use human::HumanReporter;
pub use json::JsonReporter;

use vstd::prelude::*;
use crate::lint::diagnostic::{Diagnostic, DiagnosticView};
use crate::lint::reporter::github::github_text;
use crate::lint::reporter::human::human_text;
use crate::lint::reporter::json::{row_of, JsonRow};

verus! {

/// Renders a batch of diagnostics.
pub trait Reporter {
    fn render(&self, diagnostics: &[(String, Diagnostic)]) -> String;
}

/// Output format choice.
#[derive(Debug, Clone, Copy, PartialEq, Eq, Structural)]
pub enum Format {
    /// Compiler-style messages, for people. The default.
    Human,
    /// JSON array of diagnostics.
    Json,
    /// GitHub Actions workflow command annotations.
    Github,
}

impl Format {
    /// Does this format write to standard error (people-facing) rather
    /// than standard output (machine-facing)?
    pub fn writes_to_stderr(self) -> (r: bool)
        ensures
            r == (self == Format::Human),
    {
        match self {
            Format::Human => true,
            Format::Json | Format::Github => false,
        }
    }
}

/// A batch rendered in some format: text ready to write, or the rows of
/// the JSON array, which the caller serialises.
#[derive(Debug)]
pub enum Report {
    Text(String),
    Rows(Vec<JsonRow>),
}

impl Format {
    /// Render a batch with this format's reporter.
    pub fn report(self, diagnostics: &[(String, Diagnostic)]) -> (r: Report)
        ensures
            self == Format::Human ==> (r matches Report::Text(t) && t@ == human_text(
                batch_view(diagnostics@),
            )),
            self == Format::Github ==> (r matches Report::Text(t) && t@ == github_text(
                batch_view(diagnostics@),
            )),
            self == Format::Json ==> (r matches Report::Rows(rows) && rows@.len() == diagnostics@.len()
                && forall|i: int|
                0 <= i < rows@.len() ==> row_of(
                    #[trigger] rows@[i],
                    batch_view(diagnostics@)[i].0,
                    batch_view(diagnostics@)[i].1,
                )),
    {
        match self {
            Format::Human => Report::Text(HumanReporter.render(diagnostics)),
            Format::Json => Report::Rows(JsonReporter.rows(diagnostics)),
            Format::Github => Report::Text(GithubReporter.render(diagnostics)),
        }
    }
}

impl Default for Format {
    fn default() -> (r: Format)
        ensures
            r == Format::Human,
    {
        Format::Human
    }
}

/// Models of a batch of `(path, diagnostic)` pairs.
pub open spec fn batch_view(ds: Seq<(String, Diagnostic)>) -> Seq<(Seq<char>, DiagnosticView)> {
    ds.map_values(|p: (String, Diagnostic)| (p.0@, p.1@))
}

} // verus!
