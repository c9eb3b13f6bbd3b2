//! What every lint rule produces: one finding of one rule against one
//! input, with a severity that decides the process exit code.

use vstd::prelude::*;
use crate::text::{chars_of, string_of};

verus! {

/// Severity of a single diagnostic.
#[derive(Debug, Clone, Copy, PartialEq, Eq, Structural)]
pub enum Severity {
    Info,
    Warning,
    Error,
}

/// A single finding.
#[derive(Debug, Clone, PartialEq, Eq)]
pub struct Diagnostic {
    /// Stable rule identifier (e.g. `"RFC5545/required-uid"`).
    pub rule: &'static str,
    pub severity: Severity,
    /// 1-based source line of the offending construct, if known.
    pub line: Option<u32>,
    pub message: String,
}

/// Mathematical model of a `Diagnostic`.
pub struct DiagnosticView {
    pub rule: Seq<char>,
    pub severity: Severity,
    pub line: Option<u32>,
    pub message: Seq<char>,
}

impl View for Diagnostic {
    type V = DiagnosticView;

    open spec fn view(&self) -> DiagnosticView {
        DiagnosticView {
            rule: self.rule@,
            severity: self.severity,
            line: self.line,
            message: self.message@,
        }
    }
}

/// Models of a sequence of diagnostics.
pub open spec fn diags_view(ds: Seq<Diagnostic>) -> Seq<DiagnosticView> {
    ds.map_values(|d: Diagnostic| d@)
}

impl Diagnostic {
    /// A diagnostic with no line.
    pub fn new(rule: &'static str, severity: Severity, message: &str) -> (r: Diagnostic)
        ensures
            r@ == (DiagnosticView { rule: rule@, severity, line: None, message: message@ }),
    {
        Diagnostic { rule, severity, line: None, message: string_of(&chars_of(message)) }
    }

    /// This diagnostic anchored at `line`.
    pub fn with_line(self, line: u32) -> (r: Diagnostic)
        ensures
            r@ == (DiagnosticView { line: Some(line), ..self@ }),
    {
        let mut d = self;
        d.line = Some(line);
        d
    }
}

/// Does any diagnostic carry severity `s`?
pub open spec fn has_severity(ds: Seq<DiagnosticView>, s: Severity) -> bool {
    exists|i: int| 0 <= i < ds.len() && #[trigger] ds[i].severity == s
}

/// The process exit code for a batch of diagnostics: `2` when there is an
/// error, or a warning and `warnings_as_errors`; else `1` when there is a
/// warning; else `0`.
pub open spec fn exit_code_spec(ds: Seq<DiagnosticView>, warnings_as_errors: bool) -> i32 {
    if has_severity(ds, Severity::Error) || (warnings_as_errors && has_severity(ds, Severity::Warning)) {
        2
    } else if has_severity(ds, Severity::Warning) {
        1
    } else {
        0
    }
}

fn any_severity(diags: &[Diagnostic], s: Severity) -> (r: bool)
    ensures
        r == has_severity(diags_view(diags@), s),
{
    let ghost dv = diags_view(diags@);
    let mut i: usize = 0;
    while i < diags.len()
        invariant
            i <= diags.len(),
            dv == diags_view(diags@),
            forall|j: int| 0 <= j < i ==> dv[j].severity != s,
        decreases diags.len() - i,
    {
        if diags[i].severity == s {
            assert(dv[i as int].severity == s);
            return true;
        }
        i = i + 1;
    }
    false
}

/// Compute the process exit code for a batch of diagnostics.
pub fn exit_code_for(diags: &[Diagnostic], warnings_as_errors: bool) -> (r: i32)
    ensures
        r == exit_code_spec(diags_view(diags@), warnings_as_errors),
{
    let has_error = any_severity(diags, Severity::Error);
    let has_warning = any_severity(diags, Severity::Warning);
    if has_error || (warnings_as_errors && has_warning) {
        2
    } else if has_warning {
        1
    } else {
        0
    }
}

/// Is the diagnostic shown? `--quiet` hides info-level ones.
pub fn shown(d: &Diagnostic, quiet: bool) -> (r: bool)
    ensures
        r == !(quiet && d.severity == Severity::Info),
{
    !(quiet && d.severity == Severity::Info)
}

/// The exit code of a run over several inputs: 3 when an input could not
/// be read, else the code of the diagnostics shown.
pub fn run_exit_code(diags: &[Diagnostic], warnings_as_errors: bool, unreadable: bool) -> (r: i32)
    ensures
        r == if unreadable {
            3
        } else {
            exit_code_spec(diags_view(diags@), warnings_as_errors)
        },
{
    if unreadable {
        3
    } else {
        exit_code_for(diags, warnings_as_errors)
    }
}

} // verus!
