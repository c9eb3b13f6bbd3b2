//! JSON reporter: one row per diagnostic, with the fields `file`, `line`
//! (left out when unknown), `rule`, `severity` (lower case: `info`,
//! `warning`, `error`) and `message`. The rows are what goes into the
//! JSON array; writing the array text is the serializer's work.

use vstd::prelude::*;
use crate::lint::diagnostic::{Diagnostic, DiagnosticView, Severity};
use crate::lint::reporter::batch_view;
use crate::text::{chars_of, string_of};

verus! {

/// The JSON name of a severity.
pub open spec fn severity_name_spec(s: Severity) -> Seq<char> {
    match s {
        Severity::Info => "info"@,
        Severity::Warning => "warning"@,
        Severity::Error => "error"@,
    }
}

/// The JSON name of a severity, in lower case.
pub fn severity_name(s: Severity) -> (r: &'static str)
    ensures
        r@ == severity_name_spec(s),
{
    match s {
        Severity::Info => "info",
        Severity::Warning => "warning",
        Severity::Error => "error",
    }
}

/// One element of the JSON array.
#[derive(Debug, Clone, PartialEq, Eq)]
pub struct JsonRow {
    pub file: String,
    /// `None` when the rule could not place the finding on a line; the
    /// field is then left out of the object.
    pub line: Option<u32>,
    pub rule: &'static str,
    pub severity: &'static str,
    pub message: String,
}

/// Does `row` carry exactly what the pair `(file, d)` says?
pub open spec fn row_of(row: JsonRow, file: Seq<char>, d: DiagnosticView) -> bool {
    &&& row.file@ == file
    &&& row.line == d.line
    &&& row.rule@ == d.rule
    &&& row.severity@ == severity_name_spec(d.severity)
    &&& row.message@ == d.message
}

pub struct JsonReporter;

impl JsonReporter {
    /// The rows of the JSON array, one per diagnostic, in order.
    pub fn rows(&self, diagnostics: &[(String, Diagnostic)]) -> (r: Vec<JsonRow>)
        ensures
            r@.len() == diagnostics@.len(),
            forall|i: int|
                0 <= i < r@.len() ==> row_of(
                    #[trigger] r@[i],
                    batch_view(diagnostics@)[i].0,
                    batch_view(diagnostics@)[i].1,
                ),
    {
        let ghost bv = batch_view(diagnostics@);
        let mut out: Vec<JsonRow> = Vec::new();
        let mut i: usize = 0;
        while i < diagnostics.len()
            invariant
                i <= diagnostics.len(),
                bv == batch_view(diagnostics@),
                out@.len() == i,
                forall|j: int| 0 <= j < i ==> row_of(#[trigger] out@[j], bv[j].0, bv[j].1),
            decreases diagnostics.len() - i,
        {
            let (path, diag) = (&diagnostics[i].0, &diagnostics[i].1);
            let row = JsonRow {
                file: string_of(&chars_of(path.as_str())),
                line: diag.line,
                rule: diag.rule,
                severity: severity_name(diag.severity),
                message: string_of(&chars_of(diag.message.as_str())),
            };
            assert(row_of(row, bv[i as int].0, bv[i as int].1));
            out.push(row);
            i = i + 1;
        }
        out
    }
}

} // verus!
