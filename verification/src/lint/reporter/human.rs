//! Compiler-style reporter, one line per diagnostic:
//! `path:LINE: severity: [rule] message`, with `:LINE` omitted when the
//! line is unknown.

use vstd::prelude::*;
use crate::date::{decimal, decimal_chars};
use crate::error::push_chars;
use crate::lint::diagnostic::{Diagnostic, DiagnosticView, Severity};
use crate::lint::reporter::{batch_view, Reporter};
use crate::text::{chars_of, string_of};

verus! {

pub open spec fn severity_label_spec(s: Severity) -> Seq<char> {
    match s {
        Severity::Info => "info"@,
        Severity::Warning => "warning"@,
        Severity::Error => "error"@,
    }
}

/// The label of a severity.
pub fn severity_label(s: Severity) -> (r: &'static str)
    ensures
        r@ == severity_label_spec(s),
{
    match s {
        Severity::Info => "info",
        Severity::Warning => "warning",
        Severity::Error => "error",
    }
}

/// One rendered line.
pub open spec fn human_line(path: Seq<char>, d: DiagnosticView) -> Seq<char> {
    let tail = ": "@ + severity_label_spec(d.severity) + ": ["@ + d.rule + "] "@ + d.message + "\n"@;
    match d.line {
        Some(n) => path + ":"@ + decimal(n as nat) + tail,
        None => path + tail,
    }
}

/// The rendered batch.
pub open spec fn human_text(ds: Seq<(Seq<char>, DiagnosticView)>) -> Seq<char>
    decreases ds.len(),
{
    if ds.len() == 0 {
        seq![]
    } else {
        human_text(ds.drop_last()) + human_line(ds.last().0, ds.last().1)
    }
}

fn push_str(out: &mut Vec<char>, s: &str)
    ensures
        final(out)@ == old(out)@ + s@,
{
    push_chars(out, &chars_of(s));
}

pub struct HumanReporter;

impl Reporter for HumanReporter {
    fn render(&self, diagnostics: &[(String, Diagnostic)]) -> (r: String)
        ensures
            r@ == human_text(batch_view(diagnostics@)),
    {
        let ghost bv = batch_view(diagnostics@);
        let mut out: Vec<char> = Vec::new();
        let mut i: usize = 0;
        while i < diagnostics.len()
            invariant
                i <= diagnostics.len(),
                bv == batch_view(diagnostics@),
                out@ == human_text(bv.take(i as int)),
            decreases diagnostics.len() - i,
        {
            let ghost t = bv.take(i + 1);
            assert(t.drop_last() =~= bv.take(i as int));
            assert(t.last() == (diagnostics@[i as int].0@, diagnostics@[i as int].1@));
            let (path, diag) = (&diagnostics[i].0, &diagnostics[i].1);
            push_str(&mut out, path.as_str());
            match diag.line {
                Some(n) => {
                    push_str(&mut out, ":");
                    push_chars(&mut out, &decimal_chars(n as u64));
                },
                None => {},
            }
            push_str(&mut out, ": ");
            push_str(&mut out, severity_label(diag.severity));
            push_str(&mut out, ": [");
            push_str(&mut out, diag.rule);
            push_str(&mut out, "] ");
            push_str(&mut out, diag.message.as_str());
            push_str(&mut out, "\n");
            i = i + 1;
        }
        assert(bv.take(i as int) =~= bv);
        string_of(&out)
    }
}

} // verus!
