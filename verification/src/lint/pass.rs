//! The lint pass: walk the source, read it into a typed calendar where
//! possible, and run the registered rules in order.

use vstd::prelude::*;
use crate::lint::diagnostic::{diags_view, Diagnostic, DiagnosticView};
use crate::lint::rules::{all, registry, rules_diags, ctx_cal, ctx_scans, DiagnosticSink, LintContext, Rule};
use crate::lint::walker::{scans_view, walk_vevents, walk_vevents_spec};
use crate::parser::{parse_calendar, parse_calendar_spec};
use crate::vcalendar::{VCalendar, VCalendarView};

verus! {

/// The typed calendar a source reads as, if it reads as one.
pub open spec fn typed_view(source: Seq<char>) -> Option<VCalendarView> {
    match parse_calendar_spec(source) {
        Ok(c) => Some(c),
        Err(_) => None,
    }
}

/// Every diagnostic the registered rules produce for `source`, rule by
/// rule in registry order.
pub open spec fn lint_spec(source: Seq<char>) -> Seq<DiagnosticView> {
    rules_diags(registry(), source, walk_vevents_spec(source), typed_view(source))
}

/// Run the lint pass over `source` and return all diagnostics produced.
pub fn lint(source: &str) -> (r: Vec<Diagnostic>)
    ensures
        diags_view(r@) == lint_spec(source@),
{
    let scans = walk_vevents(source);
    let parsed = parse_calendar(source);
    let calendar: Option<&VCalendar> = match &parsed {
        Ok(c) => Some(c),
        Err(_) => None,
    };
    let ctx = LintContext { source, calendar, vevent_scans: scans.as_slice() };
    assert(ctx_scans(&ctx) == walk_vevents_spec(source@));
    assert(ctx_cal(&ctx) == typed_view(source@));
    let rules = all();
    let mut sink = DiagnosticSink::new();
    let mut i: usize = 0;
    while i < rules.len()
        invariant
            i <= rules.len(),
            rules@ == registry(),
            ctx.source@ == source@,
            ctx_scans(&ctx) == walk_vevents_spec(source@),
            ctx_cal(&ctx) == typed_view(source@),
            sink@ == rules_diags(rules@.take(i as int), source@, walk_vevents_spec(source@), typed_view(source@)),
        decreases rules.len() - i,
    {
        let ghost t = rules@.take(i + 1);
        assert(t.drop_last() =~= rules@.take(i as int));
        assert(t.last() == rules@[i as int]);
        rules[i].visit(&ctx, &mut sink);
        i = i + 1;
    }
    assert(rules@.take(i as int) =~= rules@);
    sink.into_vec()
}

} // verus!
