//! `RFC5545/*` rules: cardinality and required fields of `VEVENT`.

use vstd::prelude::*;
use crate::date::{dashed_date_chars, dashed_date_text, decimal, decimal_chars};
use crate::error::push_chars;
use crate::lint::diagnostic::{DiagnosticView, Severity};
use crate::lint::rules::{
    concat_str, ctx_cal, ctx_scans, diag_at, lemma_per_scan_step, per_scan, push_at, vevent_ref,
    vevent_ref_chars, DiagnosticSink, LintContext, Rule,
};
use crate::lint::walker::{has_spec, lines_of_spec, RawVEventScan, RawVEventScanView};
use crate::text::{chars_of, trim_chars, trim_spec};
use crate::vcalendar::VCalendarView;

verus! {

/// The numbers of `s` in decimal, separated by `, `.
pub open spec fn joined_numbers(s: Seq<u32>) -> Seq<char>
    decreases s.len(),
{
    if s.len() == 0 {
        seq![]
    } else if s.len() == 1 {
        decimal(s[0] as nat)
    } else {
        joined_numbers(s.drop_last()) + ", "@ + decimal(s.last() as nat)
    }
}

/// The first element of `s`, or `d` when it is empty.
pub open spec fn first_or(s: Seq<u32>, d: u32) -> u32 {
    if s.len() > 0 {
        s[0]
    } else {
        d
    }
}

fn joined_numbers_chars(s: &Vec<u32>) -> (r: Vec<char>)
    ensures
        r@ == joined_numbers(s@),
{
    let mut out: Vec<char> = Vec::new();
    let mut i: usize = 0;
    assert(s@.take(0) =~= seq![]);
    while i < s.len()
        invariant
            i <= s.len(),
            out@ == joined_numbers(s@.take(i as int)),
        decreases s.len() - i,
    {
        let ghost t = s@.take(i + 1);
        assert(t.drop_last() =~= s@.take(i as int));
        assert(t.last() == s@[i as int]);
        if i > 0 {
            push_chars(&mut out, &chars_of(", "));
        } else {
            assert(t[0] == s@[0]);
        }
        push_chars(&mut out, &decimal_chars(s[i] as u64));
        i = i + 1;
    }
    assert(s@.take(i as int) =~= s@);
    out
}

fn first_or_exec(s: &Vec<u32>, d: u32) -> (r: u32)
    ensures
        r == first_or(s@, d),
{
    if s.len() > 0 {
        s[0]
    } else {
        d
    }
}

/// A scan that lacks `name` gets one diagnostic at its `BEGIN:VEVENT`
/// line: `VEVENT #n` followed by `tail`.
pub open spec fn required_check(rule: Seq<char>, name: Seq<char>, tail: Seq<char>) -> spec_fn(
    int,
    RawVEventScanView,
) -> Seq<DiagnosticView> {
    |idx: int, scan: RawVEventScanView|
        if !has_spec(scan.properties, name) {
            seq![diag_at(rule, Severity::Error, vevent_ref(idx) + tail, scan.begin_line)]
        } else {
            seq![]
        }
}

/// A scan with more than one `name` gets one diagnostic at the second
/// occurrence, naming the count and every line.
pub open spec fn duplicate_check(rule: Seq<char>, name: Seq<char>) -> spec_fn(int, RawVEventScanView) -> Seq<
    DiagnosticView,
> {
    |idx: int, scan: RawVEventScanView|
        {
            let occ = lines_of_spec(scan.properties, name);
            if occ.len() > 1 {
                seq![
                    diag_at(
                        rule,
                        Severity::Error,
                        vevent_ref(idx) + " has "@ + decimal(occ.len()) + " "@ + name
                            + " occurrences (lines "@ + joined_numbers(occ)
                            + "); RFC 5545 §3.6.1 allows at most one"@,
                        occ[1],
                    ),
                ]
            } else {
                seq![]
            }
        }
}

/// Findings of `RFC5545/required-uid`: a scan without `UID`, or, with a
/// typed calendar, an event whose `UID` is blank.
pub open spec fn required_uid_check(cal: Option<VCalendarView>) -> spec_fn(int, RawVEventScanView) -> Seq<
    DiagnosticView,
> {
    |idx: int, scan: RawVEventScanView|
        if !has_spec(scan.properties, "UID"@) {
            seq![
                diag_at(
                    "RFC5545/required-uid"@,
                    Severity::Error,
                    vevent_ref(idx) + " has no UID (RFC 5545 §3.6.1 requires UID on every VEVENT)"@,
                    scan.begin_line,
                ),
            ]
        } else {
            match cal {
                Some(c) => if 0 <= idx < c.events.len() && trim_spec(c.events[idx].uid).len() == 0 {
                    seq![
                        diag_at(
                            "RFC5545/required-uid"@,
                            Severity::Error,
                            vevent_ref(idx) + " has an empty UID (RFC 5545 §3.6.1)"@,
                            scan.begin_line,
                        ),
                    ]
                } else {
                    seq![]
                },
                None => seq![],
            }
        }
}

pub open spec fn required_uid_diags(scans: Seq<RawVEventScanView>, cal: Option<VCalendarView>) -> Seq<
    DiagnosticView,
> {
    per_scan(scans, required_uid_check(cal))
}

pub open spec fn required_dtstamp_diags(scans: Seq<RawVEventScanView>) -> Seq<DiagnosticView> {
    per_scan(
        scans,
        required_check(
            "RFC5545/required-dtstamp"@,
            "DTSTAMP"@,
            " has no DTSTAMP (RFC 5545 §3.6.1 requires DTSTAMP on every VEVENT)"@,
        ),
    )
}

pub open spec fn required_dtstart_diags(scans: Seq<RawVEventScanView>) -> Seq<DiagnosticView> {
    per_scan(
        scans,
        required_check(
            "RFC5545/required-dtstart"@,
            "DTSTART"@,
            " has no DTSTART (RFC 5545 §3.6.1 requires DTSTART when VCALENDAR has no METHOD)"@,
        ),
    )
}

pub open spec fn duplicate_summary_diags(scans: Seq<RawVEventScanView>) -> Seq<DiagnosticView> {
    per_scan(scans, duplicate_check("RFC5545/duplicate-summary"@, "SUMMARY"@))
}

pub open spec fn duplicate_dtstart_diags(scans: Seq<RawVEventScanView>) -> Seq<DiagnosticView> {
    per_scan(scans, duplicate_check("RFC5545/duplicate-dtstart"@, "DTSTART"@))
}

/// Findings of `RFC5545/conflicting-end-and-duration`: a scan with both
/// `DTEND` and `DURATION`, anchored at the first `DURATION`.
pub open spec fn conflicting_check() -> spec_fn(int, RawVEventScanView) -> Seq<DiagnosticView> {
    |idx: int, scan: RawVEventScanView|
        if has_spec(scan.properties, "DTEND"@) && has_spec(scan.properties, "DURATION"@) {
            let dur = lines_of_spec(scan.properties, "DURATION"@);
            let end = lines_of_spec(scan.properties, "DTEND"@);
            let line = if dur.len() > 0 {
                dur[0]
            } else {
                first_or(end, scan.begin_line)
            };
            seq![
                diag_at(
                    "RFC5545/conflicting-end-and-duration"@,
                    Severity::Error,
                    vevent_ref(idx) + " has both DTEND and DURATION; RFC 5545 §3.6.1 allows only one"@,
                    line,
                ),
            ]
        } else {
            seq![]
        }
}

pub open spec fn conflicting_end_and_duration_diags(scans: Seq<RawVEventScanView>) -> Seq<DiagnosticView> {
    per_scan(scans, conflicting_check())
}

/// Findings of `RFC5545/end-before-start` against a typed calendar: an
/// event whose `DTEND` is not later than its `DTSTART`.
pub open spec fn end_before_start_check(c: VCalendarView) -> spec_fn(int, RawVEventScanView) -> Seq<
    DiagnosticView,
> {
    |idx: int, scan: RawVEventScanView|
        if 0 <= idx < c.events.len() && (c.events[idx].dtend.before(c.events[idx].dtstart)
            || c.events[idx].dtend == c.events[idx].dtstart) {
            seq![
                diag_at(
                    "RFC5545/end-before-start"@,
                    Severity::Error,
                    vevent_ref(idx) + " has DTEND ("@ + dashed_date_text(c.events[idx].dtend)
                        + ") not later than DTSTART ("@ + dashed_date_text(c.events[idx].dtstart)
                        + "); RFC 5545 §3.8.2.2 requires DTEND > DTSTART"@,
                    first_or(lines_of_spec(scan.properties, "DTEND"@), scan.begin_line),
                ),
            ]
        } else {
            seq![]
        }
}

pub open spec fn end_before_start_diags(scans: Seq<RawVEventScanView>, cal: Option<VCalendarView>) -> Seq<
    DiagnosticView,
> {
    match cal {
        Some(c) => per_scan(scans, end_before_start_check(c)),
        None => seq![],
    }
}

/// Findings of `RFC5545/empty-summary` against a typed calendar: an event
/// that has a `SUMMARY` line whose value is blank.
pub open spec fn empty_summary_check(c: VCalendarView) -> spec_fn(int, RawVEventScanView) -> Seq<
    DiagnosticView,
> {
    |idx: int, scan: RawVEventScanView|
        if has_spec(scan.properties, "SUMMARY"@) && 0 <= idx < c.events.len() && trim_spec(
            c.events[idx].summary,
        ).len() == 0 {
            seq![
                diag_at(
                    "RFC5545/empty-summary"@,
                    Severity::Warning,
                    vevent_ref(idx)
                        + " has an empty SUMMARY value; either drop the property or fill it in"@,
                    first_or(lines_of_spec(scan.properties, "SUMMARY"@), scan.begin_line),
                ),
            ]
        } else {
            seq![]
        }
}

pub open spec fn empty_summary_diags(scans: Seq<RawVEventScanView>, cal: Option<VCalendarView>) -> Seq<
    DiagnosticView,
> {
    match cal {
        Some(c) => per_scan(scans, empty_summary_check(c)),
        None => seq![],
    }
}

fn visit_required(
    ctx: &LintContext<'_>,
    sink: &mut DiagnosticSink,
    rule: &'static str,
    name: &str,
    tail: &str,
)
    ensures
        final(sink)@ == old(sink)@ + per_scan(ctx_scans(ctx), required_check(rule@, name@, tail@)),
{
    let ghost scans = ctx_scans(ctx);
    let ghost f = required_check(rule@, name@, tail@);
    let ghost start = sink@;
    let mut idx: usize = 0;
    while idx < ctx.vevent_scans.len()
        invariant
            idx <= ctx.vevent_scans.len(),
            scans == ctx_scans(ctx),
            f == required_check(rule@, name@, tail@),
            sink@ == start + per_scan(scans.take(idx as int), f),
        decreases ctx.vevent_scans.len() - idx,
    {
        proof {
            lemma_per_scan_step(scans, f, idx as int);
        }
        let scan = &ctx.vevent_scans[idx];
        assert(scans[idx as int] == scan@);
        let ghost before = sink@;
        if !scan.has(name) {
            push_at(sink, rule, Severity::Error, &concat_str(vevent_ref_chars(idx), tail), scan.begin_line);
        }
        assert(sink@ =~= before + f(idx as int, scans[idx as int]));
        idx = idx + 1;
    }
    assert(scans.take(idx as int) =~= scans);
}

fn visit_duplicate(ctx: &LintContext<'_>, sink: &mut DiagnosticSink, rule: &'static str, name: &str)
    ensures
        final(sink)@ == old(sink)@ + per_scan(ctx_scans(ctx), duplicate_check(rule@, name@)),
{
    let ghost scans = ctx_scans(ctx);
    let ghost f = duplicate_check(rule@, name@);
    let ghost start = sink@;
    let mut idx: usize = 0;
    while idx < ctx.vevent_scans.len()
        invariant
            idx <= ctx.vevent_scans.len(),
            scans == ctx_scans(ctx),
            f == duplicate_check(rule@, name@),
            sink@ == start + per_scan(scans.take(idx as int), f),
        decreases ctx.vevent_scans.len() - idx,
    {
        proof {
            lemma_per_scan_step(scans, f, idx as int);
        }
        let scan = &ctx.vevent_scans[idx];
        assert(scans[idx as int] == scan@);
        let ghost before = sink@;
        let occurrences = scan.lines_of(name);
        if occurrences.len() > 1 {
            let mut msg = concat_str(vevent_ref_chars(idx), " has ");
            push_chars(&mut msg, &decimal_chars(occurrences.len() as u64));
            push_chars(&mut msg, &chars_of(" "));
            push_chars(&mut msg, &chars_of(name));
            push_chars(&mut msg, &chars_of(" occurrences (lines "));
            push_chars(&mut msg, &joined_numbers_chars(&occurrences));
            push_chars(&mut msg, &chars_of("); RFC 5545 §3.6.1 allows at most one"));
            push_at(sink, rule, Severity::Error, &msg, occurrences[1]);
        }
        assert(sink@ =~= before + f(idx as int, scans[idx as int]));
        idx = idx + 1;
    }
    assert(scans.take(idx as int) =~= scans);
}

/// `RFC5545/required-uid` — RFC 5545 §3.6.1: `UID` is REQUIRED on every
/// `VEVENT`.
pub struct RequiredUid;

impl Rule for RequiredUid {
    fn id(&self) -> (r: &'static str)
        ensures
            r@ == "RFC5545/required-uid"@,
    {
        "RFC5545/required-uid"
    }

    fn default_severity(&self) -> (r: Severity)
        ensures
            r == Severity::Error,
    {
        Severity::Error
    }

    fn visit(&self, ctx: &LintContext<'_>, sink: &mut DiagnosticSink)
        ensures
            final(sink)@ == old(sink)@ + required_uid_diags(ctx_scans(ctx), ctx_cal(ctx)),
    {
        let ghost scans = ctx_scans(ctx);
        let ghost f = required_uid_check(ctx_cal(ctx));
        let ghost start = sink@;
        let mut idx: usize = 0;
        while idx < ctx.vevent_scans.len()
            invariant
                idx <= ctx.vevent_scans.len(),
                scans == ctx_scans(ctx),
                f == required_uid_check(ctx_cal(ctx)),
                sink@ == start + per_scan(scans.take(idx as int), f),
            decreases ctx.vevent_scans.len() - idx,
        {
            proof {
                lemma_per_scan_step(scans, f, idx as int);
            }
            let scan = &ctx.vevent_scans[idx];
            assert(scans[idx as int] == scan@);
            let ghost before = sink@;
            if !scan.has("UID") {
                push_at(
                    sink,
                    "RFC5545/required-uid",
                    Severity::Error,
                    &concat_str(
                        vevent_ref_chars(idx),
                        " has no UID (RFC 5545 §3.6.1 requires UID on every VEVENT)",
                    ),
                    scan.begin_line,
                );
            } else {
                match ctx.calendar {
                    Some(cal) => {
                        if idx < cal.events.len() {
                            assert(cal@.events[idx as int] == cal.events[idx as int]@);
                            let t = trim_chars(&chars_of(cal.events[idx].uid.as_str()));
                            if t.len() == 0 {
                                push_at(
                                    sink,
                                    "RFC5545/required-uid",
                                    Severity::Error,
                                    &concat_str(vevent_ref_chars(idx), " has an empty UID (RFC 5545 §3.6.1)"),
                                    scan.begin_line,
                                );
                            }
                        }
                    },
                    None => {},
                }
            }
            assert(sink@ =~= before + f(idx as int, scans[idx as int]));
            idx = idx + 1;
        }
        assert(scans.take(idx as int) =~= scans);
    }
}

/// `RFC5545/required-dtstamp` — RFC 5545 §3.6.1: `DTSTAMP` is REQUIRED on
/// every `VEVENT`.
pub struct RequiredDtstamp;

impl Rule for RequiredDtstamp {
    fn id(&self) -> (r: &'static str)
        ensures
            r@ == "RFC5545/required-dtstamp"@,
    {
        "RFC5545/required-dtstamp"
    }

    fn default_severity(&self) -> (r: Severity)
        ensures
            r == Severity::Error,
    {
        Severity::Error
    }

    fn visit(&self, ctx: &LintContext<'_>, sink: &mut DiagnosticSink)
        ensures
            final(sink)@ == old(sink)@ + required_dtstamp_diags(ctx_scans(ctx)),
    {
        visit_required(
            ctx,
            sink,
            "RFC5545/required-dtstamp",
            "DTSTAMP",
            " has no DTSTAMP (RFC 5545 §3.6.1 requires DTSTAMP on every VEVENT)",
        );
    }
}

/// `RFC5545/duplicate-summary` — RFC 5545 §3.6.1: `SUMMARY` is allowed at
/// most once per `VEVENT`.
pub struct DuplicateSummary;

impl Rule for DuplicateSummary {
    fn id(&self) -> (r: &'static str)
        ensures
            r@ == "RFC5545/duplicate-summary"@,
    {
        "RFC5545/duplicate-summary"
    }

    fn default_severity(&self) -> (r: Severity)
        ensures
            r == Severity::Error,
    {
        Severity::Error
    }

    fn visit(&self, ctx: &LintContext<'_>, sink: &mut DiagnosticSink)
        ensures
            final(sink)@ == old(sink)@ + duplicate_summary_diags(ctx_scans(ctx)),
    {
        visit_duplicate(ctx, sink, "RFC5545/duplicate-summary", "SUMMARY");
    }
}

/// `RFC5545/required-dtstart` — RFC 5545 §3.6.1: `DTSTART` is REQUIRED on
/// every `VEVENT` of a calendar without `METHOD`.
pub struct RequiredDtstart;

impl Rule for RequiredDtstart {
    fn id(&self) -> (r: &'static str)
        ensures
            r@ == "RFC5545/required-dtstart"@,
    {
        "RFC5545/required-dtstart"
    }

    fn default_severity(&self) -> (r: Severity)
        ensures
            r == Severity::Error,
    {
        Severity::Error
    }

    fn visit(&self, ctx: &LintContext<'_>, sink: &mut DiagnosticSink)
        ensures
            final(sink)@ == old(sink)@ + required_dtstart_diags(ctx_scans(ctx)),
    {
        visit_required(
            ctx,
            sink,
            "RFC5545/required-dtstart",
            "DTSTART",
            " has no DTSTART (RFC 5545 §3.6.1 requires DTSTART when VCALENDAR has no METHOD)",
        );
    }
}

/// `RFC5545/duplicate-dtstart` — RFC 5545 §3.6.1: `DTSTART` is allowed at
/// most once per `VEVENT`.
pub struct DuplicateDtstart;

impl Rule for DuplicateDtstart {
    fn id(&self) -> (r: &'static str)
        ensures
            r@ == "RFC5545/duplicate-dtstart"@,
    {
        "RFC5545/duplicate-dtstart"
    }

    fn default_severity(&self) -> (r: Severity)
        ensures
            r == Severity::Error,
    {
        Severity::Error
    }

    fn visit(&self, ctx: &LintContext<'_>, sink: &mut DiagnosticSink)
        ensures
            final(sink)@ == old(sink)@ + duplicate_dtstart_diags(ctx_scans(ctx)),
    {
        visit_duplicate(ctx, sink, "RFC5545/duplicate-dtstart", "DTSTART");
    }
}

/// `RFC5545/conflicting-end-and-duration` — RFC 5545 §3.6.1: `DTEND` and
/// `DURATION` are mutually exclusive within a `VEVENT`.
pub struct ConflictingEndAndDuration;

impl Rule for ConflictingEndAndDuration {
    fn id(&self) -> (r: &'static str)
        ensures
            r@ == "RFC5545/conflicting-end-and-duration"@,
    {
        "RFC5545/conflicting-end-and-duration"
    }

    fn default_severity(&self) -> (r: Severity)
        ensures
            r == Severity::Error,
    {
        Severity::Error
    }

    fn visit(&self, ctx: &LintContext<'_>, sink: &mut DiagnosticSink)
        ensures
            final(sink)@ == old(sink)@ + conflicting_end_and_duration_diags(ctx_scans(ctx)),
    {
        let ghost scans = ctx_scans(ctx);
        let ghost f = conflicting_check();
        let ghost start = sink@;
        let mut idx: usize = 0;
        while idx < ctx.vevent_scans.len()
            invariant
                idx <= ctx.vevent_scans.len(),
                scans == ctx_scans(ctx),
                f == conflicting_check(),
                sink@ == start + per_scan(scans.take(idx as int), f),
            decreases ctx.vevent_scans.len() - idx,
        {
            proof {
                lemma_per_scan_step(scans, f, idx as int);
            }
            let scan = &ctx.vevent_scans[idx];
            assert(scans[idx as int] == scan@);
            let ghost before = sink@;
            if scan.has("DTEND") && scan.has("DURATION") {
                let dur = scan.lines_of("DURATION");
                let line = if dur.len() > 0 {
                    dur[0]
                } else {
                    first_or_exec(&scan.lines_of("DTEND"), scan.begin_line)
                };
                push_at(
                    sink,
                    "RFC5545/conflicting-end-and-duration",
                    Severity::Error,
                    &concat_str(
                        vevent_ref_chars(idx),
                        " has both DTEND and DURATION; RFC 5545 §3.6.1 allows only one",
                    ),
                    line,
                );
            }
            assert(sink@ =~= before + f(idx as int, scans[idx as int]));
            idx = idx + 1;
        }
        assert(scans.take(idx as int) =~= scans);
    }
}

/// `RFC5545/end-before-start` — RFC 5545 §3.8.2.2: `DTEND` must be later
/// than `DTSTART`. Needs the typed calendar; without it the rule reports
/// nothing.
pub struct EndBeforeStart;

impl Rule for EndBeforeStart {
    fn id(&self) -> (r: &'static str)
        ensures
            r@ == "RFC5545/end-before-start"@,
    {
        "RFC5545/end-before-start"
    }

    fn default_severity(&self) -> (r: Severity)
        ensures
            r == Severity::Error,
    {
        Severity::Error
    }

    fn visit(&self, ctx: &LintContext<'_>, sink: &mut DiagnosticSink)
        ensures
            final(sink)@ == old(sink)@ + end_before_start_diags(ctx_scans(ctx), ctx_cal(ctx)),
    {
        let cal = match ctx.calendar {
            Some(c) => c,
            None => {
                assert(old(sink)@ + seq![] =~= old(sink)@);
                return;
            },
        };
        let ghost scans = ctx_scans(ctx);
        let ghost f = end_before_start_check(cal@);
        let ghost start = sink@;
        let mut idx: usize = 0;
        while idx < ctx.vevent_scans.len()
            invariant
                idx <= ctx.vevent_scans.len(),
                scans == ctx_scans(ctx),
                ctx.calendar == Some(cal),
                f == end_before_start_check(cal@),
                sink@ == start + per_scan(scans.take(idx as int), f),
            decreases ctx.vevent_scans.len() - idx,
        {
            proof {
                lemma_per_scan_step(scans, f, idx as int);
            }
            let scan = &ctx.vevent_scans[idx];
            assert(scans[idx as int] == scan@);
            let ghost before = sink@;
            if idx < cal.events.len() {
                let event = &cal.events[idx];
                assert(cal@.events[idx as int] == event@);
                if event.dtend.le(&event.dtstart) {
                    let mut msg = concat_str(vevent_ref_chars(idx), " has DTEND (");
                    push_chars(&mut msg, &dashed_date_chars(&event.dtend));
                    push_chars(&mut msg, &chars_of(") not later than DTSTART ("));
                    push_chars(&mut msg, &dashed_date_chars(&event.dtstart));
                    push_chars(&mut msg, &chars_of("); RFC 5545 §3.8.2.2 requires DTEND > DTSTART"));
                    let line = first_or_exec(&scan.lines_of("DTEND"), scan.begin_line);
                    push_at(sink, "RFC5545/end-before-start", Severity::Error, &msg, line);
                }
            }
            assert(sink@ =~= before + f(idx as int, scans[idx as int]));
            idx = idx + 1;
        }
        assert(scans.take(idx as int) =~= scans);
    }
}

/// `RFC5545/empty-summary` — a `SUMMARY` that is present should not be
/// blank. Needs the typed calendar; without it the rule reports nothing.
pub struct EmptySummary;

impl Rule for EmptySummary {
    fn id(&self) -> (r: &'static str)
        ensures
            r@ == "RFC5545/empty-summary"@,
    {
        "RFC5545/empty-summary"
    }

    fn default_severity(&self) -> (r: Severity)
        ensures
            r == Severity::Warning,
    {
        Severity::Warning
    }

    fn visit(&self, ctx: &LintContext<'_>, sink: &mut DiagnosticSink)
        ensures
            final(sink)@ == old(sink)@ + empty_summary_diags(ctx_scans(ctx), ctx_cal(ctx)),
    {
        let cal = match ctx.calendar {
            Some(c) => c,
            None => {
                assert(old(sink)@ + seq![] =~= old(sink)@);
                return;
            },
        };
        let ghost scans = ctx_scans(ctx);
        let ghost f = empty_summary_check(cal@);
        let ghost start = sink@;
        let mut idx: usize = 0;
        while idx < ctx.vevent_scans.len()
            invariant
                idx <= ctx.vevent_scans.len(),
                scans == ctx_scans(ctx),
                ctx.calendar == Some(cal),
                f == empty_summary_check(cal@),
                sink@ == start + per_scan(scans.take(idx as int), f),
            decreases ctx.vevent_scans.len() - idx,
        {
            proof {
                lemma_per_scan_step(scans, f, idx as int);
            }
            let scan = &ctx.vevent_scans[idx];
            assert(scans[idx as int] == scan@);
            let ghost before = sink@;
            if scan.has("SUMMARY") && idx < cal.events.len() {
                let event = &cal.events[idx];
                assert(cal@.events[idx as int] == event@);
                let t = trim_chars(&chars_of(event.summary.as_str()));
                if t.len() == 0 {
                    let line = first_or_exec(&scan.lines_of("SUMMARY"), scan.begin_line);
                    push_at(
                        sink,
                        "RFC5545/empty-summary",
                        Severity::Warning,
                        &concat_str(
                            vevent_ref_chars(idx),
                            " has an empty SUMMARY value; either drop the property or fill it in",
                        ),
                        line,
                    );
                }
            }
            assert(sink@ =~= before + f(idx as int, scans[idx as int]));
            idx = idx + 1;
        }
        assert(scans.take(idx as int) =~= scans);
    }
}

} // verus!
