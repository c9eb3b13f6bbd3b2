//! Rule trait, lint context, diagnostic sink, and the fixed registry.
//!
//! A rule is a stateless value that inspects a `LintContext` and pushes
//! its findings into a `DiagnosticSink`. Every rule's findings are a
//! function of the context, stated by the rule's `*_diags` spec function.

pub mod rfc5545;
pub mod structure;
pub mod text;
pub mod vendor;

use vstd::prelude::*;
use crate::date::{decimal, decimal_chars};
use crate::lint::diagnostic::{diags_view, Diagnostic, DiagnosticView, Severity};
use crate::lint::walker::{scans_view, RawVEventScan, RawVEventScanView, ScanPropertyView};
use crate::text::chars_of;
use crate::vcalendar::{VCalendar, VCalendarView};

verus! {

/// Context shared by every rule for a single lint pass.
///
/// `calendar` is `None` when the typed parser could not read the source;
/// rules that need the typed view then report nothing, while rules over
/// the raw text or the scans still run.
pub struct LintContext<'a> {
    pub source: &'a str,
    pub calendar: Option<&'a VCalendar>,
    /// One scan per `VEVENT` block, in source order.
    pub vevent_scans: &'a [RawVEventScan],
}

/// The scans of a context.
pub open spec fn ctx_scans<'a>(ctx: &LintContext<'a>) -> Seq<RawVEventScanView> {
    scans_view(ctx.vevent_scans@)
}

/// The typed calendar of a context, if any.
pub open spec fn ctx_cal<'a>(ctx: &LintContext<'a>) -> Option<VCalendarView> {
    match ctx.calendar {
        Some(c) => Some(c@),
        None => None,
    }
}

/// Collects the diagnostics rules push.
pub struct DiagnosticSink {
    diagnostics: Vec<Diagnostic>,
}

impl View for DiagnosticSink {
    type V = Seq<DiagnosticView>;

    closed spec fn view(&self) -> Seq<DiagnosticView> {
        diags_view(self.diagnostics@)
    }
}

impl DiagnosticSink {
    /// An empty sink.
    pub fn new() -> (r: DiagnosticSink)
        ensures
            r@ == Seq::<DiagnosticView>::empty(),
    {
        let r = DiagnosticSink { diagnostics: Vec::new() };
        assert(r@ =~= Seq::<DiagnosticView>::empty());
        r
    }

    /// A sink that already holds `diagnostics`.
    pub fn from_vec(diagnostics: Vec<Diagnostic>) -> (r: DiagnosticSink)
        ensures
            r@ == diags_view(diagnostics@),
    {
        DiagnosticSink { diagnostics }
    }

    /// Append one diagnostic.
    pub fn push(&mut self, d: Diagnostic)
        ensures
            final(self)@ == old(self)@.push(d@),
    {
        let ghost before = self.diagnostics@;
        self.diagnostics.push(d);
        assert(diags_view(self.diagnostics@) =~= diags_view(before).push(d@));
    }

    /// The collected diagnostics, in push order.
    pub fn into_vec(self) -> (r: Vec<Diagnostic>)
        ensures
            diags_view(r@) == self@,
    {
        self.diagnostics
    }
}

impl Default for DiagnosticSink {
    fn default() -> (r: DiagnosticSink)
        ensures
            r@ == Seq::<DiagnosticView>::empty(),
    {
        DiagnosticSink::new()
    }
}

/// A lint rule.
pub trait Rule {
    /// Stable rule identifier.
    fn id(&self) -> &'static str;

    /// Severity of every diagnostic the rule emits.
    fn default_severity(&self) -> Severity;

    /// Push the rule's findings for `ctx` into `sink`.
    fn visit(&self, ctx: &LintContext<'_>, sink: &mut DiagnosticSink);
}

/// A diagnostic anchored at a line.
pub open spec fn diag_at(rule: Seq<char>, severity: Severity, message: Seq<char>, line: u32) -> DiagnosticView {
    DiagnosticView { rule, severity, line: Some(line), message }
}

/// `VEVENT #n`, where `n` is the 1-based position of scan `idx`.
pub open spec fn vevent_ref(idx: int) -> Seq<char> {
    "VEVENT #"@ + decimal((idx + 1) as nat)
}

/// The findings of a per-event check over every scan, in scan order; `f`
/// gets the scan's 0-based position and the scan.
pub open spec fn per_scan(
    scans: Seq<RawVEventScanView>,
    f: spec_fn(int, RawVEventScanView) -> Seq<DiagnosticView>,
) -> Seq<DiagnosticView>
    decreases scans.len(),
{
    if scans.len() == 0 {
        seq![]
    } else {
        per_scan(scans.drop_last(), f) + f(scans.len() - 1, scans.last())
    }
}

/// The findings of a per-property check over the properties of one scan,
/// in property order.
pub open spec fn per_property(
    ps: Seq<ScanPropertyView>,
    f: spec_fn(ScanPropertyView) -> Seq<DiagnosticView>,
) -> Seq<DiagnosticView>
    decreases ps.len(),
{
    if ps.len() == 0 {
        seq![]
    } else {
        per_property(ps.drop_last(), f) + f(ps.last())
    }
}

pub proof fn lemma_per_scan_step(
    scans: Seq<RawVEventScanView>,
    f: spec_fn(int, RawVEventScanView) -> Seq<DiagnosticView>,
    i: int,
)
    requires
        0 <= i < scans.len(),
    ensures
        per_scan(scans.take(i + 1), f) == per_scan(scans.take(i), f) + f(i, scans[i]),
{
    let t = scans.take(i + 1);
    assert(t.drop_last() =~= scans.take(i));
    assert(t.last() == scans[i]);
}

pub proof fn lemma_per_property_step(
    ps: Seq<ScanPropertyView>,
    f: spec_fn(ScanPropertyView) -> Seq<DiagnosticView>,
    i: int,
)
    requires
        0 <= i < ps.len(),
    ensures
        per_property(ps.take(i + 1), f) == per_property(ps.take(i), f) + f(ps[i]),
{
    let t = ps.take(i + 1);
    assert(t.drop_last() =~= ps.take(i));
    assert(t.last() == ps[i]);
}

/// The characters of `VEVENT #n` for scan position `idx`.
pub fn vevent_ref_chars(idx: usize) -> (r: Vec<char>)
    requires
        idx < usize::MAX,
    ensures
        r@ == vevent_ref(idx as int),
{
    let mut out = chars_of("VEVENT #");
    let n = decimal_chars((idx + 1) as u64);
    crate::error::push_chars(&mut out, &n);
    out
}

/// `head` followed by `tail`.
pub fn concat_str(head: Vec<char>, tail: &str) -> (r: Vec<char>)
    ensures
        r@ == head@ + tail@,
{
    let mut out = head;
    crate::error::push_chars(&mut out, &chars_of(tail));
    out
}

/// Push a diagnostic anchored at `line`.
pub fn push_at(sink: &mut DiagnosticSink, rule: &'static str, severity: Severity, message: &Vec<char>, line: u32)
    ensures
        final(sink)@ == old(sink)@.push(diag_at(rule@, severity, message@, line)),
{
    let d = Diagnostic::new(rule, severity, crate::text::string_of(message).as_str()).with_line(line);
    sink.push(d);
}

/// Every rule of the library, by name.
#[derive(Debug, Clone, Copy, PartialEq, Eq, Structural)]
pub enum RuleKind {
    RequiredUid,
    RequiredDtstamp,
    RequiredDtstart,
    DuplicateSummary,
    DuplicateDtstart,
    ConflictingEndAndDuration,
    EndBeforeStart,
    EmptySummary,
    MicrosoftOnly,
    GoogleOnly,
    IcloudOnly,
    UnrecognizedX,
    Bom,
    DoubleEscape,
    UnescapedCommaInSummary,
    UnescapedSemicolonInSummary,
    UnfoldedLongLine,
    CrlfViolation,
    OrphanEnd,
    EmptyCalendar,
}

/// The findings of one rule for a source, its scans and its typed
/// calendar.
pub open spec fn rule_diags(
    k: RuleKind,
    source: Seq<char>,
    scans: Seq<RawVEventScanView>,
    cal: Option<VCalendarView>,
) -> Seq<DiagnosticView> {
    match k {
        RuleKind::RequiredUid => rfc5545::required_uid_diags(scans, cal),
        RuleKind::RequiredDtstamp => rfc5545::required_dtstamp_diags(scans),
        RuleKind::RequiredDtstart => rfc5545::required_dtstart_diags(scans),
        RuleKind::DuplicateSummary => rfc5545::duplicate_summary_diags(scans),
        RuleKind::DuplicateDtstart => rfc5545::duplicate_dtstart_diags(scans),
        RuleKind::ConflictingEndAndDuration => rfc5545::conflicting_end_and_duration_diags(scans),
        RuleKind::EndBeforeStart => rfc5545::end_before_start_diags(scans, cal),
        RuleKind::EmptySummary => rfc5545::empty_summary_diags(scans, cal),
        RuleKind::MicrosoftOnly => vendor::microsoft_only_diags(scans),
        RuleKind::GoogleOnly => vendor::google_only_diags(scans),
        RuleKind::IcloudOnly => vendor::icloud_only_diags(scans),
        RuleKind::UnrecognizedX => vendor::unrecognized_x_diags(scans),
        RuleKind::Bom => text::bom_diags(source),
        RuleKind::DoubleEscape => text::double_escape_diags(scans),
        RuleKind::UnescapedCommaInSummary => text::unescaped_comma_diags(scans),
        RuleKind::UnescapedSemicolonInSummary => text::unescaped_semicolon_diags(scans),
        RuleKind::UnfoldedLongLine => structure::unfolded_long_line_diags(source),
        RuleKind::CrlfViolation => structure::crlf_violation_diags(source),
        RuleKind::OrphanEnd => structure::orphan_end_diags(source),
        RuleKind::EmptyCalendar => structure::empty_calendar_diags(cal),
    }
}

/// The identifier of a rule.
pub open spec fn rule_id(k: RuleKind) -> Seq<char> {
    match k {
        RuleKind::RequiredUid => "RFC5545/required-uid"@,
        RuleKind::RequiredDtstamp => "RFC5545/required-dtstamp"@,
        RuleKind::RequiredDtstart => "RFC5545/required-dtstart"@,
        RuleKind::DuplicateSummary => "RFC5545/duplicate-summary"@,
        RuleKind::DuplicateDtstart => "RFC5545/duplicate-dtstart"@,
        RuleKind::ConflictingEndAndDuration => "RFC5545/conflicting-end-and-duration"@,
        RuleKind::EndBeforeStart => "RFC5545/end-before-start"@,
        RuleKind::EmptySummary => "RFC5545/empty-summary"@,
        RuleKind::MicrosoftOnly => "vendor/microsoft-only"@,
        RuleKind::GoogleOnly => "vendor/google-only"@,
        RuleKind::IcloudOnly => "vendor/icloud-only"@,
        RuleKind::UnrecognizedX => "vendor/unrecognized-x"@,
        RuleKind::Bom => "text/bom"@,
        RuleKind::DoubleEscape => "text/double-escape"@,
        RuleKind::UnescapedCommaInSummary => "text/unescaped-comma-in-summary"@,
        RuleKind::UnescapedSemicolonInSummary => "text/unescaped-semicolon-in-summary"@,
        RuleKind::UnfoldedLongLine => "structure/unfolded-long-line"@,
        RuleKind::CrlfViolation => "structure/crlf-violation"@,
        RuleKind::OrphanEnd => "structure/orphan-end"@,
        RuleKind::EmptyCalendar => "structure/empty-calendar"@,
    }
}

/// The severity of every diagnostic a rule emits.
pub open spec fn rule_severity(k: RuleKind) -> Severity {
    match k {
        RuleKind::RequiredUid => Severity::Error,
        RuleKind::RequiredDtstamp => Severity::Error,
        RuleKind::RequiredDtstart => Severity::Error,
        RuleKind::DuplicateSummary => Severity::Error,
        RuleKind::DuplicateDtstart => Severity::Error,
        RuleKind::ConflictingEndAndDuration => Severity::Error,
        RuleKind::EndBeforeStart => Severity::Error,
        RuleKind::EmptySummary => Severity::Warning,
        RuleKind::MicrosoftOnly => Severity::Info,
        RuleKind::GoogleOnly => Severity::Info,
        RuleKind::IcloudOnly => Severity::Info,
        RuleKind::UnrecognizedX => Severity::Warning,
        RuleKind::Bom => Severity::Info,
        RuleKind::DoubleEscape => Severity::Warning,
        RuleKind::UnescapedCommaInSummary => Severity::Warning,
        RuleKind::UnescapedSemicolonInSummary => Severity::Warning,
        RuleKind::UnfoldedLongLine => Severity::Warning,
        RuleKind::CrlfViolation => Severity::Warning,
        RuleKind::OrphanEnd => Severity::Error,
        RuleKind::EmptyCalendar => Severity::Info,
    }
}

impl Rule for RuleKind {
    fn id(&self) -> (r: &'static str)
        ensures
            r@ == rule_id(*self),
    {
        match self {
            RuleKind::RequiredUid => rfc5545::RequiredUid.id(),
            RuleKind::RequiredDtstamp => rfc5545::RequiredDtstamp.id(),
            RuleKind::RequiredDtstart => rfc5545::RequiredDtstart.id(),
            RuleKind::DuplicateSummary => rfc5545::DuplicateSummary.id(),
            RuleKind::DuplicateDtstart => rfc5545::DuplicateDtstart.id(),
            RuleKind::ConflictingEndAndDuration => rfc5545::ConflictingEndAndDuration.id(),
            RuleKind::EndBeforeStart => rfc5545::EndBeforeStart.id(),
            RuleKind::EmptySummary => rfc5545::EmptySummary.id(),
            RuleKind::MicrosoftOnly => vendor::MicrosoftOnly.id(),
            RuleKind::GoogleOnly => vendor::GoogleOnly.id(),
            RuleKind::IcloudOnly => vendor::IcloudOnly.id(),
            RuleKind::UnrecognizedX => vendor::UnrecognizedX.id(),
            RuleKind::Bom => text::Bom.id(),
            RuleKind::DoubleEscape => text::DoubleEscape.id(),
            RuleKind::UnescapedCommaInSummary => text::UnescapedCommaInSummary.id(),
            RuleKind::UnescapedSemicolonInSummary => text::UnescapedSemicolonInSummary.id(),
            RuleKind::UnfoldedLongLine => structure::UnfoldedLongLine.id(),
            RuleKind::CrlfViolation => structure::CrlfViolation.id(),
            RuleKind::OrphanEnd => structure::OrphanEnd.id(),
            RuleKind::EmptyCalendar => structure::EmptyCalendar.id(),
        }
    }

    fn default_severity(&self) -> (r: Severity)
        ensures
            r == rule_severity(*self),
    {
        match self {
            RuleKind::RequiredUid => rfc5545::RequiredUid.default_severity(),
            RuleKind::RequiredDtstamp => rfc5545::RequiredDtstamp.default_severity(),
            RuleKind::RequiredDtstart => rfc5545::RequiredDtstart.default_severity(),
            RuleKind::DuplicateSummary => rfc5545::DuplicateSummary.default_severity(),
            RuleKind::DuplicateDtstart => rfc5545::DuplicateDtstart.default_severity(),
            RuleKind::ConflictingEndAndDuration => rfc5545::ConflictingEndAndDuration.default_severity(),
            RuleKind::EndBeforeStart => rfc5545::EndBeforeStart.default_severity(),
            RuleKind::EmptySummary => rfc5545::EmptySummary.default_severity(),
            RuleKind::MicrosoftOnly => vendor::MicrosoftOnly.default_severity(),
            RuleKind::GoogleOnly => vendor::GoogleOnly.default_severity(),
            RuleKind::IcloudOnly => vendor::IcloudOnly.default_severity(),
            RuleKind::UnrecognizedX => vendor::UnrecognizedX.default_severity(),
            RuleKind::Bom => text::Bom.default_severity(),
            RuleKind::DoubleEscape => text::DoubleEscape.default_severity(),
            RuleKind::UnescapedCommaInSummary => text::UnescapedCommaInSummary.default_severity(),
            RuleKind::UnescapedSemicolonInSummary => text::UnescapedSemicolonInSummary.default_severity(),
            RuleKind::UnfoldedLongLine => structure::UnfoldedLongLine.default_severity(),
            RuleKind::CrlfViolation => structure::CrlfViolation.default_severity(),
            RuleKind::OrphanEnd => structure::OrphanEnd.default_severity(),
            RuleKind::EmptyCalendar => structure::EmptyCalendar.default_severity(),
        }
    }

    fn visit(&self, ctx: &LintContext<'_>, sink: &mut DiagnosticSink)
        ensures
            final(sink)@ == old(sink)@ + rule_diags(*self, ctx.source@, ctx_scans(ctx), ctx_cal(ctx)),
    {
        match self {
            RuleKind::RequiredUid => rfc5545::RequiredUid.visit(ctx, sink),
            RuleKind::RequiredDtstamp => rfc5545::RequiredDtstamp.visit(ctx, sink),
            RuleKind::RequiredDtstart => rfc5545::RequiredDtstart.visit(ctx, sink),
            RuleKind::DuplicateSummary => rfc5545::DuplicateSummary.visit(ctx, sink),
            RuleKind::DuplicateDtstart => rfc5545::DuplicateDtstart.visit(ctx, sink),
            RuleKind::ConflictingEndAndDuration => rfc5545::ConflictingEndAndDuration.visit(ctx, sink),
            RuleKind::EndBeforeStart => rfc5545::EndBeforeStart.visit(ctx, sink),
            RuleKind::EmptySummary => rfc5545::EmptySummary.visit(ctx, sink),
            RuleKind::MicrosoftOnly => vendor::MicrosoftOnly.visit(ctx, sink),
            RuleKind::GoogleOnly => vendor::GoogleOnly.visit(ctx, sink),
            RuleKind::IcloudOnly => vendor::IcloudOnly.visit(ctx, sink),
            RuleKind::UnrecognizedX => vendor::UnrecognizedX.visit(ctx, sink),
            RuleKind::Bom => text::Bom.visit(ctx, sink),
            RuleKind::DoubleEscape => text::DoubleEscape.visit(ctx, sink),
            RuleKind::UnescapedCommaInSummary => text::UnescapedCommaInSummary.visit(ctx, sink),
            RuleKind::UnescapedSemicolonInSummary => text::UnescapedSemicolonInSummary.visit(ctx, sink),
            RuleKind::UnfoldedLongLine => structure::UnfoldedLongLine.visit(ctx, sink),
            RuleKind::CrlfViolation => structure::CrlfViolation.visit(ctx, sink),
            RuleKind::OrphanEnd => structure::OrphanEnd.visit(ctx, sink),
            RuleKind::EmptyCalendar => structure::EmptyCalendar.visit(ctx, sink),
        }
    }
}

/// The fixed registry that `lint` runs, in order: the RFC 5545 rules,
/// the vendor rules, then the text rules. The structure rules are not
/// registered.
pub open spec fn registry() -> Seq<RuleKind> {
    seq![
        RuleKind::RequiredUid,
        RuleKind::RequiredDtstamp,
        RuleKind::RequiredDtstart,
        RuleKind::DuplicateSummary,
        RuleKind::DuplicateDtstart,
        RuleKind::ConflictingEndAndDuration,
        RuleKind::EndBeforeStart,
        RuleKind::EmptySummary,
        RuleKind::MicrosoftOnly,
        RuleKind::GoogleOnly,
        RuleKind::IcloudOnly,
        RuleKind::UnrecognizedX,
        RuleKind::Bom,
        RuleKind::DoubleEscape,
        RuleKind::UnescapedCommaInSummary,
        RuleKind::UnescapedSemicolonInSummary,
    ]
}

/// The registered rules.
pub fn all() -> (r: Vec<RuleKind>)
    ensures
        r@ == registry(),
{
    let r = vec![
        RuleKind::RequiredUid,
        RuleKind::RequiredDtstamp,
        RuleKind::RequiredDtstart,
        RuleKind::DuplicateSummary,
        RuleKind::DuplicateDtstart,
        RuleKind::ConflictingEndAndDuration,
        RuleKind::EndBeforeStart,
        RuleKind::EmptySummary,
        RuleKind::MicrosoftOnly,
        RuleKind::GoogleOnly,
        RuleKind::IcloudOnly,
        RuleKind::UnrecognizedX,
        RuleKind::Bom,
        RuleKind::DoubleEscape,
        RuleKind::UnescapedCommaInSummary,
        RuleKind::UnescapedSemicolonInSummary,
    ];
    assert(r@ =~= registry());
    r
}

/// The findings of a list of rules run in order.
pub open spec fn rules_diags(
    rules: Seq<RuleKind>,
    source: Seq<char>,
    scans: Seq<RawVEventScanView>,
    cal: Option<VCalendarView>,
) -> Seq<DiagnosticView>
    decreases rules.len(),
{
    if rules.len() == 0 {
        seq![]
    } else {
        rules_diags(rules.drop_last(), source, scans, cal) + rule_diags(rules.last(), source, scans, cal)
    }
}

} // verus!
