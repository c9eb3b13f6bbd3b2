//! `vendor/*` rules: vendor-extension hygiene. Each property of each
//! `VEVENT` is checked against the vendor prefixes of the profiles.

use vstd::prelude::*;
use crate::lint::diagnostic::{DiagnosticView, Severity};
use crate::lint::rules::{
    concat_str, ctx_scans, diag_at, lemma_per_property_step, lemma_per_scan_step, per_property,
    per_scan, push_at, vevent_ref, vevent_ref_chars, DiagnosticSink, LintContext, Rule,
};
use crate::lint::walker::{RawVEventScanView, ScanPropertyView};
use crate::profile::{google, icloud, microsoft};
use crate::text::{chars_of, has_prefix, starts_with};

verus! {

/// Which vendor check a rule makes.
#[derive(Debug, Clone, Copy, PartialEq, Eq, Structural)]
pub enum VendorCheck {
    Microsoft,
    Google,
    Icloud,
    Unrecognized,
}

/// Does a property named `name` fall under the check?
pub open spec fn vendor_match(k: VendorCheck, name: Seq<char>) -> bool {
    match k {
        VendorCheck::Microsoft => microsoft::owns_property_spec(name),
        VendorCheck::Google => google::owns_property_spec(name),
        VendorCheck::Icloud => icloud::owns_property_spec(name),
        VendorCheck::Unrecognized => starts_with(name, "X-"@) && !microsoft::owns_property_spec(name)
            && !google::owns_property_spec(name) && !icloud::owns_property_spec(name),
    }
}

/// One diagnostic per matching property of each scan, at the property's
/// line: `VEVENT #n uses NAME` followed by `tail`.
pub open spec fn vendor_check(
    rule: Seq<char>,
    severity: Severity,
    k: VendorCheck,
    tail: Seq<char>,
) -> spec_fn(int, RawVEventScanView) -> Seq<DiagnosticView> {
    |idx: int, scan: RawVEventScanView|
        per_property(
            scan.properties,
            |p: ScanPropertyView|
                if vendor_match(k, p.name) {
                    seq![diag_at(rule, severity, vevent_ref(idx) + " uses "@ + p.name + tail, p.line)]
                } else {
                    seq![]
                },
        )
}

pub open spec fn microsoft_only_diags(scans: Seq<RawVEventScanView>) -> Seq<DiagnosticView> {
    per_scan(
        scans,
        vendor_check(
            "vendor/microsoft-only"@,
            Severity::Info,
            VendorCheck::Microsoft,
            " (X-MICROSOFT-* extensions are honored by Outlook / Exchange but support outside that family is uneven)"@,
        ),
    )
}

pub open spec fn google_only_diags(scans: Seq<RawVEventScanView>) -> Seq<DiagnosticView> {
    per_scan(
        scans,
        vendor_check(
            "vendor/google-only"@,
            Severity::Info,
            VendorCheck::Google,
            " (X-GOOGLE-* extensions are Google Calendar-specific)"@,
        ),
    )
}

pub open spec fn icloud_only_diags(scans: Seq<RawVEventScanView>) -> Seq<DiagnosticView> {
    per_scan(
        scans,
        vendor_check(
            "vendor/icloud-only"@,
            Severity::Info,
            VendorCheck::Icloud,
            " (X-APPLE-* / X-CALENDARSERVER-* extensions are iCloud / CalendarServer-specific)"@,
        ),
    )
}

pub open spec fn unrecognized_x_diags(scans: Seq<RawVEventScanView>) -> Seq<DiagnosticView> {
    per_scan(
        scans,
        vendor_check(
            "vendor/unrecognized-x"@,
            Severity::Warning,
            VendorCheck::Unrecognized,
            " which matches no known vendor prefix; either deliberate private extension or typo"@,
        ),
    )
}

fn vendor_match_exec(k: VendorCheck, name: &str) -> (r: bool)
    ensures
        r == vendor_match(k, name@),
{
    match k {
        VendorCheck::Microsoft => microsoft::owns_property(name),
        VendorCheck::Google => google::owns_property(name),
        VendorCheck::Icloud => icloud::owns_property(name),
        VendorCheck::Unrecognized => {
            has_prefix(&chars_of(name), &chars_of("X-")) && !microsoft::owns_property(name)
                && !google::owns_property(name) && !icloud::owns_property(name)
        },
    }
}

fn visit_vendor(
    ctx: &LintContext<'_>,
    sink: &mut DiagnosticSink,
    rule: &'static str,
    severity: Severity,
    k: VendorCheck,
    tail: &str,
)
    ensures
        final(sink)@ == old(sink)@ + per_scan(ctx_scans(ctx), vendor_check(rule@, severity, k, tail@)),
{
    let ghost scans = ctx_scans(ctx);
    let ghost f = vendor_check(rule@, severity, k, tail@);
    let ghost start = sink@;
    let mut idx: usize = 0;
    while idx < ctx.vevent_scans.len()
        invariant
            idx <= ctx.vevent_scans.len(),
            scans == ctx_scans(ctx),
            f == vendor_check(rule@, severity, k, tail@),
            sink@ == start + per_scan(scans.take(idx as int), f),
        decreases ctx.vevent_scans.len() - idx,
    {
        proof {
            lemma_per_scan_step(scans, f, idx as int);
        }
        let scan = &ctx.vevent_scans[idx];
        assert(scans[idx as int] == scan@);
        let ghost ps = scan@.properties;
        let ghost g = |p: ScanPropertyView|
            if vendor_match(k, p.name) {
                seq![diag_at(rule@, severity, vevent_ref(idx as int) + " uses "@ + p.name + tail@, p.line)]
            } else {
                seq![]
            };
        assert(f(idx as int, scans[idx as int]) == per_property(ps, g));
        let ghost mid = sink@;
        let mut j: usize = 0;
        while j < scan.properties.len()
            invariant
                j <= scan.properties.len(),
                idx < ctx.vevent_scans.len(),
                scan == &ctx.vevent_scans[idx as int],
                ps == scan@.properties,
                g == (|p: ScanPropertyView|
                    if vendor_match(k, p.name) {
                        seq![diag_at(rule@, severity, vevent_ref(idx as int) + " uses "@ + p.name + tail@, p.line)]
                    } else {
                        seq![]
                    }),
                sink@ == mid + per_property(ps.take(j as int), g),
            decreases scan.properties.len() - j,
        {
            proof {
                lemma_per_property_step(ps, g, j as int);
            }
            let prop = &scan.properties[j];
            assert(ps[j as int] == prop@);
            let ghost before = sink@;
            if vendor_match_exec(k, prop.name.as_str()) {
                let mut msg = concat_str(vevent_ref_chars(idx), " uses ");
                crate::error::push_chars(&mut msg, &chars_of(prop.name.as_str()));
                crate::error::push_chars(&mut msg, &chars_of(tail));
                push_at(sink, rule, severity, &msg, prop.line);
            }
            assert(sink@ =~= before + g(ps[j as int]));
            j = j + 1;
        }
        assert(ps.take(j as int) =~= ps);
        idx = idx + 1;
    }
    assert(scans.take(idx as int) =~= scans);
}

/// `vendor/microsoft-only` — property uses an `X-MICROSOFT-*` prefix.
pub struct MicrosoftOnly;

impl Rule for MicrosoftOnly {
    fn id(&self) -> (r: &'static str)
        ensures
            r@ == "vendor/microsoft-only"@,
    {
        "vendor/microsoft-only"
    }

    fn default_severity(&self) -> (r: Severity)
        ensures
            r == Severity::Info,
    {
        Severity::Info
    }

    fn visit(&self, ctx: &LintContext<'_>, sink: &mut DiagnosticSink)
        ensures
            final(sink)@ == old(sink)@ + microsoft_only_diags(ctx_scans(ctx)),
    {
        visit_vendor(
            ctx,
            sink,
            "vendor/microsoft-only",
            Severity::Info,
            VendorCheck::Microsoft,
            " (X-MICROSOFT-* extensions are honored by Outlook / Exchange but support outside that family is uneven)",
        );
    }
}

/// `vendor/google-only` — property uses an `X-GOOGLE-*` prefix.
pub struct GoogleOnly;

impl Rule for GoogleOnly {
    fn id(&self) -> (r: &'static str)
        ensures
            r@ == "vendor/google-only"@,
    {
        "vendor/google-only"
    }

    fn default_severity(&self) -> (r: Severity)
        ensures
            r == Severity::Info,
    {
        Severity::Info
    }

    fn visit(&self, ctx: &LintContext<'_>, sink: &mut DiagnosticSink)
        ensures
            final(sink)@ == old(sink)@ + google_only_diags(ctx_scans(ctx)),
    {
        visit_vendor(
            ctx,
            sink,
            "vendor/google-only",
            Severity::Info,
            VendorCheck::Google,
            " (X-GOOGLE-* extensions are Google Calendar-specific)",
        );
    }
}

/// `vendor/icloud-only` — property uses an `X-APPLE-*` or
/// `X-CALENDARSERVER-*` prefix.
pub struct IcloudOnly;

impl Rule for IcloudOnly {
    fn id(&self) -> (r: &'static str)
        ensures
            r@ == "vendor/icloud-only"@,
    {
        "vendor/icloud-only"
    }

    fn default_severity(&self) -> (r: Severity)
        ensures
            r == Severity::Info,
    {
        Severity::Info
    }

    fn visit(&self, ctx: &LintContext<'_>, sink: &mut DiagnosticSink)
        ensures
            final(sink)@ == old(sink)@ + icloud_only_diags(ctx_scans(ctx)),
    {
        visit_vendor(
            ctx,
            sink,
            "vendor/icloud-only",
            Severity::Info,
            VendorCheck::Icloud,
            " (X-APPLE-* / X-CALENDARSERVER-* extensions are iCloud / CalendarServer-specific)",
        );
    }
}

/// `vendor/unrecognized-x` — `X-*` property that matches no vendor
/// profile.
pub struct UnrecognizedX;

impl Rule for UnrecognizedX {
    fn id(&self) -> (r: &'static str)
        ensures
            r@ == "vendor/unrecognized-x"@,
    {
        "vendor/unrecognized-x"
    }

    fn default_severity(&self) -> (r: Severity)
        ensures
            r == Severity::Warning,
    {
        Severity::Warning
    }

    fn visit(&self, ctx: &LintContext<'_>, sink: &mut DiagnosticSink)
        ensures
            final(sink)@ == old(sink)@ + unrecognized_x_diags(ctx_scans(ctx)),
    {
        visit_vendor(
            ctx,
            sink,
            "vendor/unrecognized-x",
            Severity::Warning,
            VendorCheck::Unrecognized,
            " which matches no known vendor prefix; either deliberate private extension or typo",
        );
    }
}

} // verus!
