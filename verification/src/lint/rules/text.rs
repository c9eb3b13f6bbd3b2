//! `text/*` rules: TEXT-value encoding hygiene of the source and of the
//! raw `SUMMARY` values.

use vstd::prelude::*;
use crate::lint::diagnostic::{DiagnosticView, Severity};
use crate::lint::rules::{
    concat_str, ctx_scans, diag_at, lemma_per_property_step, lemma_per_scan_step, per_property,
    per_scan, push_at, vevent_ref, vevent_ref_chars, DiagnosticSink, LintContext, Rule,
};
use crate::lint::walker::{RawVEventScanView, ScanPropertyView};
use crate::text::{chars_of, contains_chars, contains_seq, str_eq};

verus! {

/// Number of backslashes immediately before position `j` of `s`.
pub open spec fn backslash_run(s: Seq<char>, j: int) -> nat
    decreases j,
{
    if 0 < j <= s.len() && s[j - 1] == '\\' {
        1 + backslash_run(s, j - 1)
    } else {
        0
    }
}

/// Does `s` hold `needle` at a position preceded by an even number of
/// backslashes (zero included), i.e. not as part of an escape?
pub open spec fn contains_unescaped_spec(s: Seq<char>, needle: char) -> bool {
    exists|i: int| #![trigger backslash_run(s, i)] 0 <= i < s.len() && s[i] == needle && backslash_run(s, i) % 2 == 0
}

/// True when `value` contains `needle` not preceded by an odd number of
/// backslashes.
pub fn contains_unescaped(value: &str, needle: char) -> (r: bool)
    ensures
        r == contains_unescaped_spec(value@, needle),
{
    let chars = chars_of(value);
    let ghost s = value@;
    let mut i: usize = 0;
    while i < chars.len()
        invariant
            i <= chars.len(),
            chars@ == s,
            s == value@,
            forall|k: int| #![trigger backslash_run(s, k)] 0 <= k < i ==> !(s[k] == needle && backslash_run(s, k) % 2 == 0),
        decreases chars.len() - i,
    {
        if chars[i] == needle {
            let mut backslashes: usize = 0;
            let mut j: usize = i;
            while j > 0 && chars[j - 1] == '\\'
                invariant
                    j <= i < chars.len(),
                    chars@ == s,
                    backslashes + backslash_run(s, j as int) == backslash_run(s, i as int),
                    backslashes + j == i,
                decreases j,
            {
                backslashes = backslashes + 1;
                j = j - 1;
            }
            assert(backslash_run(s, j as int) == 0);
            if backslashes % 2 == 0 {
                assert(s[i as int] == needle && backslash_run(s, i as int) % 2 == 0);
                assert(contains_unescaped_spec(s, needle));
                return true;
            }
        }
        i = i + 1;
    }
    false
}

/// Which SUMMARY check a rule makes.
#[derive(Debug, Clone, Copy, PartialEq, Eq, Structural)]
pub enum SummaryCheck {
    DoubleEscape,
    UnescapedComma,
    UnescapedSemicolon,
}

/// Does a raw `SUMMARY` value fail the check?
pub open spec fn summary_fails(k: SummaryCheck, value: Seq<char>) -> bool {
    match k {
        SummaryCheck::DoubleEscape => contains_seq(value, seq!['\\', '\\', ',']) || contains_seq(
            value,
            seq!['\\', '\\', ';'],
        ),
        SummaryCheck::UnescapedComma => contains_unescaped_spec(value, ','),
        SummaryCheck::UnescapedSemicolon => contains_unescaped_spec(value, ';'),
    }
}

/// One diagnostic per failing `SUMMARY` property of each scan, at its
/// line: `VEVENT #n` followed by `tail`.
pub open spec fn summary_check(rule: Seq<char>, k: SummaryCheck, tail: Seq<char>) -> spec_fn(
    int,
    RawVEventScanView,
) -> Seq<DiagnosticView> {
    |idx: int, scan: RawVEventScanView|
        per_property(
            scan.properties,
            |p: ScanPropertyView|
                if p.name == "SUMMARY"@ && summary_fails(k, p.value) {
                    seq![diag_at(rule, Severity::Warning, vevent_ref(idx) + tail, p.line)]
                } else {
                    seq![]
                },
        )
}

/// The message of `text/bom`.
pub open spec fn bom_message() -> Seq<char> {
    "input begins with UTF-8 BOM (U+FEFF); most consumers tolerate it but some scripting pipelines do not"@
}

pub open spec fn bom_diags(source: Seq<char>) -> Seq<DiagnosticView> {
    if source.len() > 0 && source[0] == '\u{FEFF}' {
        seq![diag_at("text/bom"@, Severity::Info, bom_message(), 1)]
    } else {
        seq![]
    }
}

pub open spec fn double_escape_diags(scans: Seq<RawVEventScanView>) -> Seq<DiagnosticView> {
    per_scan(
        scans,
        summary_check(
            "text/double-escape"@,
            SummaryCheck::DoubleEscape,
            " SUMMARY contains a `\\\\,` or `\\\\;` pattern; producer likely escaped TEXT values twice"@,
        ),
    )
}

pub open spec fn unescaped_comma_diags(scans: Seq<RawVEventScanView>) -> Seq<DiagnosticView> {
    per_scan(
        scans,
        summary_check(
            "text/unescaped-comma-in-summary"@,
            SummaryCheck::UnescapedComma,
            " SUMMARY contains an unescaped `,`; RFC 5545 §3.3.11 requires `\\,` in TEXT values"@,
        ),
    )
}

pub open spec fn unescaped_semicolon_diags(scans: Seq<RawVEventScanView>) -> Seq<DiagnosticView> {
    per_scan(
        scans,
        summary_check(
            "text/unescaped-semicolon-in-summary"@,
            SummaryCheck::UnescapedSemicolon,
            " SUMMARY contains an unescaped `;`; RFC 5545 §3.3.11 requires `\\;` in TEXT values"@,
        ),
    )
}

fn summary_fails_exec(k: SummaryCheck, value: &str) -> (r: bool)
    ensures
        r == summary_fails(k, value@),
{
    match k {
        SummaryCheck::DoubleEscape => {
            let v = chars_of(value);
            let mut a: Vec<char> = Vec::new();
            a.push('\\');
            a.push('\\');
            a.push(',');
            let mut b: Vec<char> = Vec::new();
            b.push('\\');
            b.push('\\');
            b.push(';');
            assert(a@ =~= seq!['\\', '\\', ',']);
            assert(b@ =~= seq!['\\', '\\', ';']);
            contains_chars(&v, &a) || contains_chars(&v, &b)
        },
        SummaryCheck::UnescapedComma => contains_unescaped(value, ','),
        SummaryCheck::UnescapedSemicolon => contains_unescaped(value, ';'),
    }
}

fn visit_summary(
    ctx: &LintContext<'_>,
    sink: &mut DiagnosticSink,
    rule: &'static str,
    k: SummaryCheck,
    tail: &str,
)
    ensures
        final(sink)@ == old(sink)@ + per_scan(ctx_scans(ctx), summary_check(rule@, k, tail@)),
{
    let ghost scans = ctx_scans(ctx);
    let ghost f = summary_check(rule@, k, tail@);
    let ghost start = sink@;
    let mut idx: usize = 0;
    while idx < ctx.vevent_scans.len()
        invariant
            idx <= ctx.vevent_scans.len(),
            scans == ctx_scans(ctx),
            f == summary_check(rule@, k, tail@),
            sink@ == start + per_scan(scans.take(idx as int), f),
        decreases ctx.vevent_scans.len() - idx,
    {
        proof {
            lemma_per_scan_step(scans, f, idx as int);
        }
        let scan = &ctx.vevent_scans[idx];
        assert(scans[idx as int] == scan@);
        let ghost ps = scan@.properties;
        let ghost g = |p: ScanPropertyView|
            if p.name == "SUMMARY"@ && summary_fails(k, p.value) {
                seq![diag_at(rule@, Severity::Warning, vevent_ref(idx as int) + tail@, p.line)]
            } else {
                seq![]
            };
        assert(f(idx as int, scans[idx as int]) == per_property(ps, g));
        let ghost mid = sink@;
        let mut j: usize = 0;
        while j < scan.properties.len()
            invariant
                j <= scan.properties.len(),
                idx < ctx.vevent_scans.len(),
                scan == &ctx.vevent_scans[idx as int],
                ps == scan@.properties,
                g == (|p: ScanPropertyView|
                    if p.name == "SUMMARY"@ && summary_fails(k, p.value) {
                        seq![diag_at(rule@, Severity::Warning, vevent_ref(idx as int) + tail@, p.line)]
                    } else {
                        seq![]
                    }),
                sink@ == mid + per_property(ps.take(j as int), g),
            decreases scan.properties.len() - j,
        {
            proof {
                lemma_per_property_step(ps, g, j as int);
            }
            let prop = &scan.properties[j];
            assert(ps[j as int] == prop@);
            let ghost before = sink@;
            if str_eq(prop.name.as_str(), "SUMMARY") && summary_fails_exec(k, prop.value.as_str()) {
                push_at(sink, rule, Severity::Warning, &concat_str(vevent_ref_chars(idx), tail), prop.line);
            }
            assert(sink@ =~= before + g(ps[j as int]));
            j = j + 1;
        }
        assert(ps.take(j as int) =~= ps);
        idx = idx + 1;
    }
    assert(scans.take(idx as int) =~= scans);
}

/// `text/bom` — the source begins with a UTF-8 byte-order mark.
pub struct Bom;

impl Rule for Bom {
    fn id(&self) -> (r: &'static str)
        ensures
            r@ == "text/bom"@,
    {
        "text/bom"
    }

    fn default_severity(&self) -> (r: Severity)
        ensures
            r == Severity::Info,
    {
        Severity::Info
    }

    fn visit(&self, ctx: &LintContext<'_>, sink: &mut DiagnosticSink)
        ensures
            final(sink)@ == old(sink)@ + bom_diags(ctx.source@),
    {
        let s = chars_of(ctx.source);
        if s.len() > 0 && s[0] == '\u{FEFF}' {
            push_at(sink, "text/bom", Severity::Info, &chars_of(
                "input begins with UTF-8 BOM (U+FEFF); most consumers tolerate it but some scripting pipelines do not",
            ), 1);
        } else {
            assert(old(sink)@ + seq![] =~= old(sink)@);
        }
    }
}

/// `text/double-escape` — a raw `SUMMARY` holds `\\,` or `\\;`, the mark
/// of a producer that escaped TEXT values twice.
pub struct DoubleEscape;

impl Rule for DoubleEscape {
    fn id(&self) -> (r: &'static str)
        ensures
            r@ == "text/double-escape"@,
    {
        "text/double-escape"
    }

    fn default_severity(&self) -> (r: Severity)
        ensures
            r == Severity::Warning,
    {
        Severity::Warning
    }

    fn visit(&self, ctx: &LintContext<'_>, sink: &mut DiagnosticSink)
        ensures
            final(sink)@ == old(sink)@ + double_escape_diags(ctx_scans(ctx)),
    {
        visit_summary(
            ctx,
            sink,
            "text/double-escape",
            SummaryCheck::DoubleEscape,
            " SUMMARY contains a `\\\\,` or `\\\\;` pattern; producer likely escaped TEXT values twice",
        );
    }
}

/// `text/unescaped-comma-in-summary` — a raw `SUMMARY` holds an unescaped
/// `,` (RFC 5545 §3.3.11).
pub struct UnescapedCommaInSummary;

impl Rule for UnescapedCommaInSummary {
    fn id(&self) -> (r: &'static str)
        ensures
            r@ == "text/unescaped-comma-in-summary"@,
    {
        "text/unescaped-comma-in-summary"
    }

    fn default_severity(&self) -> (r: Severity)
        ensures
            r == Severity::Warning,
    {
        Severity::Warning
    }

    fn visit(&self, ctx: &LintContext<'_>, sink: &mut DiagnosticSink)
        ensures
            final(sink)@ == old(sink)@ + unescaped_comma_diags(ctx_scans(ctx)),
    {
        visit_summary(
            ctx,
            sink,
            "text/unescaped-comma-in-summary",
            SummaryCheck::UnescapedComma,
            " SUMMARY contains an unescaped `,`; RFC 5545 §3.3.11 requires `\\,` in TEXT values",
        );
    }
}

/// `text/unescaped-semicolon-in-summary` — a raw `SUMMARY` holds an
/// unescaped `;` (RFC 5545 §3.3.11).
pub struct UnescapedSemicolonInSummary;

impl Rule for UnescapedSemicolonInSummary {
    fn id(&self) -> (r: &'static str)
        ensures
            r@ == "text/unescaped-semicolon-in-summary"@,
    {
        "text/unescaped-semicolon-in-summary"
    }

    fn default_severity(&self) -> (r: Severity)
        ensures
            r == Severity::Warning,
    {
        Severity::Warning
    }

    fn visit(&self, ctx: &LintContext<'_>, sink: &mut DiagnosticSink)
        ensures
            final(sink)@ == old(sink)@ + unescaped_semicolon_diags(ctx_scans(ctx)),
    {
        visit_summary(
            ctx,
            sink,
            "text/unescaped-semicolon-in-summary",
            SummaryCheck::UnescapedSemicolon,
            " SUMMARY contains an unescaped `;`; RFC 5545 §3.3.11 requires `\\;` in TEXT values",
        );
    }
}

} // verus!
