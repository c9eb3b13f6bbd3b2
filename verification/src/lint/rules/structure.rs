//! `structure/*` rules: physical-layer well-formedness. They read the raw
//! source (CRLF vs LF, physical line widths) or the BEGIN/END nesting of
//! the logical lines, or the typed calendar.

use vstd::prelude::*;
use crate::date::{decimal, decimal_chars};
use crate::error::push_chars;
use crate::lint::diagnostic::{DiagnosticView, Severity};
use crate::lint::rules::{ctx_cal, diag_at, push_at, DiagnosticSink, LintContext, Rule};
use crate::lint::walker::line_number;
use crate::parser::{document_lines, trimmed_lines};
use crate::text::{chars_eq, chars_of, has_prefix, split_chars, split_on, starts_with};
use crate::vcalendar::VCalendarView;

verus! {

/// Number of UTF-8 octets that encode `c`.
pub open spec fn utf8_width(c: char) -> nat {
    if (c as u32) < 0x80 {
        1
    } else if (c as u32) < 0x800 {
        2
    } else if (c as u32) < 0x10000 {
        3
    } else {
        4
    }
}

/// Number of UTF-8 octets that encode `s` (`str::len`).
pub open spec fn utf8_len(s: Seq<char>) -> nat
    decreases s.len(),
{
    if s.len() == 0 {
        0
    } else {
        utf8_len(s.drop_last()) + utf8_width(s.last())
    }
}

/// `s` without its trailing `\r` characters (`trim_end_matches('\r')`).
pub open spec fn trim_end_cr(s: Seq<char>) -> Seq<char>
    decreases s.len(),
{
    if s.len() > 0 && s.last() == '\r' {
        trim_end_cr(s.drop_last())
    } else {
        s
    }
}

/// The findings of a per-line check over a sequence of lines.
pub open spec fn per_line(ls: Seq<Seq<char>>, f: spec_fn(int, Seq<char>) -> Seq<DiagnosticView>) -> Seq<
    DiagnosticView,
>
    decreases ls.len(),
{
    if ls.len() == 0 {
        seq![]
    } else {
        per_line(ls.drop_last(), f) + f(ls.len() - 1, ls.last())
    }
}

/// A physical line (split at `\n`, trailing `\r`s dropped) wider than 75
/// octets; the empty piece after a final `\n` is not a line.
pub open spec fn long_line_check(count: int) -> spec_fn(int, Seq<char>) -> Seq<DiagnosticView> {
    |idx: int, raw: Seq<char>|
        {
            let line = trim_end_cr(raw);
            if line.len() == 0 && idx + 1 == count {
                seq![]
            } else if utf8_len(line) > 75 {
                seq![
                    diag_at(
                        "structure/unfolded-long-line"@,
                        Severity::Warning,
                        "physical line is "@ + decimal(utf8_len(line))
                            + " octets; RFC 5545 §3.1 caps lines at 75 octets and requires folding"@,
                        line_number(idx),
                    ),
                ]
            } else {
                seq![]
            }
        }
}

pub open spec fn unfolded_long_line_diags(source: Seq<char>) -> Seq<DiagnosticView> {
    let parts = split_on(source, '\n');
    per_line(parts, long_line_check(parts.len() as int))
}

proof fn lemma_utf8_width_encoding(c: char)
    ensures
        utf8_width(c) == vstd::utf8::encode_scalar(c as u32).len(),
{
    vstd::utf8::char_is_scalar(c);
}

proof fn lemma_utf8_len_front(s: Seq<char>)
    requires
        s.len() > 0,
    ensures
        utf8_len(s) == utf8_width(s[0]) + utf8_len(s.drop_first()),
    decreases s.len(),
{
    if s.len() == 1 {
        assert(s.drop_last() =~= Seq::<char>::empty());
        assert(s.drop_first() =~= Seq::<char>::empty());
    } else {
        lemma_utf8_len_front(s.drop_last());
        assert(s.drop_last().drop_first() =~= s.drop_first().drop_last());
        assert(s.drop_first().last() == s.last());
        assert(s.drop_last()[0] == s[0]);
    }
}

/// The width the long-line rule measures is the number of octets of the
/// UTF-8 encoding (`str::len`): a character from U+0080 on counts two,
/// three or four.
pub proof fn lemma_utf8_len_is_encoding_length(s: Seq<char>)
    ensures
        utf8_len(s) == vstd::utf8::encode_utf8(s).len(),
    decreases s.len(),
{
    if s.len() > 0 {
        lemma_utf8_len_front(s);
        lemma_utf8_width_encoding(s[0]);
        lemma_utf8_len_is_encoding_length(s.drop_first());
    }
}

/// A physical line draws the long-line warning exactly when its UTF-8
/// encoding, trailing `\r`s dropped, is longer than 75 octets (the
/// empty piece after a final `\n` aside), and the warning gives that
/// octet count.
pub proof fn lemma_long_line_counts_octets(count: int, idx: int, raw: Seq<char>)
    requires
        !(trim_end_cr(raw).len() == 0 && idx + 1 == count),
    ensures
        (long_line_check(count)(idx, raw).len() > 0) <==> (vstd::utf8::encode_utf8(trim_end_cr(raw)).len()
            > 75),
        long_line_check(count)(idx, raw).len() > 0 ==> long_line_check(count)(idx, raw)[0].message
            == "physical line is "@ + decimal(vstd::utf8::encode_utf8(trim_end_cr(raw)).len())
            + " octets; RFC 5545 §3.1 caps lines at 75 octets and requires folding"@,
{
    lemma_utf8_len_is_encoding_length(trim_end_cr(raw));
}

/// Is the character at `i` a `\n` not preceded by `\r`?
pub open spec fn is_bare_lf(s: Seq<char>, i: int) -> bool {
    s[i] == '\n' && !(i > 0 && s[i - 1] == '\r')
}

/// Number of `\n` among the first `i` characters.
pub open spec fn newlines_before(s: Seq<char>, i: int) -> nat
    decreases i,
{
    if i <= 0 || i > s.len() {
        0
    } else if s[i - 1] == '\n' {
        newlines_before(s, i - 1) + 1
    } else {
        newlines_before(s, i - 1)
    }
}

/// `i` is the position of the first bare LF.
pub open spec fn is_first_bare_lf(s: Seq<char>, i: int) -> bool {
    &&& 0 <= i < s.len()
    &&& is_bare_lf(s, i)
    &&& forall|j: int| 0 <= j < i ==> !#[trigger] is_bare_lf(s, j)
}

/// One diagnostic at the line of the first bare LF, if any.
pub open spec fn crlf_violation_diags(source: Seq<char>) -> Seq<DiagnosticView> {
    if exists|i: int| is_first_bare_lf(source, i) {
        let i = choose|i: int| is_first_bare_lf(source, i);
        seq![
            diag_at(
                "structure/crlf-violation"@,
                Severity::Warning,
                "source uses bare LF line endings; RFC 5545 §3.1 requires CRLF"@,
                (newlines_before(source, i) + 1) as u32,
            ),
        ]
    } else {
        seq![]
    }
}

/// One step of the BEGIN/END matcher: the open-block stack and the
/// findings so far, after line `i`.
pub open spec fn orphan_step(
    state: (Seq<Seq<char>>, Seq<DiagnosticView>),
    line: Seq<char>,
    i: int,
) -> (Seq<Seq<char>>, Seq<DiagnosticView>) {
    let (stack, diags) = state;
    if starts_with(line, "BEGIN:"@) {
        (stack.push(line.skip(6)), diags)
    } else if starts_with(line, "END:"@) {
        let name = line.skip(4);
        if stack.len() > 0 && stack.last() == name {
            (stack.drop_last(), diags)
        } else {
            (
                stack,
                diags.push(
                    diag_at(
                        "structure/orphan-end"@,
                        Severity::Error,
                        "END:"@ + name + " has no matching BEGIN at the same nesting level"@,
                        line_number(i),
                    ),
                ),
            )
        }
    } else {
        state
    }
}

/// The matcher's state after the first `n` lines.
pub open spec fn orphan_fold(lines: Seq<Seq<char>>, n: nat) -> (Seq<Seq<char>>, Seq<DiagnosticView>)
    decreases n,
{
    if n == 0 {
        (seq![], seq![])
    } else {
        orphan_step(orphan_fold(lines, (n - 1) as nat), lines[n - 1], n - 1)
    }
}

pub open spec fn orphan_end_diags(source: Seq<char>) -> Seq<DiagnosticView> {
    let lines = document_lines(source);
    orphan_fold(lines, lines.len()).1
}

/// The message of `structure/empty-calendar`.
pub open spec fn empty_calendar_message() -> Seq<char> {
    "VCALENDAR has no components (no VEVENT, no nested blocks); likely an accidental empty export"@
}

pub open spec fn empty_calendar_diags(cal: Option<VCalendarView>) -> Seq<DiagnosticView> {
    match cal {
        Some(c) => if c.events.len() == 0 && c.unrecognized_components.len() == 0 {
            seq![diag_at("structure/empty-calendar"@, Severity::Info, empty_calendar_message(), 1)]
        } else {
            seq![]
        },
        None => seq![],
    }
}

proof fn lemma_per_line_step(ls: Seq<Seq<char>>, f: spec_fn(int, Seq<char>) -> Seq<DiagnosticView>, i: int)
    requires
        0 <= i < ls.len(),
    ensures
        per_line(ls.take(i + 1), f) == per_line(ls.take(i), f) + f(i, ls[i]),
{
    let t = ls.take(i + 1);
    assert(t.drop_last() =~= ls.take(i));
    assert(t.last() == ls[i]);
}

fn utf8_width_exec(c: char) -> (r: u128)
    ensures
        r == utf8_width(c),
{
    let n = c as u32;
    if n < 0x80 {
        1
    } else if n < 0x800 {
        2
    } else if n < 0x10000 {
        3
    } else {
        4
    }
}

/// Decimal digits of a wide count.
fn decimal_wide(n: u128) -> (r: Vec<char>)
    ensures
        r@ == decimal(n as nat),
    decreases n,
{
    if n <= u64::MAX as u128 {
        decimal_chars(n as u64)
    } else {
        let mut v = decimal_wide(n / 10);
        let d = decimal_chars((n % 10) as u64);
        assert(d@ == decimal((n % 10) as nat));
        assert(decimal((n % 10) as nat) == seq![crate::date::digit_char((n % 10) as int)]);
        push_chars(&mut v, &d);
        v
    }
}

/// `line` with its trailing `\r`s dropped, and its UTF-8 length.
fn trimmed_width(raw: &Vec<char>) -> (r: (usize, u128))
    ensures
        r.0 == trim_end_cr(raw@).len(),
        r.1 == utf8_len(trim_end_cr(raw@)),
{
    let mut k = raw.len();
    assert(raw@.take(k as int) =~= raw@);
    while k > 0 && raw[k - 1] == '\r'
        invariant
            k <= raw.len(),
            trim_end_cr(raw@) == trim_end_cr(raw@.take(k as int)),
        decreases k,
    {
        let ghost t = raw@.take(k as int);
        assert(t.drop_last() =~= raw@.take(k - 1));
        k = k - 1;
    }
    let ghost line = raw@.take(k as int);
    assert(trim_end_cr(line) == line);
    let mut total: u128 = 0;
    let mut i: usize = 0;
    assert(line.take(0) =~= seq![]);
    while i < k
        invariant
            i <= k <= raw.len(),
            line == raw@.take(k as int),
            total == utf8_len(line.take(i as int)),
            total <= 4 * i,
        decreases k - i,
    {
        let ghost t = line.take(i + 1);
        assert(t.drop_last() =~= line.take(i as int));
        assert(t.last() == raw@[i as int]);
        total = total + utf8_width_exec(raw[i]);
        i = i + 1;
    }
    assert(line.take(k as int) =~= line);
    (k, total)
}

/// `structure/unfolded-long-line` — a physical line exceeds 75 octets
/// (RFC 5545 §3.1).
pub struct UnfoldedLongLine;

impl Rule for UnfoldedLongLine {
    fn id(&self) -> (r: &'static str)
        ensures
            r@ == "structure/unfolded-long-line"@,
    {
        "structure/unfolded-long-line"
    }

    fn default_severity(&self) -> (r: Severity)
        ensures
            r == Severity::Warning,
    {
        Severity::Warning
    }

    fn visit(&self, ctx: &LintContext<'_>, sink: &mut DiagnosticSink)
        ensures
            final(sink)@ == old(sink)@ + unfolded_long_line_diags(ctx.source@),
    {
        let parts = split_chars(&chars_of(ctx.source), '\n');
        let ghost ps = parts.deep_view();
        let ghost f = long_line_check(ps.len() as int);
        let ghost start = sink@;
        let count = parts.len();
        let mut idx: usize = 0;
        while idx < parts.len()
            invariant
                idx <= parts.len(),
                count == parts.len(),
                ps == parts.deep_view(),
                ps == split_on(ctx.source@, '\n'),
                f == long_line_check(ps.len() as int),
                sink@ == start + per_line(ps.take(idx as int), f),
            decreases parts.len() - idx,
        {
            proof {
                lemma_per_line_step(ps, f, idx as int);
            }
            assert(ps[idx as int] == parts[idx as int]@);
            let ghost before = sink@;
            let (len, width) = trimmed_width(&parts[idx]);
            if len == 0 && idx + 1 == count {
            } else if width > 75 {
                let mut msg = chars_of("physical line is ");
                push_chars(&mut msg, &decimal_wide(width));
                push_chars(&mut msg, &chars_of(" octets; RFC 5545 §3.1 caps lines at 75 octets and requires folding"));
                push_at(sink, "structure/unfolded-long-line", Severity::Warning, &msg, #[verifier::truncate] ((idx + 1) as u32));
            }
            assert(sink@ =~= before + f(idx as int, ps[idx as int]));
            idx = idx + 1;
        }
        assert(ps.take(idx as int) =~= ps);
    }
}

/// `structure/crlf-violation` — the source uses a bare `\n` where RFC 5545
/// §3.1 requires CRLF. Reported once, at the first such line.
pub struct CrlfViolation;

impl Rule for CrlfViolation {
    fn id(&self) -> (r: &'static str)
        ensures
            r@ == "structure/crlf-violation"@,
    {
        "structure/crlf-violation"
    }

    fn default_severity(&self) -> (r: Severity)
        ensures
            r == Severity::Warning,
    {
        Severity::Warning
    }

    fn visit(&self, ctx: &LintContext<'_>, sink: &mut DiagnosticSink)
        ensures
            final(sink)@ == old(sink)@ + crlf_violation_diags(ctx.source@),
    {
        let s = chars_of(ctx.source);
        let ghost start = sink@;
        let mut i: usize = 0;
        let mut lines: u64 = 0;
        while i < s.len()
            invariant
                sink@ == start,
                start == old(sink)@,
                i <= s.len(),
                s@ == ctx.source@,
                lines == newlines_before(s@, i as int),
                lines <= i,
                forall|j: int| 0 <= j < i ==> !#[trigger] is_bare_lf(s@, j),
            decreases s.len() - i,
        {
            if s[i] == '\n' {
                let preceded_by_cr = i > 0 && s[i - 1] == '\r';
                if !preceded_by_cr {
                    proof {
                        assert(is_first_bare_lf(s@, i as int));
                        let c = choose|c: int| is_first_bare_lf(s@, c);
                        if c < i {
                            assert(!is_bare_lf(s@, c));
                        } else if c > i {
                            assert(!is_bare_lf(s@, i as int));
                        }
                    }
                    push_at(
                        sink,
                        "structure/crlf-violation",
                        Severity::Warning,
                        &chars_of("source uses bare LF line endings; RFC 5545 §3.1 requires CRLF"),
                        #[verifier::truncate] ((lines + 1) as u32),
                    );
                    return;
                }
                lines = lines + 1;
            }
            i = i + 1;
        }
        assert(!exists|c: int| is_first_bare_lf(s@, c));
        assert(old(sink)@ + seq![] =~= old(sink)@);
    }
}

/// `structure/orphan-end` — `END:NAME` without a matching open
/// `BEGIN:NAME` at the same nesting level.
pub struct OrphanEnd;

impl Rule for OrphanEnd {
    fn id(&self) -> (r: &'static str)
        ensures
            r@ == "structure/orphan-end"@,
    {
        "structure/orphan-end"
    }

    fn default_severity(&self) -> (r: Severity)
        ensures
            r == Severity::Error,
    {
        Severity::Error
    }

    fn visit(&self, ctx: &LintContext<'_>, sink: &mut DiagnosticSink)
        ensures
            final(sink)@ == old(sink)@ + orphan_end_diags(ctx.source@),
    {
        let logical = trimmed_lines(ctx.source);
        let ghost lines = logical.deep_view();
        let ghost start = sink@;
        let begin = chars_of("BEGIN:");
        let end = chars_of("END:");
        proof {
            reveal_strlit("BEGIN:");
            reveal_strlit("END:");
        }
        let mut stack: Vec<Vec<char>> = Vec::new();
        let mut i: usize = 0;
        while i < logical.len()
            invariant
                i <= logical.len(),
                lines == logical.deep_view(),
                lines == document_lines(ctx.source@),
                begin@ == "BEGIN:"@,
                end@ == "END:"@,
                begin@.len() == 6,
                end@.len() == 4,
                stack.deep_view() == orphan_fold(lines, i as nat).0,
                sink@ == start + orphan_fold(lines, i as nat).1,
            decreases logical.len() - i,
        {
            let line = &logical[i];
            assert(lines[i as int] == line@);
            let ghost st = orphan_fold(lines, i as nat);
            if has_prefix(line, &begin) {
                let mut name: Vec<char> = Vec::new();
                let mut k: usize = 6;
                while k < line.len()
                    invariant
                        6 <= k <= line.len(),
                        name@ == line@.subrange(6, k as int),
                    decreases line.len() - k,
                {
                    name.push(line[k]);
                    assert(name@ =~= line@.subrange(6, k + 1));
                    k = k + 1;
                }
                assert(name@ =~= line@.skip(6));
                let ghost before = stack.deep_view();
                assert(name.deep_view() =~= name@);
                stack.push(name);
                assert(stack.deep_view() =~= before.push(line@.skip(6)));
            } else if has_prefix(line, &end) {
                let mut name: Vec<char> = Vec::new();
                let mut k: usize = 4;
                while k < line.len()
                    invariant
                        4 <= k <= line.len(),
                        name@ == line@.subrange(4, k as int),
                    decreases line.len() - k,
                {
                    name.push(line[k]);
                    assert(name@ =~= line@.subrange(4, k + 1));
                    k = k + 1;
                }
                assert(name@ =~= line@.skip(4));
                let matched = stack.len() > 0 && chars_eq(&stack[stack.len() - 1], &name);
                proof {
                    if stack.len() > 0 {
                        assert(stack.deep_view().last() == stack@[stack.len() - 1]@);
                    }
                }
                if matched {
                    let ghost before = stack.deep_view();
                    stack.pop();
                    assert(stack.deep_view() =~= before.drop_last());
                } else {
                    let mut msg = chars_of("END:");
                    push_chars(&mut msg, &name);
                    push_chars(&mut msg, &chars_of(" has no matching BEGIN at the same nesting level"));
                    push_at(sink, "structure/orphan-end", Severity::Error, &msg, #[verifier::truncate] ((i + 1) as u32));
                }
            }
            i = i + 1;
        }
    }
}

/// `structure/empty-calendar` — the typed calendar holds no event and no
/// other component.
pub struct EmptyCalendar;

impl Rule for EmptyCalendar {
    fn id(&self) -> (r: &'static str)
        ensures
            r@ == "structure/empty-calendar"@,
    {
        "structure/empty-calendar"
    }

    fn default_severity(&self) -> (r: Severity)
        ensures
            r == Severity::Info,
    {
        Severity::Info
    }

    fn visit(&self, ctx: &LintContext<'_>, sink: &mut DiagnosticSink)
        ensures
            final(sink)@ == old(sink)@ + empty_calendar_diags(ctx_cal(ctx)),
    {
        match ctx.calendar {
            Some(cal) => {
                proof {
                    crate::raw::lemma_components_view_len(cal.unrecognized_components@);
                }
                if cal.events.len() == 0 && cal.unrecognized_components.len() == 0 {
                    push_at(sink, "structure/empty-calendar", Severity::Info, &chars_of(
                        "VCALENDAR has no components (no VEVENT, no nested blocks); likely an accidental empty export",
                    ), 1);
                    return;
                }
            },
            None => {},
        }
        assert(old(sink)@ + seq![] =~= old(sink)@);
    }
}

} // verus!
