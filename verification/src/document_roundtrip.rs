//! What the reader gives back of a whole calendar the writer wrote.
//!
//! The formatter writes one line per property, each ended by CRLF, and
//! never folds. The reader unfolds, trims and splits the text back into
//! those same lines as long as no line holds a line break, starts or
//! ends with white space. From those lines it rebuilds the calendar.

use vstd::prelude::*;
use crate::calendar::{
    insert_by_index, calendar_text, component_text, components_text, emitted_transp, events_text, line_text,
    props_text, raw_property_text, sort_by_index, vevent_head_text, vevent_text, vevent_typed_text,
    x_properties,
};
use crate::date::{
    chrono_compact_date, chrono_compact_stamp, compact_date_digits, compact_date_text,
    compact_stamp_digits, compact_stamp_text, decimal, digit_char, padded, second_of,
    ymd_of_digits, zeros, Date, DateTime,
};
use crate::number::{all_digits, digit_value, digits_value, is_digit};
use crate::escape::{encode_spec, join_spec, lemma_decode_encode, lemma_split_join, split_spec};
use crate::event::{
    class_value_spec, lemma_class_transp_round_trip, transp_value_spec, EventClass, Transp,
    VEventView,
};
use crate::profile::{google, icloud};
use crate::profile::microsoft::{self, MsBusyStatus};
use crate::raw::{RawComponentView, RawPropertyView};
use crate::roundtrip::{
    component_lines, component_writable, components_lines, lemma_component_round_trip, prop_lines,
    read_back,
};
use crate::vcalendar::VCalendarView;
use crate::calendar::params_text;
use crate::line::{parse_logical_line_spec, LogicalLineView};
use crate::parser::{
    cal_body, cal_finish, cal_property, document_lines, empty_cal_acc, empty_event_acc, event_finish,
    is_calendar_start, parse_calendar_spec,
    event_step, has_value_date_spec, stamp_of, vevent_body, wrap_inc, CalAcc, EventAcc,
};
use crate::error::ErrorView;
use crate::roundtrip::{
    avoids, lemma_property_line_round_trip, lemma_split_over, param_writable, property_writable,
    upper_keys,
};
use crate::text::{starts_with, all_ascii, ascii_upper, unicode_uppercase, is_white_space, leading_ws, lemma_trailing_ws_bound, split_on, split_on_acc, trailing_ws, trim_end_spec, trim_spec};
use crate::unfold::{crlf_to_lf, drop_trailing_empty, fold_lines, strip_bom_spec, unfold_spec};

verus! {

// ---------------------------------------------------------------------
// Text and lines
// ---------------------------------------------------------------------

/// Lines, each followed by CRLF.
pub open spec fn lines_text(ls: Seq<Seq<char>>) -> Seq<char>
    decreases ls.len(),
{
    if ls.len() == 0 {
        seq![]
    } else {
        line_text(ls[0]) + lines_text(ls.skip(1))
    }
}

/// Lines, each followed by LF.
pub open spec fn lf_text(ls: Seq<Seq<char>>) -> Seq<char>
    decreases ls.len(),
{
    if ls.len() == 0 {
        seq![]
    } else {
        ls[0] + seq!['\n'] + lf_text(ls.skip(1))
    }
}

/// A line the reader gives back as written: not empty, without a line
/// feed, not starting or ending with white space.
pub open spec fn line_safe(l: Seq<char>) -> bool {
    &&& l.len() > 0
    &&& avoids(l, '\n')
    &&& !is_white_space(l[0])
    &&& !is_white_space(l.last())
}

/// Every line is safe.
pub open spec fn lines_safe(ls: Seq<Seq<char>>) -> bool {
    forall|i: int| 0 <= i < ls.len() ==> #[trigger] line_safe(ls[i])
}

/// Non-empty, free of line breaks, and not starting with white space: a
/// line the reader takes as one logical line of its own.
pub open spec fn line_plain(l: Seq<char>) -> bool {
    &&& l.len() > 0
    &&& avoids(l, '\n')
    &&& !is_white_space(l[0])
}

/// Every line is plain.
pub open spec fn lines_plain(ls: Seq<Seq<char>>) -> bool {
    forall|i: int| 0 <= i < ls.len() ==> #[trigger] line_plain(ls[i])
}

proof fn lemma_lines_plain_skip(ls: Seq<Seq<char>>)
    requires
        lines_plain(ls),
        ls.len() > 0,
    ensures
        lines_plain(ls.skip(1)),
        line_plain(ls[0]),
{
    assert forall|i: int| 0 <= i < ls.skip(1).len() implies #[trigger] line_plain(ls.skip(1)[i]) by {
        assert(ls.skip(1)[i] == ls[i + 1]);
    }
}

proof fn lemma_safe_lines_plain(ls: Seq<Seq<char>>)
    requires
        lines_safe(ls),
    ensures
        lines_plain(ls),
{
    assert forall|i: int| 0 <= i < ls.len() implies #[trigger] line_plain(ls[i]) by {
        assert(line_safe(ls[i]));
    }
}

proof fn lemma_crlf_over(x: Seq<char>, y: Seq<char>)
    requires
        avoids(x, '\n'),
        y.len() > 0 ==> y[0] != '\n',
    ensures
        crlf_to_lf(x + y) == x + crlf_to_lf(y),
    decreases x.len(),
{
    if x.len() == 0 {
        assert(x + y =~= y);
        assert(x + crlf_to_lf(y) =~= crlf_to_lf(y));
    } else {
        let s = x + y;
        assert(s[0] == x[0]);
        if s.len() >= 2 {
            if x.len() >= 2 {
                assert(s[1] == x[1]);
            } else {
                assert(s[1] == y[0]);
            }
        }
        assert(!(s.len() >= 2 && s[0] == '\r' && s[1] == '\n'));
        assert(s.skip(1) =~= x.skip(1) + y);
        lemma_crlf_over(x.skip(1), y);
        assert(seq![x[0]] + (x.skip(1) + crlf_to_lf(y)) =~= x + crlf_to_lf(y));
    }
}

proof fn lemma_crlf_lines(ls: Seq<Seq<char>>)
    requires
        lines_plain(ls),
    ensures
        crlf_to_lf(lines_text(ls)) == lf_text(ls),
    decreases ls.len(),
{
    if ls.len() > 0 {
        lemma_lines_plain_skip(ls);
        let rest = lines_text(ls.skip(1));
        let crlf_rest = seq!['\r', '\n'] + rest;
        assert(lines_text(ls) =~= ls[0] + crlf_rest);
        lemma_crlf_over(ls[0], crlf_rest);
        assert(crlf_rest[0] == '\r' && crlf_rest[1] == '\n');
        assert(crlf_rest.skip(2) =~= rest);
        lemma_crlf_lines(ls.skip(1));
        assert(ls[0] + (seq!['\n'] + lf_text(ls.skip(1))) =~= lf_text(ls));
    }
}

proof fn lemma_split_lines(ls: Seq<Seq<char>>)
    requires
        lines_plain(ls),
    ensures
        split_on_acc(lf_text(ls), '\n', seq![]) == ls.push(seq![]),
    decreases ls.len(),
{
    if ls.len() == 0 {
        assert(ls.push(seq![]) =~= seq![seq![]]);
    } else {
        lemma_lines_plain_skip(ls);
        let rest = seq!['\n'] + lf_text(ls.skip(1));
        assert(lf_text(ls) =~= ls[0] + rest);
        lemma_split_over(ls[0], rest, '\n', seq![]);
        assert(seq![] + ls[0] =~= ls[0]);
        assert(rest[0] == '\n');
        assert(rest.skip(1) =~= lf_text(ls.skip(1)));
        lemma_split_lines(ls.skip(1));
        assert(seq![ls[0]] + ls.skip(1).push(seq![]) =~= ls.push(seq![]));
    }
}

/// Empty, or not starting with white space.
pub open spec fn starts_plain(l: Seq<char>) -> bool {
    l.len() == 0 || !is_white_space(l[0])
}

/// Folding physical lines none of which continues another.
proof fn lemma_fold_plain(xs: Seq<Seq<char>>, done: Seq<Seq<char>>, cur: Option<Seq<char>>)
    requires
        forall|i: int| 0 <= i < xs.len() ==> #[trigger] starts_plain(xs[i]),
    ensures
        fold_lines(xs, done, cur) == (match cur {
            Some(c) => done.push(c),
            None => done,
        }) + xs,
    decreases xs.len(),
{
    let d2 = match cur {
        Some(c) => done.push(c),
        None => done,
    };
    if xs.len() == 0 {
        assert(d2 + xs =~= d2);
    } else {
        let l = xs[0];
        assert(starts_plain(l));
        assert(!(l.len() > 0 && (l[0] == ' ' || l[0] == '\t')));
        assert forall|i: int| 0 <= i < xs.skip(1).len() implies #[trigger] starts_plain(
            xs.skip(1)[i],
        ) by {
            assert(xs.skip(1)[i] == xs[i + 1]);
        }
        lemma_fold_plain(xs.skip(1), d2, Some(l));
        assert(d2.push(l) + xs.skip(1) =~= d2 + xs);
    }
}

proof fn lemma_trim_safe(l: Seq<char>)
    requires
        line_safe(l),
    ensures
        trim_spec(l) == l,
{
    assert(leading_ws(l) == 0);
    assert(l.skip(0) =~= l);
    assert(trailing_ws(l) == 0);
    assert(l.take(l.len() as int) =~= l);
}

/// Plain lines written with CRLF are read back as the same lines,
/// trimmed.
pub proof fn lemma_document_lines_trimmed(ls: Seq<Seq<char>>)
    requires
        lines_plain(ls),
        ls.len() > 0 ==> ls[0][0] != '\u{feff}',
    ensures
        document_lines(lines_text(ls)) == ls.map_values(|l: Seq<char>| trim_spec(l)),
{
    let t = lines_text(ls);
    if ls.len() > 0 {
        assert(line_plain(ls[0]));
        assert(t[0] == ls[0][0]);
    }
    assert(strip_bom_spec(t) == t);
    lemma_crlf_lines(ls);
    lemma_split_lines(ls);
    let xs = ls.push(seq![]);
    assert forall|i: int| 0 <= i < xs.len() implies #[trigger] starts_plain(xs[i]) by {
        if i < ls.len() {
            assert(line_plain(ls[i]));
        }
    }
    lemma_fold_plain(xs, seq![], None);
    assert(fold_lines(xs, seq![], None) =~= xs);
    assert(xs.last().len() == 0);
    assert(xs.drop_last() =~= ls);
    if ls.len() > 0 {
        assert(line_plain(ls.last()));
    }
    assert(drop_trailing_empty(xs) == drop_trailing_empty(ls));
    assert(drop_trailing_empty(ls) == ls);
    assert(unfold_spec(t) == ls);
}

/// Safe lines written with CRLF are read back as the same lines.
pub proof fn lemma_document_lines(ls: Seq<Seq<char>>)
    requires
        lines_safe(ls),
        ls.len() > 0 ==> ls[0][0] != '\u{feff}',
    ensures
        document_lines(lines_text(ls)) == ls,
{
    lemma_safe_lines_plain(ls);
    lemma_document_lines_trimmed(ls);
    assert forall|i: int| 0 <= i < ls.len() implies trim_spec(ls[i]) == ls[i] by {
        assert(line_safe(ls[i]));
        lemma_trim_safe(ls[i]);
    }
    assert(ls.map_values(|l: Seq<char>| trim_spec(l)) =~= ls);
}


// ---------------------------------------------------------------------
// The lines the formatter writes
// ---------------------------------------------------------------------

/// One line when `o` holds one, none otherwise.
pub open spec fn opt_line(o: Option<Seq<char>>) -> Seq<Seq<char>> {
    match o {
        Some(l) => seq![l],
        None => seq![],
    }
}

/// The Microsoft busy status of an event, if it has one.
pub open spec fn busystatus_of(e: VEventView) -> Option<MsBusyStatus> {
    match e.microsoft {
        Some(m) => m.busystatus,
        None => None,
    }
}

/// The head lines of an event: `BEGIN:VEVENT` through `SUMMARY`.
pub open spec fn vevent_head_lines(e: VEventView) -> Seq<Seq<char>> {
    seq![
        "BEGIN:VEVENT"@,
        "UID:"@ + e.uid,
        "DTSTAMP:"@ + compact_stamp_text(e.dtstamp),
        "DTSTART;VALUE=DATE:"@ + compact_date_text(e.dtstart),
        "DTEND;VALUE=DATE:"@ + compact_date_text(e.dtend),
        "SUMMARY:"@ + encode_spec(e.summary),
    ]
}

/// The typed optional lines of an event.
pub open spec fn vevent_typed_lines(e: VEventView) -> Seq<Seq<char>> {
    opt_line(
        match emitted_transp(e) {
            Some(v) => Some("TRANSP:"@ + v),
            None => None,
        },
    ) + opt_line(
        match busystatus_of(e) {
            Some(b) => Some("X-MICROSOFT-CDO-BUSYSTATUS:"@ + microsoft::cdo_value_spec(b)),
            None => None,
        },
    ) + opt_line(
        match e.class {
            Some(c) => Some("CLASS:"@ + class_value_spec(c)),
            None => None,
        },
    ) + opt_line(
        if e.categories.len() > 0 {
            Some("CATEGORIES:"@ + join_spec(e.categories))
        } else {
            None
        },
    )
}

/// The lines of an event, in the order the formatter writes them.
pub open spec fn vevent_lines(e: VEventView) -> Seq<Seq<char>> {
    vevent_head_lines(e) + vevent_typed_lines(e) + prop_lines(sort_by_index(x_properties(e)))
        + components_lines(e.unrecognized_components) + seq!["END:VEVENT"@]
}

/// The lines of a sequence of events.
pub open spec fn events_lines(es: Seq<VEventView>) -> Seq<Seq<char>>
    decreases es.len(),
{
    if es.len() == 0 {
        seq![]
    } else {
        vevent_lines(es[0]) + events_lines(es.skip(1))
    }
}

/// The lines of a calendar, in the order the formatter writes them.
pub open spec fn calendar_lines(c: VCalendarView) -> Seq<Seq<char>> {
    seq!["BEGIN:VCALENDAR"@, "VERSION:"@ + c.version, "PRODID:"@ + c.prodid] + opt_line(
        match c.calscale {
            Some(v) => Some("CALSCALE:"@ + v),
            None => None,
        },
    ) + opt_line(
        match c.method {
            Some(v) => Some("METHOD:"@ + v),
            None => None,
        },
    ) + events_lines(c.events) + components_lines(c.unrecognized_components) + seq![
        "END:VCALENDAR"@,
    ]
}

proof fn lemma_lines_text_append(a: Seq<Seq<char>>, b: Seq<Seq<char>>)
    ensures
        lines_text(a + b) == lines_text(a) + lines_text(b),
    decreases a.len(),
{
    if a.len() == 0 {
        assert(a + b =~= b);
        assert(lines_text(a) + lines_text(b) =~= lines_text(b));
    } else {
        assert((a + b)[0] == a[0]);
        assert((a + b).skip(1) =~= a.skip(1) + b);
        lemma_lines_text_append(a.skip(1), b);
        assert(line_text(a[0]) + (lines_text(a.skip(1)) + lines_text(b)) =~= lines_text(a)
            + lines_text(b));
    }
}

proof fn lemma_lines_text_one(l: Seq<char>)
    ensures
        lines_text(seq![l]) == line_text(l),
{
    let e = seq![l].skip(1);
    assert(e =~= Seq::<Seq<char>>::empty());
    assert(lines_text(e) == Seq::<char>::empty());
    assert(seq![l][0] == l);
    assert(line_text(l) + Seq::<char>::empty() =~= line_text(l));
}

proof fn lemma_lines_text_cons(l: Seq<char>, rest: Seq<Seq<char>>)
    ensures
        lines_text(seq![l] + rest) == line_text(l) + lines_text(rest),
{
    lemma_lines_text_append(seq![l], rest);
    lemma_lines_text_one(l);
}

proof fn lemma_opt_line_text(o: Option<Seq<char>>)
    ensures
        lines_text(opt_line(o)) == (match o {
            Some(l) => line_text(l),
            None => seq![],
        }),
{
    match o {
        Some(l) => lemma_lines_text_one(l),
        None => {},
    }
}

proof fn lemma_props_text(ps: Seq<RawPropertyView>)
    ensures
        props_text(ps) == lines_text(prop_lines(ps)),
    decreases ps.len(),
{
    if ps.len() > 0 {
        lemma_props_text(ps.skip(1));
        assert(prop_lines(ps) =~= seq![raw_property_text(ps[0])] + prop_lines(ps.skip(1)));
        lemma_lines_text_append(seq![raw_property_text(ps[0])], prop_lines(ps.skip(1)));
        lemma_lines_text_one(raw_property_text(ps[0]));
    } else {
        assert(prop_lines(ps) =~= seq![]);
    }
}

proof fn lemma_component_text(c: RawComponentView)
    ensures
        component_text(c) == lines_text(component_lines(c)),
    decreases c, 1int,
{
    lemma_props_text(c.properties);
    lemma_components_text(c.sub_components);
    let a = seq!["BEGIN:"@ + c.name];
    let b = prop_lines(c.properties);
    let d = components_lines(c.sub_components);
    let z = seq!["END:"@ + c.name];
    lemma_lines_text_append(a + b + d, z);
    lemma_lines_text_append(a + b, d);
    lemma_lines_text_append(a, b);
    lemma_lines_text_one("BEGIN:"@ + c.name);
    lemma_lines_text_one("END:"@ + c.name);
}

proof fn lemma_components_text(cs: Seq<RawComponentView>)
    ensures
        components_text(cs) == lines_text(components_lines(cs)),
    decreases cs, 0int,
{
    if cs.len() > 0 {
        assert(cs[0] == cs[0]);
        lemma_component_text(cs[0]);
        lemma_components_text(cs.skip(1));
        lemma_lines_text_append(component_lines(cs[0]), components_lines(cs.skip(1)));
    }
}

#[verifier::spinoff_prover]
proof fn lemma_vevent_text(e: VEventView)
    ensures
        vevent_text(e) == lines_text(vevent_lines(e)),
{
    let h = vevent_head_lines(e);
    let t = vevent_typed_lines(e);
    let x = prop_lines(sort_by_index(x_properties(e)));
    let k = components_lines(e.unrecognized_components);
    let z = seq!["END:VEVENT"@];
    lemma_lines_text_append(h + t + x + k, z);
    lemma_lines_text_append(h + t + x, k);
    lemma_lines_text_append(h + t, x);
    lemma_lines_text_append(h, t);
    lemma_lines_text_one("END:VEVENT"@);
    lemma_props_text(sort_by_index(x_properties(e)));
    lemma_components_text(e.unrecognized_components);
    // the head
    let l0 = "BEGIN:VEVENT"@;
    let l1 = "UID:"@ + e.uid;
    let l2 = "DTSTAMP:"@ + compact_stamp_text(e.dtstamp);
    let l3 = "DTSTART;VALUE=DATE:"@ + compact_date_text(e.dtstart);
    let l4 = "DTEND;VALUE=DATE:"@ + compact_date_text(e.dtend);
    let l5 = "SUMMARY:"@ + encode_spec(e.summary);
    assert(h =~= seq![l0] + (seq![l1] + (seq![l2] + (seq![l3] + (seq![l4] + seq![l5])))));
    lemma_lines_text_cons(l4, seq![l5]);
    lemma_lines_text_one(l5);
    lemma_lines_text_cons(l3, seq![l4] + seq![l5]);
    lemma_lines_text_cons(l2, seq![l3] + (seq![l4] + seq![l5]));
    lemma_lines_text_cons(l1, seq![l2] + (seq![l3] + (seq![l4] + seq![l5])));
    lemma_lines_text_cons(l0, seq![l1] + (seq![l2] + (seq![l3] + (seq![l4] + seq![l5]))));
    assert(lines_text(h) =~= vevent_head_text(e));
    // the typed lines
    let t1 = opt_line(
        match emitted_transp(e) {
            Some(v) => Some("TRANSP:"@ + v),
            None => None,
        },
    );
    let t2 = opt_line(
        match busystatus_of(e) {
            Some(b) => Some("X-MICROSOFT-CDO-BUSYSTATUS:"@ + microsoft::cdo_value_spec(b)),
            None => None,
        },
    );
    let t3 = opt_line(
        match e.class {
            Some(c) => Some("CLASS:"@ + class_value_spec(c)),
            None => None,
        },
    );
    let t4 = opt_line(
        if e.categories.len() > 0 {
            Some("CATEGORIES:"@ + join_spec(e.categories))
        } else {
            None
        },
    );
    lemma_lines_text_append(t1 + t2 + t3, t4);
    lemma_lines_text_append(t1 + t2, t3);
    lemma_lines_text_append(t1, t2);
    lemma_opt_line_text(
        match emitted_transp(e) {
            Some(v) => Some("TRANSP:"@ + v),
            None => None,
        },
    );
    lemma_opt_line_text(
        match busystatus_of(e) {
            Some(b) => Some("X-MICROSOFT-CDO-BUSYSTATUS:"@ + microsoft::cdo_value_spec(b)),
            None => None,
        },
    );
    lemma_opt_line_text(
        match e.class {
            Some(c) => Some("CLASS:"@ + class_value_spec(c)),
            None => None,
        },
    );
    lemma_opt_line_text(
        if e.categories.len() > 0 {
            Some("CATEGORIES:"@ + join_spec(e.categories))
        } else {
            None
        },
    );
    assert(lines_text(t) =~= vevent_typed_text(e));
}

proof fn lemma_events_text(es: Seq<VEventView>)
    ensures
        events_text(es) == lines_text(events_lines(es)),
    decreases es.len(),
{
    if es.len() > 0 {
        lemma_vevent_text(es[0]);
        lemma_events_text(es.skip(1));
        lemma_lines_text_append(vevent_lines(es[0]), events_lines(es.skip(1)));
    }
}

/// The formatter's text of a calendar is the text of its lines.
#[verifier::spinoff_prover]
#[verifier::rlimit(40)]
pub proof fn lemma_calendar_text(c: VCalendarView)
    ensures
        calendar_text(c) == lines_text(calendar_lines(c)),
{
    let h = seq!["BEGIN:VCALENDAR"@, "VERSION:"@ + c.version, "PRODID:"@ + c.prodid];
    let o1 = opt_line(
        match c.calscale {
            Some(v) => Some("CALSCALE:"@ + v),
            None => None,
        },
    );
    let o2 = opt_line(
        match c.method {
            Some(v) => Some("METHOD:"@ + v),
            None => None,
        },
    );
    let ev = events_lines(c.events);
    let k = components_lines(c.unrecognized_components);
    let z = seq!["END:VCALENDAR"@];
    lemma_lines_text_append(h + o1 + o2 + ev + k, z);
    lemma_lines_text_append(h + o1 + o2 + ev, k);
    lemma_lines_text_append(h + o1 + o2, ev);
    lemma_lines_text_append(h + o1, o2);
    lemma_lines_text_append(h, o1);
    lemma_lines_text_one("END:VCALENDAR"@);
    let c0 = "BEGIN:VCALENDAR"@;
    let c1 = "VERSION:"@ + c.version;
    let c2 = "PRODID:"@ + c.prodid;
    assert(h =~= seq![c0] + (seq![c1] + seq![c2]));
    lemma_lines_text_cons(c1, seq![c2]);
    lemma_lines_text_one(c2);
    lemma_lines_text_cons(c0, seq![c1] + seq![c2]);
    lemma_opt_line_text(
        match c.calscale {
            Some(v) => Some("CALSCALE:"@ + v),
            None => None,
        },
    );
    lemma_opt_line_text(
        match c.method {
            Some(v) => Some("METHOD:"@ + v),
            None => None,
        },
    );
    lemma_events_text(c.events);
    lemma_components_text(c.unrecognized_components);
    assert(lines_text(calendar_lines(c)) =~= calendar_text(c));
}


// ---------------------------------------------------------------------
// Dates and names read back
// ---------------------------------------------------------------------

proof fn lemma_digit_char(n: int)
    requires
        0 <= n < 10,
    ensures
        is_digit(digit_char(n)),
        digit_value(digit_char(n)) == n,
{
}

/// The decimal digits of `n` spell `n`; below 10, 100 and 10000 there are
/// at most one, two and four of them.
proof fn lemma_decimal(n: nat)
    ensures
        all_digits(decimal(n)),
        digits_value(decimal(n)) == n,
        decimal(n).len() >= 1,
        n < 10 ==> decimal(n).len() == 1,
        n < 100 ==> decimal(n).len() <= 2,
        n < 1000 ==> decimal(n).len() <= 3,
        n < 10000 ==> decimal(n).len() <= 4,
    decreases n,
{
    if n < 10 {
        lemma_digit_char(n as int);
        let d = decimal(n);
        assert(d.drop_last() =~= Seq::<char>::empty());
        assert(digits_value(d.drop_last()) == 0);
    } else {
        lemma_decimal(n / 10);
        lemma_digit_char((n % 10) as int);
        let d = decimal(n);
        assert(d.drop_last() =~= decimal(n / 10));
        assert(n == (n / 10) * 10 + n % 10);
        assert forall|i: int| 0 <= i < d.len() implies #[trigger] is_digit(d[i]) by {
            if i < d.len() - 1 {
                assert(d[i] == decimal(n / 10)[i]);
            }
        }
    }
}

proof fn lemma_zeros_value(k: int, x: Seq<char>)
    ensures
        digits_value(zeros(k) + x) == digits_value(x),
        all_digits(x) ==> all_digits(zeros(k) + x),
    decreases x.len(),
{
    if x.len() == 0 {
        lemma_zeros_only(k);
        assert(zeros(k) + x =~= zeros(k));
    } else {
        lemma_zeros_value(k, x.drop_last());
        assert((zeros(k) + x).drop_last() =~= zeros(k) + x.drop_last());
        assert((zeros(k) + x).last() == x.last());
    }
    if all_digits(x) {
        assert forall|i: int| 0 <= i < (zeros(k) + x).len() implies #[trigger] is_digit(
            (zeros(k) + x)[i],
        ) by {
            if i >= zeros(k).len() {
                assert((zeros(k) + x)[i] == x[i - zeros(k).len()]);
            }
        }
    }
}

proof fn lemma_zeros_only(k: int)
    ensures
        digits_value(zeros(k)) == 0,
    decreases if k > 0 {
        k
    } else {
        0
    },
{
    if k > 0 {
        lemma_zeros_only(k - 1);
        assert(zeros(k).drop_last() =~= zeros(k - 1));
    } else {
        assert(zeros(k) =~= Seq::<char>::empty());
    }
}

/// `n` padded to `w` digits is `w` digits spelling `n`.
proof fn lemma_padded(n: nat, w: int)
    requires
        decimal(n).len() <= w,
    ensures
        padded(n, w).len() == w,
        all_digits(padded(n, w)),
        digits_value(padded(n, w)) == n,
{
    lemma_decimal(n);
    lemma_zeros_value(w - decimal(n).len(), decimal(n));
}

/// A date of a year from 0 to 9999, written `YYYYMMDD`, is what chrono
/// reads back from that text.
proof fn lemma_compact_date_read(d: Date)
    requires
        d.valid(),
        0 <= d.year <= 9999,
    ensures
        compact_date_text(d).len() == 8,
        compact_date_digits(compact_date_text(d)),
        ymd_of_digits(compact_date_text(d)) == (d.year, d.month, d.day),
        chrono_compact_date(compact_date_text(d)) == Ok::<(i32, u32, u32), Seq<char>>(
            (d.year, d.month, d.day),
        ),
{
    reveal(chrono_compact_date);
    lemma_decimal(d.year as nat);
    lemma_decimal(d.month as nat);
    lemma_decimal(d.day as nat);
    lemma_padded(d.year as nat, 4);
    lemma_padded(d.month as nat, 2);
    lemma_padded(d.day as nat, 2);
    let y = padded(d.year as nat, 4);
    let m = padded(d.month as nat, 2);
    let dd = padded(d.day as nat, 2);
    let t = compact_date_text(d);
    assert(t == y + m + dd);
    assert(t.take(4) =~= y);
    assert(t.subrange(4, 6) =~= m);
    assert(t.subrange(6, 8) =~= dd);
    assert forall|i: int| 0 <= i < t.len() implies #[trigger] is_digit(t[i]) by {
        if i < 4 {
            assert(t[i] == y[i]);
        } else if i < 6 {
            assert(t[i] == m[i - 4]);
        } else {
            assert(t[i] == dd[i - 6]);
        }
    }
}

/// A timestamp of a year from 0 to 9999 with no fraction of a second,
/// written `YYYYMMDDTHHMMSSZ`, is what chrono reads back from that text.
proof fn lemma_compact_stamp_read(t: DateTime)
    requires
        t.valid(),
        0 <= t.date.year <= 9999,
        t.nanosecond == 0,
    ensures
        chrono_compact_stamp(compact_stamp_text(t)) == Ok::<
            (i32, u32, u32, u32, u32, u32, u32),
            Seq<char>,
        >((t.date.year, t.date.month, t.date.day, t.hour, t.minute, t.second, 0)),
{
    reveal(chrono_compact_stamp);
    lemma_compact_date_read(t.date);
    lemma_decimal(t.hour as nat);
    lemma_decimal(t.minute as nat);
    lemma_decimal(t.second as nat);
    lemma_padded(t.hour as nat, 2);
    lemma_padded(t.minute as nat, 2);
    lemma_padded(t.second as nat, 2);
    let dt = compact_date_text(t.date);
    let h = padded(t.hour as nat, 2);
    let mi = padded(t.minute as nat, 2);
    let se = padded(t.second as nat, 2);
    let s = compact_stamp_text(t);
    assert(second_of(t) == t.second);
    assert(s == dt + seq!['T'] + h + mi + se + seq!['Z']);
    assert(s.len() == 16);
    assert(s.take(8) =~= dt);
    assert(s[8] == 'T');
    assert(s[15] == 'Z');
    assert(s.subrange(9, 11) =~= h);
    assert(s.subrange(11, 13) =~= mi);
    assert(s.subrange(13, 15) =~= se);
    assert forall|i: int| 0 <= i < s.subrange(9, 15).len() implies #[trigger] is_digit(
        s.subrange(9, 15)[i],
    ) by {
        if i < 2 {
            assert(s.subrange(9, 15)[i] == h[i]);
        } else if i < 4 {
            assert(s.subrange(9, 15)[i] == mi[i - 2]);
        } else {
            assert(s.subrange(9, 15)[i] == se[i - 4]);
        }
    }
    assert(compact_stamp_digits(s));
}

/// An ASCII name without lower-case letters is left as it is by
/// upper-casing.
proof fn lemma_upper_fixed(s: Seq<char>)
    requires
        all_ascii(s),
        forall|i: int| 0 <= i < s.len() ==> !('a' <= #[trigger] s[i] && s[i] <= 'z'),
    ensures
        unicode_uppercase(s) == s,
{
    reveal(unicode_uppercase);
    assert(s.map_values(|c: char| ascii_upper(c)) =~= s);
}


// ---------------------------------------------------------------------
// Reading an event back
// ---------------------------------------------------------------------

/// `seg` stands in `lines` from `idx` on.
pub open spec fn at(lines: Seq<Seq<char>>, idx: int, seg: Seq<Seq<char>>) -> bool {
    &&& 0 <= idx
    &&& idx + seg.len() <= lines.len()
    &&& lines.subrange(idx, idx + seg.len()) == seg
}

proof fn lemma_at_split(lines: Seq<Seq<char>>, idx: int, a: Seq<Seq<char>>, b: Seq<Seq<char>>)
    requires
        at(lines, idx, a + b),
    ensures
        at(lines, idx, a),
        at(lines, idx + a.len(), b),
{
    assert(lines.subrange(idx, idx + a.len()) =~= (a + b).subrange(0, a.len() as int));
    assert((a + b).subrange(0, a.len() as int) =~= a);
    assert(lines.subrange(idx + a.len(), idx + a.len() + b.len()) =~= (a + b).subrange(
        a.len() as int,
        (a.len() + b.len()) as int,
    ));
    assert((a + b).subrange(a.len() as int, (a.len() + b.len()) as int) =~= b);
}

proof fn lemma_at_first(lines: Seq<Seq<char>>, idx: int, seg: Seq<Seq<char>>)
    requires
        at(lines, idx, seg),
        seg.len() > 0,
    ensures
        lines[idx] == seg[0],
        at(lines, idx + 1, seg.skip(1)),
{
    assert(lines.subrange(idx, idx + seg.len())[0] == lines[idx]);
    assert(seg =~= seq![seg[0]] + seg.skip(1));
    lemma_at_split(lines, idx, seq![seg[0]], seg.skip(1));
}

/// One property line of an event body, read.
proof fn lemma_event_line(
    lines: Seq<Seq<char>>,
    idx: int,
    a: EventAcc,
    ll: LogicalLineView,
    a2: EventAcc,
)
    requires
        0 <= idx < lines.len(),
        lines[idx] != "END:VEVENT"@,
        !starts_with(lines[idx], "BEGIN:"@),
        parse_logical_line_spec(lines[idx]) == Some(ll),
        event_step(a, ll, (idx + 1) as u32) == Ok::<EventAcc, ErrorView>(a2),
    ensures
        vevent_body(lines, idx, a) == vevent_body(lines, idx + 1, a2),
{
}

/// Can `name` stand as the name of a written property that the line
/// parser reads back unchanged? It is non-empty ASCII without lower-case
/// letters, `:` or `;`.
pub open spec fn plain_name(name: Seq<char>) -> bool {
    &&& name.len() > 0
    &&& all_ascii(name)
    &&& forall|i: int| 0 <= i < name.len() ==> !('a' <= #[trigger] name[i] && name[i] <= 'z')
    &&& avoids(name, ':')
    &&& avoids(name, ';')
}

/// `NAME:value` is read as the property `NAME` with that value.
proof fn lemma_plain_line(name: Seq<char>, value: Seq<char>)
    requires
        plain_name(name),
    ensures
        parse_logical_line_spec(name + seq![':'] + value) == Some(
            LogicalLineView { name, params: seq![], value },
        ),
{
    let p = RawPropertyView { name, params: seq![], value, source_index: 0 };
    assert(property_writable(p));
    lemma_property_line_round_trip(p);
    assert(params_text(seq![]) =~= Seq::<char>::empty());
    assert(raw_property_text(p) =~= name + seq![':'] + value);
    lemma_upper_fixed(name);
    assert(upper_keys(seq![]) =~= seq![]);
}

/// `NAME;VALUE=DATE:value` is read as the property `NAME` with the
/// parameter `VALUE=DATE` and that value.
proof fn lemma_date_line(name: Seq<char>, value: Seq<char>)
    requires
        plain_name(name),
    ensures
        parse_logical_line_spec(name + ";VALUE=DATE:"@ + value) == Some(
            LogicalLineView { name, params: seq![("VALUE"@, "DATE"@)], value },
        ),
        has_value_date_spec(seq![("VALUE"@, "DATE"@)]),
{
    reveal_strlit("VALUE");
    reveal_strlit("DATE");
    reveal_strlit(";VALUE=DATE:");
    reveal_strlit(";VALUE=DATE");
    let ps = seq![("VALUE"@, "DATE"@)];
    let p = RawPropertyView { name, params: ps, value, source_index: 0 };
    assert(param_writable(ps[0]));
    assert(property_writable(p));
    lemma_property_line_round_trip(p);
    assert(ps.skip(1) =~= seq![]);
    assert(params_text(ps.skip(1)) =~= Seq::<char>::empty());
    assert(params_text(ps) =~= ";VALUE=DATE"@);
    assert(raw_property_text(p) =~= name + ";VALUE=DATE:"@ + value);
    lemma_upper_fixed(name);
    lemma_upper_fixed("VALUE"@);
    assert(upper_keys(ps) =~= ps);
    assert(ps[0] == ("VALUE"@, "DATE"@));
}


/// A line whose first character is neither `B` nor `E` is no `BEGIN:` or
/// `END:` line.
proof fn lemma_not_begin_end(l: Seq<char>)
    requires
        l.len() > 0,
        l[0] != 'B',
        l[0] != 'E',
    ensures
        l != "END:VEVENT"@,
        l != "END:VCALENDAR"@,
        !starts_with(l, "BEGIN:"@),
{
    reveal_strlit("END:VEVENT");
    reveal_strlit("END:VCALENDAR");
    reveal_strlit("BEGIN:");
    if starts_with(l, "BEGIN:"@) {
        assert(l.take(6)[0] == l[0]);
    }
}

/// The dates of an event are ones chrono reads back from their text.
pub open spec fn dates_readable(e: VEventView) -> bool {
    &&& e.dtstamp.valid()
    &&& 0 <= e.dtstamp.date.year <= 9999
    &&& e.dtstamp.nanosecond == 0
    &&& e.dtstart.valid()
    &&& 0 <= e.dtstart.year <= 9999
    &&& e.dtend.valid()
    &&& 0 <= e.dtend.year <= 9999
}

/// The fields the head lines of `e` give.
pub open spec fn head_acc(e: VEventView) -> EventAcc {
    EventAcc {
        uid: e.uid,
        dtstamp: Some(e.dtstamp),
        dtstart: Some(e.dtstart),
        dtend: Some(e.dtend),
        summary: e.summary,
        ..empty_event_acc()
    }
}

proof fn lemma_uid_line(lines: Seq<Seq<char>>, idx: int, a: EventAcc, v: Seq<char>)
    requires
        0 <= idx < lines.len(),
        lines[idx] == "UID:"@ + v,
    ensures
        vevent_body(lines, idx, a) == vevent_body(lines, idx + 1, EventAcc { uid: v, ..a }),
{
    reveal_strlit("UID");
    reveal_strlit("UID:");
    assert(lines[idx] =~= "UID"@ + seq![':'] + v);
    lemma_plain_line("UID"@, v);
    lemma_not_begin_end(lines[idx]);
    lemma_event_line(
        lines,
        idx,
        a,
        LogicalLineView { name: "UID"@, params: seq![], value: v },
        EventAcc { uid: v, ..a },
    );
}

proof fn lemma_dtstamp_line(lines: Seq<Seq<char>>, idx: int, a: EventAcc, t: DateTime)
    requires
        0 <= idx < lines.len(),
        lines[idx] == "DTSTAMP:"@ + compact_stamp_text(t),
        t.valid(),
        0 <= t.date.year <= 9999,
        t.nanosecond == 0,
    ensures
        vevent_body(lines, idx, a) == vevent_body(
            lines,
            idx + 1,
            EventAcc { dtstamp: Some(t), ..a },
        ),
{
    reveal_strlit("UID");
    reveal_strlit("DTSTAMP");
    reveal_strlit("DTSTAMP:");
    let st = compact_stamp_text(t);
    assert(lines[idx] =~= "DTSTAMP"@ + seq![':'] + st);
    lemma_plain_line("DTSTAMP"@, st);
    lemma_not_begin_end(lines[idx]);
    lemma_compact_stamp_read(t);
    assert(stamp_of((t.date.year, t.date.month, t.date.day, t.hour, t.minute, t.second, 0)) == t);
    assert("DTSTAMP"@.len() != "UID"@.len());
    lemma_event_line(
        lines,
        idx,
        a,
        LogicalLineView { name: "DTSTAMP"@, params: seq![], value: st },
        EventAcc { dtstamp: Some(t), ..a },
    );
}

proof fn lemma_dtstart_line(lines: Seq<Seq<char>>, idx: int, a: EventAcc, d: Date)
    requires
        0 <= idx < lines.len(),
        lines[idx] == "DTSTART;VALUE=DATE:"@ + compact_date_text(d),
        d.valid(),
        0 <= d.year <= 9999,
    ensures
        vevent_body(lines, idx, a) == vevent_body(
            lines,
            idx + 1,
            EventAcc { dtstart: Some(d), ..a },
        ),
{
    reveal_strlit("UID");
    reveal_strlit("DTSTAMP");
    reveal_strlit("DTSTART");
    reveal_strlit("DTSTART;VALUE=DATE:");
    reveal_strlit(";VALUE=DATE:");
    let ds = compact_date_text(d);
    assert(lines[idx] =~= "DTSTART"@ + ";VALUE=DATE:"@ + ds);
    lemma_date_line("DTSTART"@, ds);
    lemma_not_begin_end(lines[idx]);
    lemma_compact_date_read(d);
    assert("DTSTART"@.len() != "UID"@.len());
    assert("DTSTART"@[5] != "DTSTAMP"@[5]);
    lemma_event_line(
        lines,
        idx,
        a,
        LogicalLineView { name: "DTSTART"@, params: seq![("VALUE"@, "DATE"@)], value: ds },
        EventAcc { dtstart: Some(d), ..a },
    );
}

proof fn lemma_dtend_line(lines: Seq<Seq<char>>, idx: int, a: EventAcc, d: Date)
    requires
        0 <= idx < lines.len(),
        lines[idx] == "DTEND;VALUE=DATE:"@ + compact_date_text(d),
        d.valid(),
        0 <= d.year <= 9999,
    ensures
        vevent_body(lines, idx, a) == vevent_body(lines, idx + 1, EventAcc { dtend: Some(d), ..a }),
{
    reveal_strlit("UID");
    reveal_strlit("DTSTAMP");
    reveal_strlit("DTSTART");
    reveal_strlit("DTEND");
    reveal_strlit("DTEND;VALUE=DATE:");
    reveal_strlit(";VALUE=DATE:");
    let ds = compact_date_text(d);
    assert(lines[idx] =~= "DTEND"@ + ";VALUE=DATE:"@ + ds);
    lemma_date_line("DTEND"@, ds);
    lemma_not_begin_end(lines[idx]);
    lemma_compact_date_read(d);
    assert("DTEND"@.len() != "UID"@.len());
    assert("DTEND"@.len() != "DTSTAMP"@.len());
    assert("DTEND"@.len() != "DTSTART"@.len());
    lemma_event_line(
        lines,
        idx,
        a,
        LogicalLineView { name: "DTEND"@, params: seq![("VALUE"@, "DATE"@)], value: ds },
        EventAcc { dtend: Some(d), ..a },
    );
}

proof fn lemma_summary_line(lines: Seq<Seq<char>>, idx: int, a: EventAcc, s: Seq<char>)
    requires
        0 <= idx < lines.len(),
        lines[idx] == "SUMMARY:"@ + encode_spec(s),
    ensures
        vevent_body(lines, idx, a) == vevent_body(lines, idx + 1, EventAcc { summary: s, ..a }),
{
    reveal_strlit("UID");
    reveal_strlit("DTSTAMP");
    reveal_strlit("DTSTART");
    reveal_strlit("DTEND");
    reveal_strlit("SUMMARY");
    reveal_strlit("SUMMARY:");
    let sv = encode_spec(s);
    assert(lines[idx] =~= "SUMMARY"@ + seq![':'] + sv);
    lemma_plain_line("SUMMARY"@, sv);
    lemma_not_begin_end(lines[idx]);
    lemma_decode_encode(s);
    assert("SUMMARY"@.len() != "UID"@.len());
    assert("SUMMARY"@[0] != "DTSTAMP"@[0]);
    assert("SUMMARY"@[0] != "DTSTART"@[0]);
    assert("SUMMARY"@.len() != "DTEND"@.len());
    lemma_event_line(
        lines,
        idx,
        a,
        LogicalLineView { name: "SUMMARY"@, params: seq![], value: sv },
        EventAcc { summary: s, ..a },
    );
}

/// The head lines of an event, after `BEGIN:VEVENT`, are read into its
/// UID, timestamp, dates and summary.
proof fn lemma_event_head(lines: Seq<Seq<char>>, idx: int, e: VEventView)
    requires
        dates_readable(e),
        at(lines, idx, vevent_head_lines(e).skip(1)),
    ensures
        vevent_body(lines, idx, empty_event_acc()) == vevent_body(lines, idx + 5, head_acc(e)),
{
    let h = vevent_head_lines(e).skip(1);
    assert(lines.subrange(idx, idx + 5) == h);
    assert(lines[idx] == h[0]);
    assert(lines[idx + 1] == h[1]);
    assert(lines[idx + 2] == h[2]);
    assert(lines[idx + 3] == h[3]);
    assert(lines[idx + 4] == h[4]);
    let a0 = empty_event_acc();
    let a1 = EventAcc { uid: e.uid, ..a0 };
    let a2 = EventAcc { dtstamp: Some(e.dtstamp), ..a1 };
    let a3 = EventAcc { dtstart: Some(e.dtstart), ..a2 };
    let a4 = EventAcc { dtend: Some(e.dtend), ..a3 };
    lemma_uid_line(lines, idx, a0, e.uid);
    lemma_dtstamp_line(lines, idx + 1, a1, e.dtstamp);
    lemma_dtstart_line(lines, idx + 2, a2, e.dtstart);
    lemma_dtend_line(lines, idx + 3, a3, e.dtend);
    lemma_summary_line(lines, idx + 4, a4, e.summary);
}


/// The names the event reader tests before the typed ones.
proof fn lemma_head_names()
    ensures
        "UID"@.len() == 3,
        "DTSTAMP"@.len() == 7,
        "DTSTART"@.len() == 7,
        "DTEND"@.len() == 5,
        "SUMMARY"@.len() == 7,
        "TRANSP"@.len() == 6,
        "X-MICROSOFT-CDO-BUSYSTATUS"@.len() == 26,
        "CLASS"@.len() == 5,
        "CATEGORIES"@.len() == 10,
        "DTSTAMP"@[0] == 'D',
        "DTSTART"@[0] == 'D',
        "DTEND"@[0] == 'D',
        "SUMMARY"@[0] == 'S',
        "CLASS"@[0] == 'C',
        "UID"@[0] == 'U',
        "TRANSP"@[0] == 'T',
        "CATEGORIES"@[0] == 'C',
        "X-MICROSOFT-CDO-BUSYSTATUS"@[0] == 'X',
{
    reveal_strlit("UID");
    reveal_strlit("DTSTAMP");
    reveal_strlit("DTSTART");
    reveal_strlit("DTEND");
    reveal_strlit("SUMMARY");
    reveal_strlit("TRANSP");
    reveal_strlit("X-MICROSOFT-CDO-BUSYSTATUS");
    reveal_strlit("CLASS");
    reveal_strlit("CATEGORIES");
}

proof fn lemma_transp_line(lines: Seq<Seq<char>>, idx: int, a: EventAcc, t: Transp)
    requires
        0 <= idx < lines.len(),
        lines[idx] == "TRANSP:"@ + transp_value_spec(t),
    ensures
        vevent_body(lines, idx, a) == vevent_body(lines, idx + 1, EventAcc { transp: Some(t), ..a }),
{
    reveal_strlit("TRANSP");
    reveal_strlit("TRANSP:");
    lemma_head_names();
    let v = transp_value_spec(t);
    assert(lines[idx] =~= "TRANSP"@ + seq![':'] + v);
    lemma_plain_line("TRANSP"@, v);
    lemma_not_begin_end(lines[idx]);
    lemma_class_transp_round_trip(EventClass::Public, t);
    lemma_event_line(
        lines,
        idx,
        a,
        LogicalLineView { name: "TRANSP"@, params: seq![], value: v },
        EventAcc { transp: Some(t), ..a },
    );
}

proof fn lemma_busystatus_line(lines: Seq<Seq<char>>, idx: int, a: EventAcc, b: MsBusyStatus)
    requires
        0 <= idx < lines.len(),
        lines[idx] == "X-MICROSOFT-CDO-BUSYSTATUS:"@ + microsoft::cdo_value_spec(b),
    ensures
        vevent_body(lines, idx, a) == vevent_body(
            lines,
            idx + 1,
            EventAcc { busystatus: Some(b), ..a },
        ),
{
    reveal_strlit("X-MICROSOFT-CDO-BUSYSTATUS");
    reveal_strlit("X-MICROSOFT-CDO-BUSYSTATUS:");
    lemma_head_names();
    let v = microsoft::cdo_value_spec(b);
    let n = "X-MICROSOFT-CDO-BUSYSTATUS"@;
    assert(lines[idx] =~= n + seq![':'] + v);
    assert(plain_name(n));
    lemma_plain_line(n, v);
    lemma_not_begin_end(lines[idx]);
    microsoft::lemma_from_cdo_value(b);
    lemma_event_line(
        lines,
        idx,
        a,
        LogicalLineView { name: n, params: seq![], value: v },
        EventAcc { busystatus: Some(b), ..a },
    );
}

proof fn lemma_class_line(lines: Seq<Seq<char>>, idx: int, a: EventAcc, c: EventClass)
    requires
        0 <= idx < lines.len(),
        lines[idx] == "CLASS:"@ + class_value_spec(c),
    ensures
        vevent_body(lines, idx, a) == vevent_body(lines, idx + 1, EventAcc { class: Some(c), ..a }),
{
    reveal_strlit("CLASS");
    reveal_strlit("CLASS:");
    lemma_head_names();
    let v = class_value_spec(c);
    assert(lines[idx] =~= "CLASS"@ + seq![':'] + v);
    lemma_plain_line("CLASS"@, v);
    lemma_not_begin_end(lines[idx]);
    lemma_class_transp_round_trip(c, Transp::Opaque);
    lemma_event_line(
        lines,
        idx,
        a,
        LogicalLineView { name: "CLASS"@, params: seq![], value: v },
        EventAcc { class: Some(c), ..a },
    );
}

/// Every item is left as it is by trimming.
pub open spec fn items_trimmed(items: Seq<Seq<char>>) -> bool {
    forall|i: int| 0 <= i < items.len() ==> trim_spec(#[trigger] items[i]) == items[i]
}

proof fn lemma_categories_line(
    lines: Seq<Seq<char>>,
    idx: int,
    a: EventAcc,
    items: Seq<Seq<char>>,
)
    requires
        0 <= idx < lines.len(),
        items.len() > 0,
        items_trimmed(items),
        lines[idx] == "CATEGORIES:"@ + join_spec(items),
    ensures
        vevent_body(lines, idx, a) == vevent_body(
            lines,
            idx + 1,
            EventAcc { categories: items, ..a },
        ),
{
    reveal_strlit("CATEGORIES");
    reveal_strlit("CATEGORIES:");
    lemma_head_names();
    let v = join_spec(items);
    assert(lines[idx] =~= "CATEGORIES"@ + seq![':'] + v);
    lemma_plain_line("CATEGORIES"@, v);
    lemma_not_begin_end(lines[idx]);
    lemma_split_join(items);
    assert(split_spec(v).map_values(|s: Seq<char>| trim_spec(s)) =~= items);
    assert("CATEGORIES"@ != "CLASS"@);
    lemma_event_line(
        lines,
        idx,
        a,
        LogicalLineView { name: "CATEGORIES"@, params: seq![], value: v },
        EventAcc { categories: items, ..a },
    );
}

/// The conditions under which the typed lines of `e` are read back.
pub open spec fn typed_readable(e: VEventView) -> bool {
    &&& e.transp is None ==> busystatus_of(e) is None
    &&& items_trimmed(e.categories)
}

/// The fields the typed lines of `e` give on top of `a`.
pub open spec fn typed_acc(a: EventAcc, e: VEventView) -> EventAcc {
    EventAcc {
        transp: e.transp,
        busystatus: busystatus_of(e),
        class: e.class,
        categories: e.categories,
        ..a
    }
}

/// The typed lines of an event are read into its transparency, busy
/// status, class and categories.
proof fn lemma_event_typed(lines: Seq<Seq<char>>, idx: int, a: EventAcc, e: VEventView)
    requires
        typed_readable(e),
        a.transp is None,
        a.busystatus is None,
        a.class is None,
        a.categories.len() == 0,
        at(lines, idx, vevent_typed_lines(e)),
    ensures
        vevent_body(lines, idx, a) == vevent_body(
            lines,
            idx + vevent_typed_lines(e).len(),
            typed_acc(a, e),
        ),
{
    let t1 = opt_line(
        match emitted_transp(e) {
            Some(v) => Some("TRANSP:"@ + v),
            None => None,
        },
    );
    let t2 = opt_line(
        match busystatus_of(e) {
            Some(b) => Some("X-MICROSOFT-CDO-BUSYSTATUS:"@ + microsoft::cdo_value_spec(b)),
            None => None,
        },
    );
    let t3 = opt_line(
        match e.class {
            Some(c) => Some("CLASS:"@ + class_value_spec(c)),
            None => None,
        },
    );
    let t4 = opt_line(
        if e.categories.len() > 0 {
            Some("CATEGORIES:"@ + join_spec(e.categories))
        } else {
            None
        },
    );
    assert(vevent_typed_lines(e) == t1 + t2 + t3 + t4);
    lemma_at_split(lines, idx, t1 + t2 + t3, t4);
    lemma_at_split(lines, idx, t1 + t2, t3);
    lemma_at_split(lines, idx, t1, t2);
    let i1 = idx + t1.len();
    let i2 = i1 + t2.len();
    let i3 = i2 + t3.len();
    let b1 = EventAcc { transp: e.transp, ..a };
    let b2 = EventAcc { busystatus: busystatus_of(e), ..b1 };
    let b3 = EventAcc { class: e.class, ..b2 };
    match e.transp {
        Some(t) => {
            lemma_at_first(lines, idx, t1);
            lemma_transp_line(lines, idx, a, t);
        },
        None => {},
    }
    match busystatus_of(e) {
        Some(b) => {
            lemma_at_first(lines, i1, t2);
            lemma_busystatus_line(lines, i1, b1, b);
        },
        None => {},
    }
    match e.class {
        Some(c) => {
            lemma_at_first(lines, i2, t3);
            lemma_class_line(lines, i2, b2, c);
        },
        None => {},
    }
    if e.categories.len() > 0 {
        lemma_at_first(lines, i3, t4);
        lemma_categories_line(lines, i3, b3, e.categories);
    } else {
        assert(b3.categories =~= e.categories);
    }
    assert(EventAcc { categories: e.categories, ..b3 } == typed_acc(a, e));
}


/// The bucket the reader files an `X-` property under: 0 for Microsoft,
/// 1 for Google, 2 for iCloud, 3 for the unknown ones.
pub open spec fn x_kind(name: Seq<char>) -> int {
    if microsoft::owns_property_spec(name) {
        0
    } else if google::owns_property_spec(name) {
        1
    } else if icloud::owns_property_spec(name) {
        2
    } else {
        3
    }
}

/// An `X-` property the reader gives back as it is: it can be written as
/// one line, upper-casing leaves its name and parameter keys as they are,
/// and it is not the Microsoft busy status, which the reader types.
pub open spec fn x_readable(p: RawPropertyView) -> bool {
    &&& property_writable(p)
    &&& unicode_uppercase(p.name) == p.name
    &&& upper_keys(p.params) == p.params
    &&& starts_with(p.name, "X-"@)
    &&& p.name != "X-MICROSOFT-CDO-BUSYSTATUS"@
}

/// `a` with the `X-` properties `xs` of bucket `k` filed.
pub open spec fn bucket_add(a: EventAcc, xs: Seq<RawPropertyView>, k: int) -> EventAcc {
    let xi = (a.x_index + xs.len()) as u32;
    if k == 0 {
        EventAcc { x_index: xi, ms_unrecognized: a.ms_unrecognized + xs, ..a }
    } else if k == 1 {
        EventAcc { x_index: xi, google_unrecognized: a.google_unrecognized + xs, ..a }
    } else if k == 2 {
        EventAcc { x_index: xi, icloud_unrecognized: a.icloud_unrecognized + xs, ..a }
    } else {
        EventAcc { x_index: xi, unknown: a.unknown + xs, ..a }
    }
}

/// One `X-` property line of bucket `k`, numbered next, is filed.
proof fn lemma_x_line(lines: Seq<Seq<char>>, idx: int, a: EventAcc, p: RawPropertyView, k: int)
    requires
        0 <= idx < lines.len(),
        lines[idx] == raw_property_text(p),
        x_readable(p),
        x_kind(p.name) == k,
        p.source_index == a.x_index + 1,
    ensures
        vevent_body(lines, idx, a) == vevent_body(lines, idx + 1, bucket_add(a, seq![p], k)),
{
    reveal_strlit("X-");
    reveal_strlit("X-MICROSOFT-CDO-BUSYSTATUS");
    lemma_head_names();
    lemma_property_line_round_trip(p);
    let n = p.name;
    assert(n.take(2) == "X-"@);
    assert(n[0] == n.take(2)[0]);
    assert(n[0] == 'X');
    assert(lines[idx][0] == 'X') by {
        assert(raw_property_text(p)[0] == n[0]);
    }
    lemma_not_begin_end(lines[idx]);
    let ll = LogicalLineView { name: n, params: p.params, value: p.value };
    assert(wrap_inc(a.x_index) == p.source_index);
    let q = RawPropertyView { name: n, params: ll.params, value: ll.value, source_index: p.source_index };
    assert(q == p);
    assert(n != "UID"@ && n != "DTSTAMP"@ && n != "DTSTART"@ && n != "DTEND"@ && n != "SUMMARY"@
        && n != "TRANSP"@ && n != "CLASS"@ && n != "CATEGORIES"@);
    assert(seq![p] =~= Seq::<RawPropertyView>::empty().push(p));
    assert(a.ms_unrecognized + seq![p] =~= a.ms_unrecognized.push(p));
    assert(a.google_unrecognized + seq![p] =~= a.google_unrecognized.push(p));
    assert(a.icloud_unrecognized + seq![p] =~= a.icloud_unrecognized.push(p));
    assert(a.unknown + seq![p] =~= a.unknown.push(p));
    lemma_event_line(lines, idx, a, ll, bucket_add(a, seq![p], k));
}

/// A component the reader gives back as it is: it can be written and read
/// back, and reading it back changes nothing (its properties are numbered
/// in order from 1, their names and keys upper-case).
pub open spec fn component_readable(c: RawComponentView) -> bool {
    &&& component_writable(c)
    &&& read_back(c) == c
}

proof fn lemma_begin_line(name: Seq<char>)
    ensures
        ("BEGIN:"@ + name) != "END:VEVENT"@,
        ("BEGIN:"@ + name) != "END:VCALENDAR"@,
        starts_with("BEGIN:"@ + name, "BEGIN:"@),
        ("BEGIN:"@ + name).skip(6) == name,
{
    reveal_strlit("BEGIN:");
    reveal_strlit("END:VEVENT");
    reveal_strlit("END:VCALENDAR");
    let l = "BEGIN:"@ + name;
    assert(l[0] == 'B');
    assert(l.take(6) =~= "BEGIN:"@);
    assert(l.skip(6) =~= name);
}

/// The components nested in an event are read back in order.
proof fn lemma_event_components(
    lines: Seq<Seq<char>>,
    idx: int,
    a: EventAcc,
    cs: Seq<RawComponentView>,
)
    requires
        at(lines, idx, components_lines(cs)),
        forall|i: int| 0 <= i < cs.len() ==> #[trigger] component_readable(cs[i]),
    ensures
        vevent_body(lines, idx, a) == vevent_body(
            lines,
            idx + components_lines(cs).len(),
            EventAcc { components: a.components + cs, ..a },
        ),
    decreases cs.len(),
{
    if cs.len() == 0 {
        assert(a.components + cs =~= a.components);
    } else {
        let c0 = cs[0];
        assert(component_readable(c0));
        let cl = component_lines(c0);
        let rest = cs.skip(1);
        assert(components_lines(cs) == cl + components_lines(rest));
        lemma_at_split(lines, idx, cl, components_lines(rest));
        assert(cl[0] == "BEGIN:"@ + c0.name);
        lemma_at_first(lines, idx, cl);
        lemma_begin_line(c0.name);
        lemma_component_round_trip(lines, idx, c0);
        let a1 = EventAcc { components: a.components.push(c0), ..a };
        assert(vevent_body(lines, idx, a) == vevent_body(lines, idx + cl.len(), a1));
        assert forall|i: int| 0 <= i < rest.len() implies #[trigger] component_readable(rest[i]) by {
            assert(rest[i] == cs[i + 1]);
            assert(component_readable(cs[i + 1]));
        }
        lemma_event_components(lines, idx + cl.len(), a1, rest);
        assert(a.components.push(c0) + rest =~= a.components + cs);
    }
}


/// Sorting properties already in `source_index` order keeps them.
proof fn lemma_sort_sorted(ps: Seq<RawPropertyView>)
    requires
        forall|i: int, j: int|
            0 <= i < j < ps.len() ==> (#[trigger] ps[i]).source_index <= (#[trigger] ps[j]).source_index,
    ensures
        sort_by_index(ps) == ps,
    decreases ps.len(),
{
    if ps.len() > 0 {
        let init = ps.drop_last();
        assert forall|i: int, j: int| 0 <= i < j < init.len() implies (#[trigger] init[i]).source_index
            <= (#[trigger] init[j]).source_index by {
            assert(init[i] == ps[i] && init[j] == ps[j]);
        }
        lemma_sort_sorted(init);
        if init.len() == 0 {
            assert(seq![ps.last()] =~= ps);
        } else {
            assert(init.last() == ps[ps.len() - 2]);
            assert(init.push(ps.last()) =~= ps);
        }
    }
}

/// The unrecognized Microsoft properties of an event.
pub open spec fn ms_props(e: VEventView) -> Seq<RawPropertyView> {
    match e.microsoft {
        Some(m) => m.unrecognized,
        None => seq![],
    }
}

/// The unrecognized Google properties of an event.
pub open spec fn google_props(e: VEventView) -> Seq<RawPropertyView> {
    match e.google {
        Some(b) => b.unrecognized,
        None => seq![],
    }
}

/// The unrecognized iCloud properties of an event.
pub open spec fn icloud_props(e: VEventView) -> Seq<RawPropertyView> {
    match e.icloud {
        Some(b) => b.unrecognized,
        None => seq![],
    }
}

/// Every property of `xs` is readable and filed under bucket `k`.
pub open spec fn bucket_readable(xs: Seq<RawPropertyView>, k: int) -> bool {
    forall|i: int| 0 <= i < xs.len() ==> #[trigger] x_readable(xs[i]) && x_kind(xs[i].name) == k
}

/// The fields the `X-` property lines give on top of `a`.
pub open spec fn xs_acc(a: EventAcc, e: VEventView) -> EventAcc {
    EventAcc {
        x_index: x_properties(e).len() as u32,
        ms_unrecognized: ms_props(e),
        google_unrecognized: google_props(e),
        icloud_unrecognized: icloud_props(e),
        unknown: e.unknown,
        ..a
    }
}


/// The `X-` properties of an event are given back by the reader: each is
/// readable and sits in the bucket the reader files it under, they are
/// numbered 1, 2, ... in the order the writer sorts them, and each bucket
/// holds its properties in that order.
pub open spec fn x_properties_readable(e: VEventView) -> bool {
    let sorted = sort_by_index(x_properties(e));
    &&& x_properties(e).len() < u32::MAX
    &&& forall|i: int| 0 <= i < sorted.len() ==> (#[trigger] sorted[i]).source_index == i + 1
    &&& bucket_readable(ms_props(e), 0)
    &&& bucket_readable(google_props(e), 1)
    &&& bucket_readable(icloud_props(e), 2)
    &&& bucket_readable(e.unknown, 3)
    &&& index_sorted(ms_props(e))
    &&& index_sorted(google_props(e))
    &&& index_sorted(icloud_props(e))
    &&& index_sorted(e.unknown)
}

/// `a` with the `X-` properties `xs` filed, each under its bucket.
pub open spec fn file_all(a: EventAcc, xs: Seq<RawPropertyView>) -> EventAcc {
    EventAcc {
        x_index: (a.x_index + xs.len()) as u32,
        ms_unrecognized: a.ms_unrecognized + of_kind(xs, 0),
        google_unrecognized: a.google_unrecognized + of_kind(xs, 1),
        icloud_unrecognized: a.icloud_unrecognized + of_kind(xs, 2),
        unknown: a.unknown + of_kind(xs, 3),
        ..a
    }
}

proof fn lemma_of_kind_one(p: RawPropertyView, k: int)
    ensures
        of_kind(seq![p], k) == (if x_kind(p.name) == k {
            seq![p]
        } else {
            Seq::<RawPropertyView>::empty()
        }),
{
    let d = seq![p].drop_last();
    assert(d =~= Seq::<RawPropertyView>::empty());
    assert(of_kind(d, k) == Seq::<RawPropertyView>::empty());
    assert(seq![p].last() == p);
    assert(Seq::<RawPropertyView>::empty().push(p) =~= seq![p]);
}

/// The `X-` property lines, numbered on from `a`'s count, are filed each
/// under its bucket, in order.
proof fn lemma_x_mixed(lines: Seq<Seq<char>>, idx: int, a: EventAcc, xs: Seq<RawPropertyView>)
    requires
        at(lines, idx, prop_lines(xs)),
        forall|i: int| 0 <= i < xs.len() ==> #[trigger] x_readable(xs[i]),
        forall|i: int| 0 <= i < xs.len() ==> (#[trigger] xs[i]).source_index == a.x_index + i + 1,
        a.x_index + xs.len() < u32::MAX,
    ensures
        vevent_body(lines, idx, a) == vevent_body(lines, idx + xs.len(), file_all(a, xs)),
    decreases xs.len(),
{
    if xs.len() == 0 {
        assert(of_kind(xs, 0) == Seq::<RawPropertyView>::empty());
        assert(of_kind(xs, 1) == Seq::<RawPropertyView>::empty());
        assert(of_kind(xs, 2) == Seq::<RawPropertyView>::empty());
        assert(of_kind(xs, 3) == Seq::<RawPropertyView>::empty());
        assert(a.ms_unrecognized + of_kind(xs, 0) =~= a.ms_unrecognized);
        assert(a.google_unrecognized + of_kind(xs, 1) =~= a.google_unrecognized);
        assert(a.icloud_unrecognized + of_kind(xs, 2) =~= a.icloud_unrecognized);
        assert(a.unknown + of_kind(xs, 3) =~= a.unknown);
        assert(file_all(a, xs) == a);
    } else {
        let p = xs[0];
        let k = x_kind(p.name);
        assert(x_readable(xs[0]));
        lemma_at_first(lines, idx, prop_lines(xs));
        assert(prop_lines(xs)[0] == raw_property_text(p));
        assert(prop_lines(xs).skip(1) =~= prop_lines(xs.skip(1)));
        lemma_x_line(lines, idx, a, p, k);
        let a1 = bucket_add(a, seq![p], k);
        let rest = xs.skip(1);
        assert forall|i: int| 0 <= i < rest.len() implies #[trigger] x_readable(rest[i]) by {
            assert(rest[i] == xs[i + 1]);
            assert(x_readable(xs[i + 1]));
        }
        assert forall|i: int| 0 <= i < rest.len() implies (#[trigger] rest[i]).source_index
            == a1.x_index + i + 1 by {
            assert(rest[i] == xs[i + 1]);
            assert(xs[i + 1].source_index == a.x_index + (i + 1) + 1);
        }
        lemma_x_mixed(lines, idx + 1, a1, rest);
        assert(seq![p] + rest =~= xs);
        lemma_of_kind_append(seq![p], rest, 0);
        lemma_of_kind_append(seq![p], rest, 1);
        lemma_of_kind_append(seq![p], rest, 2);
        lemma_of_kind_append(seq![p], rest, 3);
        lemma_of_kind_one(p, 0);
        lemma_of_kind_one(p, 1);
        lemma_of_kind_one(p, 2);
        lemma_of_kind_one(p, 3);
        assert(a.ms_unrecognized + of_kind(seq![p], 0) + of_kind(rest, 0) =~= a.ms_unrecognized
            + of_kind(xs, 0));
        assert(a.google_unrecognized + of_kind(seq![p], 1) + of_kind(rest, 1)
            =~= a.google_unrecognized + of_kind(xs, 1));
        assert(a.icloud_unrecognized + of_kind(seq![p], 2) + of_kind(rest, 2)
            =~= a.icloud_unrecognized + of_kind(xs, 2));
        assert(a.unknown + of_kind(seq![p], 3) + of_kind(rest, 3) =~= a.unknown + of_kind(xs, 3));
        assert(a.ms_unrecognized + Seq::<RawPropertyView>::empty() =~= a.ms_unrecognized);
        assert(a.google_unrecognized + Seq::<RawPropertyView>::empty() =~= a.google_unrecognized);
        assert(a.icloud_unrecognized + Seq::<RawPropertyView>::empty() =~= a.icloud_unrecognized);
        assert(a.unknown + Seq::<RawPropertyView>::empty() =~= a.unknown);
        assert(file_all(a1, rest) == file_all(a, xs));
    }
}

/// The `X-` properties of a bucket, read back from the sorted ones.
proof fn lemma_bucket_back(e: VEventView, k: int)
    requires
        x_properties_readable(e),
        0 <= k <= 3,
    ensures
        of_kind(sort_by_index(x_properties(e)), k) == (if k == 0 {
            ms_props(e)
        } else if k == 1 {
            google_props(e)
        } else if k == 2 {
            icloud_props(e)
        } else {
            e.unknown
        }),
{
    let m = ms_props(e);
    let g = google_props(e);
    let ic = icloud_props(e);
    let u = e.unknown;
    let x = x_properties(e);
    assert(x == m + g + ic + u);
    lemma_of_kind_sort(x, k);
    lemma_of_kind_append(m + g + ic, u, k);
    lemma_of_kind_append(m + g, ic, k);
    lemma_of_kind_append(m, g, k);
    assert forall|i: int| 0 <= i < m.len() implies x_kind((#[trigger] m[i]).name) == 0 by {
        assert(x_readable(m[i]));
    }
    assert forall|i: int| 0 <= i < g.len() implies x_kind((#[trigger] g[i]).name) == 1 by {
        assert(x_readable(g[i]));
    }
    assert forall|i: int| 0 <= i < ic.len() implies x_kind((#[trigger] ic[i]).name) == 2 by {
        assert(x_readable(ic[i]));
    }
    assert forall|i: int| 0 <= i < u.len() implies x_kind((#[trigger] u[i]).name) == 3 by {
        assert(x_readable(u[i]));
    }
    lemma_of_kind_bucket(m, 0, k);
    lemma_of_kind_bucket(g, 1, k);
    lemma_of_kind_bucket(ic, 2, k);
    lemma_of_kind_bucket(u, 3, k);
    let b = if k == 0 {
        m
    } else if k == 1 {
        g
    } else if k == 2 {
        ic
    } else {
        u
    };
    assert(of_kind(x, k) =~= b);
    lemma_sort_sorted(b);
}

/// The `X-` property lines of an event are filed into its buckets.
#[verifier::spinoff_prover]
proof fn lemma_event_x(lines: Seq<Seq<char>>, idx: int, a: EventAcc, e: VEventView)
    requires
        x_properties_readable(e),
        a.x_index == 0,
        a.ms_unrecognized.len() == 0,
        a.google_unrecognized.len() == 0,
        a.icloud_unrecognized.len() == 0,
        a.unknown.len() == 0,
        at(lines, idx, prop_lines(sort_by_index(x_properties(e)))),
    ensures
        vevent_body(lines, idx, a) == vevent_body(
            lines,
            idx + x_properties(e).len(),
            xs_acc(a, e),
        ),
{
    let x = x_properties(e);
    let sx = sort_by_index(x);
    let q = |p: RawPropertyView| x_readable(p);
    assert(all_props(x, q)) by {
        let m = ms_props(e);
        let g = google_props(e);
        let ic = icloud_props(e);
        let u = e.unknown;
        assert(x == m + g + ic + u);
        assert forall|i: int| 0 <= i < x.len() implies q(#[trigger] x[i]) by {
            if i < m.len() {
                assert(x[i] == m[i]);
                assert(x_readable(m[i]));
            } else if i < m.len() + g.len() {
                assert(x[i] == g[i - m.len()]);
                assert(x_readable(g[i - m.len()]));
            } else if i < m.len() + g.len() + ic.len() {
                assert(x[i] == ic[i - m.len() - g.len()]);
                assert(x_readable(ic[i - m.len() - g.len()]));
            } else {
                assert(x[i] == u[i - m.len() - g.len() - ic.len()]);
                assert(x_readable(u[i - m.len() - g.len() - ic.len()]));
            }
        }
    }
    lemma_sort_all(x, q);
    assert forall|i: int| 0 <= i < sx.len() implies #[trigger] x_readable(sx[i]) by {
        assert(q(sx[i]));
    }
    lemma_x_mixed(lines, idx, a, sx);
    lemma_bucket_back(e, 0);
    lemma_bucket_back(e, 1);
    lemma_bucket_back(e, 2);
    lemma_bucket_back(e, 3);
    assert(a.ms_unrecognized + ms_props(e) =~= ms_props(e));
    assert(a.google_unrecognized + google_props(e) =~= google_props(e));
    assert(a.icloud_unrecognized + icloud_props(e) =~= icloud_props(e));
    assert(a.unknown + e.unknown =~= e.unknown);
    assert(file_all(a, sx) == xs_acc(a, e));
}

/// An extension bundle the reader rebuilds: one that is present holds
/// something (a busy status or an unrecognized property).
pub open spec fn bundles_readable(e: VEventView) -> bool {
    &&& e.microsoft matches Some(m) ==> m.busystatus is Some || m.unrecognized.len() > 0
    &&& e.google matches Some(b) ==> b.unrecognized.len() > 0
    &&& e.icloud matches Some(b) ==> b.unrecognized.len() > 0
}

/// An event the reader gives back as the writer wrote it: dates chrono
/// reads back (years 0 to 9999, no fraction of a second in the stamp), no
/// busy status without a transparency (the writer would add the implied
/// `TRANSP`), trimmed categories, extension bundles that hold something,
/// readable `X-` properties numbered in the order written, and nested
/// components that read back unchanged.
pub open spec fn event_readable(e: VEventView) -> bool {
    &&& dates_readable(e)
    &&& typed_readable(e)
    &&& bundles_readable(e)
    &&& x_properties_readable(e)
    &&& forall|i: int|
        0 <= i < e.unrecognized_components.len() ==> #[trigger] component_readable(
            e.unrecognized_components[i],
        )
}

/// The fields collected at `END:VEVENT` describe the event.
proof fn lemma_event_finish(a: EventAcc, e: VEventView, line_no: u32)
    requires
        bundles_readable(e),
        a == (EventAcc {
            components: e.unrecognized_components,
            ..xs_acc(typed_acc(head_acc(e), e), e)
        }),
    ensures
        event_finish(a, line_no) == Ok::<VEventView, ErrorView>(e),
{
    match e.microsoft {
        Some(m) => {
            assert(microsoft::EventExtensionsView {
                busystatus: m.busystatus,
                unrecognized: m.unrecognized,
            } == m);
        },
        None => {},
    }
    match e.google {
        Some(b) => {
            assert(google::EventExtensionsView { unrecognized: b.unrecognized } == b);
        },
        None => {},
    }
    match e.icloud {
        Some(b) => {
            assert(icloud::EventExtensionsView { unrecognized: b.unrecognized } == b);
        },
        None => {},
    }
}

/// The body of an event the writer wrote, read from the line after
/// `BEGIN:VEVENT`, gives the event back and ends after `END:VEVENT`.
#[verifier::spinoff_prover]
pub proof fn lemma_vevent_read(lines: Seq<Seq<char>>, idx: int, e: VEventView)
    requires
        event_readable(e),
        at(lines, idx, vevent_lines(e).skip(1)),
    ensures
        vevent_body(lines, idx, empty_event_acc()) == Ok::<(VEventView, int), ErrorView>(
            (e, idx + vevent_lines(e).len() - 1),
        ),
{
    let h = vevent_head_lines(e).skip(1);
    let t = vevent_typed_lines(e);
    let x = prop_lines(sort_by_index(x_properties(e)));
    let k = components_lines(e.unrecognized_components);
    let z = seq!["END:VEVENT"@];
    assert(vevent_lines(e).skip(1) =~= h + t + x + k + z);
    lemma_at_split(lines, idx, h + t + x + k, z);
    lemma_at_split(lines, idx, h + t + x, k);
    lemma_at_split(lines, idx, h + t, x);
    lemma_at_split(lines, idx, h, t);
    assert(h.len() == 5);
    let xp = x_properties(e);
    lemma_sort_all(xp, |p: RawPropertyView| true);
    assert(x.len() == xp.len());
    lemma_event_head(lines, idx, e);
    let a1 = head_acc(e);
    lemma_event_typed(lines, idx + 5, a1, e);
    let a2 = typed_acc(a1, e);
    let i2 = idx + 5 + t.len();
    lemma_event_x(lines, i2, a2, e);
    let a3 = xs_acc(a2, e);
    let i3 = i2 + x.len();
    assert(forall|i: int|
        0 <= i < e.unrecognized_components.len() ==> #[trigger] component_readable(
            e.unrecognized_components[i],
        ));
    lemma_event_components(lines, i3, a3, e.unrecognized_components);
    let a4 = EventAcc { components: a3.components + e.unrecognized_components, ..a3 };
    assert(a3.components + e.unrecognized_components =~= e.unrecognized_components);
    let i4 = i3 + k.len();
    lemma_at_first(lines, i4, z);
    reveal_strlit("END:VEVENT");
    lemma_event_finish(a4, e, (i4 + 1) as u32);
    assert(lines[i4] == "END:VEVENT"@);
    assert(vevent_body(lines, i4, a4) == Ok::<(VEventView, int), ErrorView>((e, i4 + 1)));
    assert(vevent_lines(e).len() == 6 + t.len() + x.len() + k.len() + 1);
}


// ---------------------------------------------------------------------
// Reading a calendar back
// ---------------------------------------------------------------------

/// One calendar-level property line, read.
proof fn lemma_cal_line(lines: Seq<Seq<char>>, idx: int, a: CalAcc)
    requires
        0 <= idx < lines.len(),
        lines[idx].len() > 0,
        lines[idx][0] != 'B',
        lines[idx][0] != 'E',
    ensures
        cal_body(lines, idx, a) == cal_body(lines, idx + 1, cal_property(a, lines[idx])),
{
    lemma_not_begin_end(lines[idx]);
}

/// `prefix` followed by `v`, read by the calendar property reader.
proof fn lemma_prefix(prefix: Seq<char>, v: Seq<char>)
    ensures
        starts_with(prefix + v, prefix),
        (prefix + v).skip(prefix.len() as int) == v,
{
    assert((prefix + v).take(prefix.len() as int) =~= prefix);
    assert((prefix + v).skip(prefix.len() as int) =~= v);
}

/// A line does not start with a prefix whose first character differs.
proof fn lemma_not_prefix(l: Seq<char>, prefix: Seq<char>)
    requires
        l.len() > 0,
        prefix.len() > 0,
        l[0] != prefix[0],
    ensures
        !starts_with(l, prefix),
{
    if starts_with(l, prefix) {
        assert(l.take(prefix.len() as int)[0] == l[0]);
    }
}

/// The events the writer wrote are read back in order.
proof fn lemma_cal_events(lines: Seq<Seq<char>>, idx: int, a: CalAcc, es: Seq<VEventView>)
    requires
        at(lines, idx, events_lines(es)),
        forall|i: int| 0 <= i < es.len() ==> #[trigger] event_readable(es[i]),
    ensures
        cal_body(lines, idx, a) == cal_body(
            lines,
            idx + events_lines(es).len(),
            CalAcc { events: a.events + es, ..a },
        ),
    decreases es.len(),
{
    if es.len() == 0 {
        assert(a.events + es =~= a.events);
    } else {
        let e = es[0];
        assert(event_readable(e));
        let el = vevent_lines(e);
        let rest = es.skip(1);
        lemma_at_split(lines, idx, el, events_lines(rest));
        lemma_at_first(lines, idx, el);
        reveal_strlit("BEGIN:VEVENT");
        reveal_strlit("BEGIN:");
        reveal_strlit("VEVENT");
        assert("BEGIN:VEVENT"@ =~= "BEGIN:"@ + "VEVENT"@);
        lemma_begin_line("VEVENT"@);
        lemma_vevent_read(lines, idx + 1, e);
        let a1 = CalAcc { events: a.events.push(e), ..a };
        assert(cal_body(lines, idx, a) == cal_body(lines, idx + el.len(), a1));
        assert forall|i: int| 0 <= i < rest.len() implies #[trigger] event_readable(rest[i]) by {
            assert(rest[i] == es[i + 1]);
            assert(event_readable(es[i + 1]));
        }
        lemma_cal_events(lines, idx + el.len(), a1, rest);
        assert(a.events.push(e) + rest =~= a.events + es);
    }
}

/// A calendar-level component the reader gives back: readable, and not
/// named `VEVENT`, which the reader takes for an event.
pub open spec fn cal_component_readable(c: RawComponentView) -> bool {
    &&& component_readable(c)
    &&& c.name != "VEVENT"@
}

/// The components the writer wrote after the events are read back in
/// order.
proof fn lemma_cal_components(
    lines: Seq<Seq<char>>,
    idx: int,
    a: CalAcc,
    cs: Seq<RawComponentView>,
)
    requires
        at(lines, idx, components_lines(cs)),
        forall|i: int| 0 <= i < cs.len() ==> #[trigger] cal_component_readable(cs[i]),
    ensures
        cal_body(lines, idx, a) == cal_body(
            lines,
            idx + components_lines(cs).len(),
            CalAcc { components: a.components + cs, ..a },
        ),
    decreases cs.len(),
{
    if cs.len() == 0 {
        assert(a.components + cs =~= a.components);
    } else {
        let c0 = cs[0];
        assert(cal_component_readable(c0));
        let cl = component_lines(c0);
        let rest = cs.skip(1);
        assert(components_lines(cs) == cl + components_lines(rest));
        lemma_at_split(lines, idx, cl, components_lines(rest));
        assert(cl[0] == "BEGIN:"@ + c0.name);
        lemma_at_first(lines, idx, cl);
        lemma_begin_line(c0.name);
        lemma_component_round_trip(lines, idx, c0);
        let a1 = CalAcc { components: a.components.push(c0), ..a };
        assert(cal_body(lines, idx, a) == cal_body(lines, idx + cl.len(), a1));
        assert forall|i: int| 0 <= i < rest.len() implies #[trigger] cal_component_readable(
            rest[i],
        ) by {
            assert(rest[i] == cs[i + 1]);
            assert(cal_component_readable(cs[i + 1]));
        }
        lemma_cal_components(lines, idx + cl.len(), a1, rest);
        assert(a.components.push(c0) + rest =~= a.components + cs);
    }
}

/// A calendar the reader gives back as the writer wrote it: every line
/// the writer writes is read back as written (no line break, no white
/// space at either end), and every event and component reads back
/// unchanged.
pub open spec fn calendar_readable(c: VCalendarView) -> bool {
    &&& lines_safe(calendar_lines(c))
    &&& forall|i: int| 0 <= i < c.events.len() ==> #[trigger] event_readable(c.events[i])
    &&& forall|i: int|
        0 <= i < c.unrecognized_components.len() ==> #[trigger] cal_component_readable(
            c.unrecognized_components[i],
        )
}

/// The calendar-level properties, read.
proof fn lemma_cal_head(lines: Seq<Seq<char>>, c: VCalendarView)
    requires
        lines == calendar_lines(c),
    ensures
        cal_body(lines, 1, empty_cal_acc()) == cal_body(
            lines,
            3 + (if c.calscale is Some {
                1int
            } else {
                0
            }) + (if c.method is Some {
                1int
            } else {
                0
            }),
            CalAcc {
                version: c.version,
                prodid: c.prodid,
                calscale: c.calscale,
                method: c.method,
                ..empty_cal_acc()
            },
        ),
{
    reveal_strlit("VERSION:");
    reveal_strlit("PRODID:");
    reveal_strlit("CALSCALE:");
    reveal_strlit("METHOD:");
    let a0 = empty_cal_acc();
    let l1 = "VERSION:"@ + c.version;
    let l2 = "PRODID:"@ + c.prodid;
    assert(lines[1] == l1);
    assert(lines[2] == l2);
    lemma_prefix("VERSION:"@, c.version);
    lemma_cal_line(lines, 1, a0);
    let a1 = CalAcc { version: c.version, ..a0 };
    assert(cal_property(a0, l1) == a1);
    lemma_prefix("PRODID:"@, c.prodid);
    lemma_not_prefix(l2, "VERSION:"@);
    lemma_cal_line(lines, 2, a1);
    let a2 = CalAcc { prodid: c.prodid, ..a1 };
    assert(cal_property(a1, l2) == a2);
    let i3: int = 3;
    let a3 = CalAcc { calscale: c.calscale, ..a2 };
    let i4 = i3 + (if c.calscale is Some {
        1int
    } else {
        0
    });
    match c.calscale {
        Some(v) => {
            let l = "CALSCALE:"@ + v;
            assert(lines[3] == l);
            lemma_prefix("CALSCALE:"@, v);
            lemma_not_prefix(l, "VERSION:"@);
            lemma_not_prefix(l, "PRODID:"@);
            lemma_cal_line(lines, 3, a2);
            assert(cal_property(a2, l) == a3);
        },
        None => {},
    }
    match c.method {
        Some(v) => {
            let l = "METHOD:"@ + v;
            assert(lines[i4] == l);
            lemma_prefix("METHOD:"@, v);
            lemma_not_prefix(l, "VERSION:"@);
            lemma_not_prefix(l, "PRODID:"@);
            lemma_not_prefix(l, "CALSCALE:"@);
            lemma_cal_line(lines, i4, a3);
            assert(cal_property(a3, l) == CalAcc { method: c.method, ..a3 });
        },
        None => {},
    }
}


/// The lines the writer writes for a calendar are read back into it.
proof fn lemma_cal_lines_read(c: VCalendarView)
    requires
        calendar_readable(c),
    ensures
        cal_body(calendar_lines(c), 1, empty_cal_acc()) == Ok::<VCalendarView, ErrorView>(c),
{
    let lines = calendar_lines(c);
    let o1 = opt_line(
        match c.calscale {
            Some(v) => Some("CALSCALE:"@ + v),
            None => None,
        },
    );
    let o2 = opt_line(
        match c.method {
            Some(v) => Some("METHOD:"@ + v),
            None => None,
        },
    );
    let hd = seq!["BEGIN:VCALENDAR"@, "VERSION:"@ + c.version, "PRODID:"@ + c.prodid] + o1 + o2;
    let ev = events_lines(c.events);
    let k = components_lines(c.unrecognized_components);
    let z = seq!["END:VCALENDAR"@];
    assert(lines == hd + ev + k + z);
    assert(at(lines, 0, lines)) by {
        assert(lines.subrange(0, lines.len() as int) =~= lines);
    }
    lemma_at_split(lines, 0, hd + ev + k, z);
    lemma_at_split(lines, 0, hd + ev, k);
    lemma_at_split(lines, 0, hd, ev);
    lemma_cal_head(lines, c);
    let a = CalAcc {
        version: c.version,
        prodid: c.prodid,
        calscale: c.calscale,
        method: c.method,
        ..empty_cal_acc()
    };
    assert(hd.len() == 3 + (if c.calscale is Some {
        1int
    } else {
        0
    }) + (if c.method is Some {
        1int
    } else {
        0
    }));
    lemma_cal_events(lines, hd.len() as int, a, c.events);
    let a1 = CalAcc { events: a.events + c.events, ..a };
    assert(a.events + c.events =~= c.events);
    lemma_cal_components(lines, (hd.len() + ev.len()) as int, a1, c.unrecognized_components);
    let a2 = CalAcc { components: a1.components + c.unrecognized_components, ..a1 };
    assert(a1.components + c.unrecognized_components =~= c.unrecognized_components);
    let iz = (hd.len() + ev.len() + k.len()) as int;
    lemma_at_first(lines, iz, z);
    assert(cal_finish(a2) == c);
}

/// Reading back what the writer wrote gives the calendar back:
/// `parse_calendar(format_calendar(c))` is `c` for every calendar whose
/// lines hold no line break and no white space at either end, whose event
/// dates fall in the years 0 to 9999 (with no fraction of a second in the
/// stamp), whose events carry no busy status without a transparency,
/// trimmed categories, extension bundles that hold something, `X-`
/// properties numbered in the order written, and whose kept components
/// are written in the form the reader gives back.
pub proof fn lemma_calendar_round_trip(c: VCalendarView)
    requires
        calendar_readable(c),
    ensures
        parse_calendar_spec(calendar_text(c)) == Ok::<VCalendarView, ErrorView>(c),
{
    let lines = calendar_lines(c);
    lemma_calendar_text(c);
    reveal_strlit("BEGIN:VCALENDAR");
    assert(lines[0] == "BEGIN:VCALENDAR"@);
    lemma_document_lines(lines);
    assert(document_lines(calendar_text(c)) == lines);
    assert(is_calendar_start(lines, 0));
    let i = choose|i: int| is_calendar_start(lines, i);
    assert(i == 0) by {
        if i != 0 {
            assert(lines[0] != "BEGIN:VCALENDAR"@);
        }
    }
    lemma_cal_lines_read(c);
}


proof fn lemma_trailing_ws_after(p: Seq<char>, v: Seq<char>)
    requires
        p.len() > 0,
        !is_white_space(p.last()),
    ensures
        trailing_ws(p + v) == trailing_ws(v),
    decreases v.len(),
{
    if v.len() == 0 {
        assert(p + v =~= p);
    } else {
        let s = p + v;
        assert(s.last() == v.last());
        assert(s.drop_last() =~= p + v.drop_last());
        lemma_trailing_ws_after(p, v.drop_last());
    }
}

/// A line `p + v` whose prefix `p` has no white space at either end
/// trims to `p` and `v` without its trailing white space.
proof fn lemma_trim_prefixed(p: Seq<char>, v: Seq<char>)
    requires
        p.len() > 0,
        !is_white_space(p[0]),
        !is_white_space(p.last()),
    ensures
        trim_spec(p + v) == p + trim_end_spec(v),
{
    let s = p + v;
    assert(s[0] == p[0]);
    assert(leading_ws(s) == 0);
    assert(s.skip(0) =~= s);
    lemma_trailing_ws_after(p, v);
    lemma_trailing_ws_bound(v);
    assert(s.take(s.len() - trailing_ws(s)) =~= p + v.take(v.len() - trailing_ws(v)));
}

/// `p + trim_end_spec(v)` is a safe line when `p` has no white space at
/// either end and no line break, and `v` has no line break.
proof fn lemma_trimmed_line_safe(p: Seq<char>, v: Seq<char>)
    requires
        p.len() > 0,
        !is_white_space(p[0]),
        !is_white_space(p.last()),
        avoids(p, '\n'),
        avoids(v, '\n'),
    ensures
        line_safe(p + trim_end_spec(v)),
{
    lemma_trailing_ws_bound(v);
    let t = trim_end_spec(v);
    let l = p + t;
    assert forall|i: int| 0 <= i < l.len() implies l[i] != '\n' by {
        if i >= p.len() {
            assert(l[i] == v[i - p.len()]);
        }
    }
    assert(l[0] == p[0]);
    if t.len() > 0 {
        assert(l.last() == v[v.len() - trailing_ws(v) - 1]);
    } else {
        assert(l.last() == p.last());
    }
}

/// `v` without trailing white space, if present.
pub open spec fn opt_trim_end(o: Option<Seq<char>>) -> Option<Seq<char>> {
    match o {
        Some(v) => Some(trim_end_spec(v)),
        None => None,
    }
}

/// The calendar with the trailing white space of its `VERSION`, `PRODID`,
/// `CALSCALE` and `METHOD` values removed.
pub open spec fn header_trimmed(c: VCalendarView) -> VCalendarView {
    VCalendarView {
        version: trim_end_spec(c.version),
        prodid: trim_end_spec(c.prodid),
        calscale: opt_trim_end(c.calscale),
        method: opt_trim_end(c.method),
        ..c
    }
}

/// Does the optional value hold no line break?
pub open spec fn opt_avoids_newline(o: Option<Seq<char>>) -> bool {
    match o {
        Some(v) => avoids(v, '\n'),
        None => true,
    }
}

proof fn lemma_lines_safe_append(a: Seq<Seq<char>>, b: Seq<Seq<char>>)
    requires
        lines_safe(a),
        lines_safe(b),
    ensures
        lines_safe(a + b),
{
    assert forall|i: int| 0 <= i < (a + b).len() implies #[trigger] line_safe((a + b)[i]) by {
        if i < a.len() {
            assert((a + b)[i] == a[i]);
        } else {
            assert((a + b)[i] == b[i - a.len()]);
        }
    }
}

proof fn lemma_lines_plain_append(a: Seq<Seq<char>>, b: Seq<Seq<char>>)
    requires
        lines_plain(a),
        lines_plain(b),
    ensures
        lines_plain(a + b),
{
    assert forall|i: int| 0 <= i < (a + b).len() implies #[trigger] line_plain((a + b)[i]) by {
        if i < a.len() {
            assert((a + b)[i] == a[i]);
        } else {
            assert((a + b)[i] == b[i - a.len()]);
        }
    }
}

/// The header lines of a calendar, `BEGIN:VCALENDAR` through `METHOD`.
pub open spec fn head_lines(c: VCalendarView) -> Seq<Seq<char>> {
    seq!["BEGIN:VCALENDAR"@, "VERSION:"@ + c.version, "PRODID:"@ + c.prodid] + opt_line(
        match c.calscale {
            Some(v) => Some("CALSCALE:"@ + v),
            None => None,
        },
    ) + opt_line(
        match c.method {
            Some(v) => Some("METHOD:"@ + v),
            None => None,
        },
    )
}

/// The event and component lines of a calendar.
pub open spec fn body_lines(c: VCalendarView) -> Seq<Seq<char>> {
    events_lines(c.events) + components_lines(c.unrecognized_components)
}

/// The header lines of a calendar, read: trimmed, they are those of the
/// header-trimmed calendar, and plain; those are safe.
proof fn lemma_head_lines_trimmed(c: VCalendarView)
    requires
        avoids(c.version, '\n'),
        avoids(c.prodid, '\n'),
        opt_avoids_newline(c.calscale),
        opt_avoids_newline(c.method),
    ensures
        head_lines(c).map_values(|l: Seq<char>| trim_spec(l)) == head_lines(header_trimmed(c)),
        lines_plain(head_lines(c)),
        lines_safe(head_lines(header_trimmed(c))),
{
    reveal_strlit("BEGIN:VCALENDAR");
    reveal_strlit("VERSION:");
    reveal_strlit("PRODID:");
    reveal_strlit("CALSCALE:");
    reveal_strlit("METHOD:");
    let ct = header_trimmed(c);
    let b = "BEGIN:VCALENDAR"@;
    lemma_trim_safe(b);
    let hs = head_lines(c);
    let ht = head_lines(ct);
    lemma_trim_prefixed("VERSION:"@, c.version);
    lemma_trim_prefixed("PRODID:"@, c.prodid);
    lemma_trimmed_line_safe("VERSION:"@, c.version);
    lemma_trimmed_line_safe("PRODID:"@, c.prodid);
    match c.calscale {
        Some(v) => {
            lemma_trim_prefixed("CALSCALE:"@, v);
            lemma_trimmed_line_safe("CALSCALE:"@, v);
        },
        None => {},
    }
    match c.method {
        Some(v) => {
            lemma_trim_prefixed("METHOD:"@, v);
            lemma_trimmed_line_safe("METHOD:"@, v);
        },
        None => {},
    }
    assert forall|i: int| 0 <= i < hs.len() implies #[trigger] line_plain(hs[i]) by {
        if i >= 1 {
            let l = hs[i];
            assert forall|j: int| 0 <= j < l.len() implies l[j] != '\n' by {
                if i == 1 {
                    if j >= 8 {
                        assert(l[j] == c.version[j - 8]);
                    }
                } else if i == 2 {
                    if j >= 7 {
                        assert(l[j] == c.prodid[j - 7]);
                    }
                } else if i == 3 && c.calscale is Some {
                    if j >= 9 {
                        assert(l[j] == c.calscale->0[j - 9]);
                    }
                } else {
                    if j >= 7 {
                        assert(l[j] == c.method->0[j - 7]);
                    }
                }
            }
        }
    }
    assert(hs.map_values(|l: Seq<char>| trim_spec(l)) =~= ht);
    assert forall|i: int| 0 <= i < ht.len() implies #[trigger] line_safe(ht[i]) by {}
}

/// Formatting then parsing gives the events back. The calendar comes
/// back with the trailing white space of its `VERSION`, `PRODID`,
/// `CALSCALE` and `METHOD` values trimmed; those values may hold anything
/// but a line break. The event and component lines must be safe, every
/// event readable, and no kept component named `VEVENT`.
#[verifier::spinoff_prover]
#[verifier::rlimit(40)]
pub proof fn lemma_events_round_trip(c: VCalendarView)
    requires
        avoids(c.version, '\n'),
        avoids(c.prodid, '\n'),
        opt_avoids_newline(c.calscale),
        opt_avoids_newline(c.method),
        lines_safe(body_lines(c)),
        forall|i: int| 0 <= i < c.events.len() ==> #[trigger] event_readable(c.events[i]),
        forall|i: int|
            0 <= i < c.unrecognized_components.len() ==> #[trigger] cal_component_readable(
                c.unrecognized_components[i],
            ),
    ensures
        parse_calendar_spec(calendar_text(c)) == Ok::<VCalendarView, ErrorView>(header_trimmed(c)),
        parse_calendar_spec(calendar_text(c)) matches Ok(r) && r.events == c.events,
{
    reveal_strlit("END:VCALENDAR");
    reveal_strlit("BEGIN:VCALENDAR");
    let ct = header_trimmed(c);
    let z = seq!["END:VCALENDAR"@];
    lemma_trim_safe("END:VCALENDAR"@);
    assert(lines_safe(z));
    lemma_head_lines_trimmed(c);
    assert(body_lines(ct) == body_lines(c));
    assert(calendar_lines(c) =~= head_lines(c) + body_lines(c) + z);
    assert(calendar_lines(ct) =~= head_lines(ct) + body_lines(c) + z);
    lemma_safe_lines_plain(body_lines(c));
    lemma_safe_lines_plain(z);
    lemma_lines_plain_append(head_lines(c), body_lines(c));
    lemma_lines_plain_append(head_lines(c) + body_lines(c), z);
    lemma_lines_safe_append(head_lines(ct), body_lines(c));
    lemma_lines_safe_append(head_lines(ct) + body_lines(c), z);
    assert(calendar_readable(ct));
    let ls = calendar_lines(c);
    assert(ls[0] == "BEGIN:VCALENDAR"@);
    lemma_document_lines_trimmed(ls);
    assert forall|i: int| 0 <= i < body_lines(c).len() implies trim_spec(#[trigger] body_lines(c)[i])
        == body_lines(c)[i] by {
        assert(line_safe(body_lines(c)[i]));
        lemma_trim_safe(body_lines(c)[i]);
    }
    assert(ls.map_values(|l: Seq<char>| trim_spec(l)) =~= calendar_lines(ct)) by {
        let hl = head_lines(c);
        let hm = hl.map_values(|l: Seq<char>| trim_spec(l));
        assert forall|i: int| 0 <= i < ls.len() implies trim_spec(#[trigger] ls[i])
            == calendar_lines(ct)[i] by {
            if i < hl.len() {
                assert(ls[i] == hl[i]);
                assert(hm[i] == trim_spec(hl[i]));
            } else if i < hl.len() + body_lines(c).len() {
                assert(ls[i] == body_lines(c)[i - hl.len()]);
            } else {
                assert(ls[i] == "END:VCALENDAR"@);
            }
        }
    }
    lemma_calendar_text(c);
    lemma_calendar_text(ct);
    lemma_document_lines(calendar_lines(ct));
    assert(document_lines(calendar_text(c)) == document_lines(calendar_text(ct)));
    lemma_calendar_round_trip(ct);
}

/// No CR, LF, backslash, comma or semicolon, and no white space at either
/// end.
pub open spec fn plain_text(s: Seq<char>) -> bool {
    &&& forall|i: int|
        0 <= i < s.len() ==> #[trigger] s[i] != '\r' && s[i] != '\n' && s[i] != '\\' && s[i] != ','
            && s[i] != ';'
    &&& s.len() > 0 ==> !is_white_space(s[0]) && !is_white_space(s.last())
}

/// An event with no transparency, class, extension bundles, categories,
/// `X-` properties or nested components, whose UID and summary are plain
/// text, whose stamp has whole seconds, and whose dates fall in the
/// years 1000 to 9999.
pub open spec fn plain_event(e: VEventView) -> bool {
    &&& e.transp is None
    &&& e.class is None
    &&& e.microsoft is None
    &&& e.google is None
    &&& e.icloud is None
    &&& e.categories.len() == 0
    &&& e.unknown.len() == 0
    &&& e.unrecognized_components.len() == 0
    &&& plain_text(e.uid)
    &&& plain_text(e.summary)
    &&& e.dtstamp.valid()
    &&& e.dtstamp.nanosecond == 0
    &&& 1000 <= e.dtstamp.date.year <= 9999
    &&& e.dtstart.valid()
    &&& 1000 <= e.dtstart.year <= 9999
    &&& e.dtend.valid()
    &&& 1000 <= e.dtend.year <= 9999
}

proof fn lemma_encode_plain(s: Seq<char>)
    requires
        forall|i: int| 0 <= i < s.len() ==> #[trigger] s[i] != '\n' && s[i] != '\\' && s[i] != ',' && s[i] != ';',
    ensures
        encode_spec(s) == s,
    decreases s.len(),
{
    if s.len() > 0 {
        assert forall|i: int| 0 <= i < s.skip(1).len() implies #[trigger] s.skip(1)[i] != '\n'
            && s.skip(1)[i] != '\\' && s.skip(1)[i] != ',' && s.skip(1)[i] != ';' by {
            assert(s.skip(1)[i] == s[i + 1]);
        }
        lemma_encode_plain(s.skip(1));
        assert(seq![s[0]] + s.skip(1) =~= s);
    }
}

/// `p + v` is a safe line when `p` starts without white space and `v`
/// (or, when `v` is empty, `p`) ends without it, and neither holds LF.
proof fn lemma_prefixed_line_safe(p: Seq<char>, v: Seq<char>)
    requires
        p.len() > 0,
        !is_white_space(p[0]),
        avoids(p, '\n'),
        avoids(v, '\n'),
        v.len() > 0 ==> !is_white_space(v.last()),
        v.len() == 0 ==> !is_white_space(p.last()),
    ensures
        line_safe(p + v),
{
    let l = p + v;
    assert forall|i: int| 0 <= i < l.len() implies l[i] != '\n' by {
        if i >= p.len() {
            assert(l[i] == v[i - p.len()]);
        }
    }
    assert(l[0] == p[0]);
    if v.len() > 0 {
        assert(l.last() == v.last());
    } else {
        assert(l =~= p);
    }
}

proof fn lemma_digits_plain(t: Seq<char>)
    requires
        all_digits(t),
        t.len() > 0,
    ensures
        avoids(t, '\n'),
        !is_white_space(t.last()),
{
    assert(is_digit(t[t.len() - 1]));
    assert forall|i: int| 0 <= i < t.len() implies t[i] != '\n' by {
        assert(is_digit(t[i]));
    }
}

proof fn lemma_stamp_text_plain(t: DateTime)
    requires
        t.valid(),
        0 <= t.date.year <= 9999,
        t.nanosecond == 0,
    ensures
        avoids(compact_stamp_text(t), '\n'),
        compact_stamp_text(t).last() == 'Z',
{
    lemma_compact_date_read(t.date);
    lemma_decimal(t.hour as nat);
    lemma_decimal(t.minute as nat);
    lemma_decimal(t.second as nat);
    lemma_padded(t.hour as nat, 2);
    lemma_padded(t.minute as nat, 2);
    lemma_padded(t.second as nat, 2);
    let dt = compact_date_text(t.date);
    let h = padded(t.hour as nat, 2);
    let mi = padded(t.minute as nat, 2);
    let se = padded(t.second as nat, 2);
    let s = compact_stamp_text(t);
    assert(second_of(t) == t.second);
    let r = dt + seq!['T'] + h + mi + se + seq!['Z'];
    assert(s == r);
    assert forall|i: int| 0 <= i < s.len() implies s[i] != '\n' by {
        if i < 8 {
            assert(s[i] == dt[i] && is_digit(dt[i]));
        } else if i == 8 {
        } else if i < 11 {
            assert(s[i] == h[i - 9] && is_digit(h[i - 9]));
        } else if i < 13 {
            assert(s[i] == mi[i - 11] && is_digit(mi[i - 11]));
        } else if i < 15 {
            assert(s[i] == se[i - 13] && is_digit(se[i - 13]));
        }
    }
}

proof fn lemma_plain_event_lines(e: VEventView)
    requires
        plain_event(e),
    ensures
        event_readable(e),
        lines_safe(vevent_lines(e)),
{
    reveal_strlit("BEGIN:VEVENT");
    reveal_strlit("END:VEVENT");
    reveal_strlit("UID:");
    reveal_strlit("DTSTAMP:");
    reveal_strlit("DTSTART;VALUE=DATE:");
    reveal_strlit("DTEND;VALUE=DATE:");
    reveal_strlit("SUMMARY:");
    assert(x_properties(e) =~= Seq::<RawPropertyView>::empty());
    assert(sort_by_index(x_properties(e)) =~= Seq::<RawPropertyView>::empty());
    assert(event_readable(e));
    lemma_encode_plain(e.summary);
    lemma_stamp_text_plain(e.dtstamp);
    lemma_compact_date_read(e.dtstart);
    lemma_compact_date_read(e.dtend);
    lemma_digits_plain(compact_date_text(e.dtstart));
    lemma_digits_plain(compact_date_text(e.dtend));
    assert(avoids(e.uid, '\n'));
    assert(avoids(e.summary, '\n'));
    lemma_prefixed_line_safe("UID:"@, e.uid);
    lemma_prefixed_line_safe("DTSTAMP:"@, compact_stamp_text(e.dtstamp));
    lemma_prefixed_line_safe("DTSTART;VALUE=DATE:"@, compact_date_text(e.dtstart));
    lemma_prefixed_line_safe("DTEND;VALUE=DATE:"@, compact_date_text(e.dtend));
    lemma_prefixed_line_safe("SUMMARY:"@, e.summary);
    lemma_trim_safe("BEGIN:VEVENT"@);
    lemma_trim_safe("END:VEVENT"@);
    let ls = vevent_lines(e);
    assert(vevent_typed_lines(e) =~= Seq::<Seq<char>>::empty());
    assert(prop_lines(sort_by_index(x_properties(e))) =~= Seq::<Seq<char>>::empty());
    assert(components_lines(e.unrecognized_components) =~= Seq::<Seq<char>>::empty());
    assert(ls =~= vevent_head_lines(e) + seq!["END:VEVENT"@]);
    assert forall|i: int| 0 <= i < ls.len() implies #[trigger] line_safe(ls[i]) by {}
}

proof fn lemma_plain_events_lines(es: Seq<VEventView>)
    requires
        forall|i: int| 0 <= i < es.len() ==> #[trigger] plain_event(es[i]),
    ensures
        lines_safe(events_lines(es)),
        forall|i: int| 0 <= i < es.len() ==> #[trigger] event_readable(es[i]),
    decreases es.len(),
{
    if es.len() > 0 {
        assert(plain_event(es[0]));
        lemma_plain_event_lines(es[0]);
        assert forall|i: int| 0 <= i < es.skip(1).len() implies #[trigger] plain_event(es.skip(1)[i]) by {
            assert(es.skip(1)[i] == es[i + 1]);
        }
        lemma_plain_events_lines(es.skip(1));
        lemma_lines_safe_append(vevent_lines(es[0]), events_lines(es.skip(1)));
        assert forall|i: int| 0 <= i < es.len() implies #[trigger] event_readable(es[i]) by {
            if i == 0 {
                lemma_plain_event_lines(es[0]);
            } else {
                assert(es[i] == es.skip(1)[i - 1]);
            }
        }
    }
}

/// Formatting then parsing gives plain events back, whatever the header
/// values hold but a line break, and whatever kept components the
/// calendar has, as long as they are written in the form the reader
/// gives back and none is named `VEVENT`.
pub proof fn lemma_plain_events_round_trip(c: VCalendarView)
    requires
        forall|i: int| 0 <= i < c.events.len() ==> #[trigger] plain_event(c.events[i]),
        avoids(c.version, '\n'),
        avoids(c.prodid, '\n'),
        opt_avoids_newline(c.calscale),
        opt_avoids_newline(c.method),
        lines_safe(components_lines(c.unrecognized_components)),
        forall|i: int|
            0 <= i < c.unrecognized_components.len() ==> #[trigger] cal_component_readable(
                c.unrecognized_components[i],
            ),
    ensures
        parse_calendar_spec(calendar_text(c)) matches Ok(r) && r.events == c.events,
{
    lemma_plain_events_lines(c.events);
    lemma_lines_safe_append(events_lines(c.events), components_lines(c.unrecognized_components));
    lemma_events_round_trip(c);
}

// ---------------------------------------------------------------------
// Sorting and filing X- properties
// ---------------------------------------------------------------------

/// Properties in `source_index` order.
pub open spec fn index_sorted(ps: Seq<RawPropertyView>) -> bool {
    forall|i: int, j: int|
        0 <= i < j < ps.len() ==> (#[trigger] ps[i]).source_index <= (#[trigger] ps[j]).source_index
}

/// The properties of `xs` the reader files under bucket `k`, in order.
pub open spec fn of_kind(xs: Seq<RawPropertyView>, k: int) -> Seq<RawPropertyView>
    decreases xs.len(),
{
    if xs.len() == 0 {
        seq![]
    } else if x_kind(xs.last().name) == k {
        of_kind(xs.drop_last(), k).push(xs.last())
    } else {
        of_kind(xs.drop_last(), k)
    }
}

/// Every property of `ps` satisfies `q`.
pub open spec fn all_props(ps: Seq<RawPropertyView>, q: spec_fn(RawPropertyView) -> bool) -> bool {
    forall|i: int| 0 <= i < ps.len() ==> q(#[trigger] ps[i])
}

proof fn lemma_insert_all(
    ps: Seq<RawPropertyView>,
    p: RawPropertyView,
    q: spec_fn(RawPropertyView) -> bool,
)
    requires
        all_props(ps, q),
        q(p),
    ensures
        all_props(insert_by_index(ps, p), q),
        insert_by_index(ps, p).len() == ps.len() + 1,
    decreases ps.len(),
{
    if ps.len() > 0 && ps.last().source_index > p.source_index {
        let dl = ps.drop_last();
        assert(all_props(dl, q)) by {
            assert forall|i: int| 0 <= i < dl.len() implies q(#[trigger] dl[i]) by {
                assert(dl[i] == ps[i]);
            }
        }
        lemma_insert_all(dl, p, q);
        assert(q(ps.last())) by {
            assert(ps.last() == ps[ps.len() - 1]);
        }
        let r = insert_by_index(dl, p).push(ps.last());
        assert forall|i: int| 0 <= i < r.len() implies q(#[trigger] r[i]) by {
            if i < r.len() - 1 {
                assert(r[i] == insert_by_index(dl, p)[i]);
            }
        }
    } else if ps.len() > 0 {
        let r = ps.push(p);
        assert forall|i: int| 0 <= i < r.len() implies q(#[trigger] r[i]) by {
            if i < ps.len() {
                assert(r[i] == ps[i]);
            }
        }
    } else {
        assert(seq![p][0] == p);
    }
}

proof fn lemma_sort_all(ps: Seq<RawPropertyView>, q: spec_fn(RawPropertyView) -> bool)
    requires
        all_props(ps, q),
    ensures
        all_props(sort_by_index(ps), q),
        sort_by_index(ps).len() == ps.len(),
    decreases ps.len(),
{
    if ps.len() > 0 {
        let dl = ps.drop_last();
        assert(all_props(dl, q)) by {
            assert forall|i: int| 0 <= i < dl.len() implies q(#[trigger] dl[i]) by {
                assert(dl[i] == ps[i]);
            }
        }
        lemma_sort_all(dl, q);
        assert(q(ps.last())) by {
            assert(ps.last() == ps[ps.len() - 1]);
        }
        lemma_insert_all(sort_by_index(dl), ps.last(), q);
    }
}

proof fn lemma_insert_sorted(ps: Seq<RawPropertyView>, p: RawPropertyView)
    requires
        index_sorted(ps),
    ensures
        index_sorted(insert_by_index(ps, p)),
    decreases ps.len(),
{
    if ps.len() > 0 && ps.last().source_index > p.source_index {
        let dl = ps.drop_last();
        let b = ps.last().source_index;
        assert(index_sorted(dl)) by {
            assert forall|i: int, j: int| 0 <= i < j < dl.len() implies (#[trigger] dl[i]).source_index
                <= (#[trigger] dl[j]).source_index by {
                assert(dl[i] == ps[i] && dl[j] == ps[j]);
            }
        }
        lemma_insert_sorted(dl, p);
        let q = |x: RawPropertyView| x.source_index <= b;
        assert(all_props(dl, q)) by {
            assert forall|i: int| 0 <= i < dl.len() implies q(#[trigger] dl[i]) by {
                assert(dl[i] == ps[i]);
                assert(ps[i].source_index <= ps[ps.len() - 1].source_index);
            }
        }
        lemma_insert_all(dl, p, q);
        let ins = insert_by_index(dl, p);
        let r = ins.push(ps.last());
        assert forall|i: int, j: int| 0 <= i < j < r.len() implies (#[trigger] r[i]).source_index
            <= (#[trigger] r[j]).source_index by {
            if j < r.len() - 1 {
                assert(r[i] == ins[i] && r[j] == ins[j]);
            } else {
                assert(r[i] == ins[i]);
                assert(q(ins[i]));
            }
        }
    } else if ps.len() > 0 {
        let r = ps.push(p);
        assert forall|i: int, j: int| 0 <= i < j < r.len() implies (#[trigger] r[i]).source_index
            <= (#[trigger] r[j]).source_index by {
            if j < ps.len() {
                assert(r[i] == ps[i] && r[j] == ps[j]);
            } else {
                assert(r[i] == ps[i]);
                assert(ps[i].source_index <= ps[ps.len() - 1].source_index || i == ps.len() - 1);
            }
        }
    }
}

proof fn lemma_sort_is_sorted(ps: Seq<RawPropertyView>)
    ensures
        index_sorted(sort_by_index(ps)),
    decreases ps.len(),
{
    if ps.len() > 0 {
        lemma_sort_is_sorted(ps.drop_last());
        lemma_insert_sorted(sort_by_index(ps.drop_last()), ps.last());
    }
}

proof fn lemma_of_kind_all(ps: Seq<RawPropertyView>, k: int, q: spec_fn(RawPropertyView) -> bool)
    requires
        all_props(ps, q),
    ensures
        all_props(of_kind(ps, k), q),
    decreases ps.len(),
{
    if ps.len() > 0 {
        let dl = ps.drop_last();
        assert(all_props(dl, q)) by {
            assert forall|i: int| 0 <= i < dl.len() implies q(#[trigger] dl[i]) by {
                assert(dl[i] == ps[i]);
            }
        }
        lemma_of_kind_all(dl, k, q);
        assert(q(ps.last())) by {
            assert(ps.last() == ps[ps.len() - 1]);
        }
        let f = of_kind(dl, k);
        if x_kind(ps.last().name) == k {
            assert forall|i: int| 0 <= i < f.push(ps.last()).len() implies q(
                #[trigger] f.push(ps.last())[i],
            ) by {
                if i < f.len() {
                    assert(f.push(ps.last())[i] == f[i]);
                }
            }
        }
    }
}

/// Filing commutes with inserting into a sorted sequence.
proof fn lemma_of_kind_insert(ps: Seq<RawPropertyView>, p: RawPropertyView, k: int)
    requires
        index_sorted(ps),
    ensures
        of_kind(insert_by_index(ps, p), k) == (if x_kind(p.name) == k {
            insert_by_index(of_kind(ps, k), p)
        } else {
            of_kind(ps, k)
        }),
    decreases ps.len(),
{
    let ins = insert_by_index(ps, p);
    if ps.len() == 0 {
        assert(ins == seq![p]);
        assert(ins.drop_last() =~= Seq::<RawPropertyView>::empty());
        assert(of_kind(Seq::<RawPropertyView>::empty(), k) == Seq::<RawPropertyView>::empty());
        assert(Seq::<RawPropertyView>::empty().push(p) =~= seq![p]);
    } else if ps.last().source_index <= p.source_index {
        assert(ins == ps.push(p));
        assert(ins.drop_last() =~= ps);
        if x_kind(p.name) == k {
            let f = of_kind(ps, k);
            let b = ps.last().source_index;
            let q = |x: RawPropertyView| x.source_index <= b;
            assert(all_props(ps, q)) by {
                assert forall|i: int| 0 <= i < ps.len() implies q(#[trigger] ps[i]) by {
                    if i < ps.len() - 1 {
                        assert(ps[i].source_index <= ps[ps.len() - 1].source_index);
                    }
                }
            }
            lemma_of_kind_all(ps, k, q);
            if f.len() > 0 {
                assert(q(f[f.len() - 1]));
            }
        }
    } else {
        let dl = ps.drop_last();
        let l = ps.last();
        assert(index_sorted(dl)) by {
            assert forall|i: int, j: int| 0 <= i < j < dl.len() implies (#[trigger] dl[i]).source_index
                <= (#[trigger] dl[j]).source_index by {
                assert(dl[i] == ps[i] && dl[j] == ps[j]);
            }
        }
        lemma_of_kind_insert(dl, p, k);
        assert(ins == insert_by_index(dl, p).push(l));
        assert(ins.drop_last() =~= insert_by_index(dl, p));
        assert(ins.last() == l);
        assert(ps.drop_last() =~= dl);
        if x_kind(p.name) == k && x_kind(l.name) == k {
            let f = of_kind(dl, k);
            assert(of_kind(ps, k) == f.push(l));
            assert(f.push(l).last().source_index > p.source_index);
            assert(f.push(l).drop_last() =~= f);
        }
    }
}

/// Filing the sorted properties gives the sorted properties of the bucket.
proof fn lemma_of_kind_sort(ps: Seq<RawPropertyView>, k: int)
    ensures
        of_kind(sort_by_index(ps), k) == sort_by_index(of_kind(ps, k)),
    decreases ps.len(),
{
    if ps.len() > 0 {
        let dl = ps.drop_last();
        lemma_of_kind_sort(dl, k);
        lemma_sort_is_sorted(dl);
        lemma_of_kind_insert(sort_by_index(dl), ps.last(), k);
        if x_kind(ps.last().name) == k {
            let f = of_kind(ps, k);
            assert(f == of_kind(dl, k).push(ps.last()));
            assert(f.drop_last() =~= of_kind(dl, k));
            assert(f.last() == ps.last());
        }
    } else {
        assert(sort_by_index(ps) == Seq::<RawPropertyView>::empty());
    }
}

proof fn lemma_of_kind_append(a: Seq<RawPropertyView>, b: Seq<RawPropertyView>, k: int)
    ensures
        of_kind(a + b, k) == of_kind(a, k) + of_kind(b, k),
    decreases b.len(),
{
    if b.len() == 0 {
        assert(a + b =~= a);
        assert(of_kind(a, k) + of_kind(b, k) =~= of_kind(a, k));
    } else {
        lemma_of_kind_append(a, b.drop_last(), k);
        assert((a + b).drop_last() =~= a + b.drop_last());
        assert((a + b).last() == b.last());
        if x_kind(b.last().name) == k {
            assert(of_kind(a, k) + of_kind(b.drop_last(), k).push(b.last()) =~= (of_kind(a, k)
                + of_kind(b.drop_last(), k)).push(b.last()));
        }
    }
}

/// A bucket's properties all of kind `j` are kept by filing under `j` and
/// dropped by filing under any other kind.
proof fn lemma_of_kind_bucket(xs: Seq<RawPropertyView>, j: int, k: int)
    requires
        forall|i: int| 0 <= i < xs.len() ==> x_kind((#[trigger] xs[i]).name) == j,
    ensures
        of_kind(xs, k) == (if j == k {
            xs
        } else {
            Seq::<RawPropertyView>::empty()
        }),
    decreases xs.len(),
{
    if xs.len() > 0 {
        let dl = xs.drop_last();
        assert forall|i: int| 0 <= i < dl.len() implies x_kind((#[trigger] dl[i]).name) == j by {
            assert(dl[i] == xs[i]);
        }
        lemma_of_kind_bucket(dl, j, k);
        assert(x_kind(xs[xs.len() - 1].name) == j);
        if j == k {
            assert(dl.push(xs.last()) =~= xs);
        }
    } else {
        assert(xs =~= Seq::<RawPropertyView>::empty());
    }
}

} // verus!
