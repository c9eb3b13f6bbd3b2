//! Parsing of a whole ICS document into a typed `VCalendar`.
//!
//! The document is unfolded into logical lines, each trimmed of white
//! space. Lines before `BEGIN:VCALENDAR` are skipped. At calendar level,
//! `BEGIN:VEVENT` blocks become typed events, other `BEGIN:` blocks are
//! kept verbatim as `RawComponent`s, and `VERSION:` / `PRODID:` /
//! `CALSCALE:` / `METHOD:` lines set the calendar fields. Inside a
//! `VEVENT`, properties are tokenized as logical lines and dispatched by
//! name; `X-*` properties are routed to the vendor bundle whose prefix
//! they carry, or to `unknown`.

pub mod indices;

pub use indices::parse_indices;
use vstd::prelude::*;
use crate::date::{
    chrono_compact_date, chrono_compact_stamp, parse_compact_date, parse_compact_stamp, Date,
    DateTime,
};
use crate::error::{push_chars, Error, ErrorView};
use crate::escape::{decode_chars, decode_spec, split_spec, split_text_list_chars};
use crate::event::{
    class_from_spec, events_view, transp_from_spec, EventClass, Transp, VEvent, VEventView,
};
use crate::line::{parse_logical_line_chars, parse_logical_line_spec, LogicalLine, LogicalLineView};
use crate::profile::{google, icloud, microsoft};
use crate::profile::microsoft::{from_cdo_spec, MsBusyStatus};
use crate::raw::{
    components_view, lemma_components_view_push, props_view, RawComponent, RawComponentView,
    RawProperty, RawPropertyView,
};
use crate::text::{
    chars_eq, chars_of, has_prefix, starts_with, string_of, string_of_range, to_uppercase,
    trim_chars, trim_spec, unicode_uppercase,
};
use crate::unfold::{unfold_chars, unfold_spec};
use crate::vcalendar::{VCalendar, VCalendarView};

verus! {

/// `x + 1`, wrapping to 0 after `u32::MAX` (`u32::wrapping_add(x, 1)`).
pub open spec fn wrap_inc(x: u32) -> u32 {
    if x == u32::MAX {
        0
    } else {
        (x + 1) as u32
    }
}

fn wrapping_inc(x: u32) -> (r: u32)
    ensures
        r == wrap_inc(x),
{
    if x == u32::MAX {
        0
    } else {
        x + 1
    }
}

/// Code point of the ASCII lower-case form of `c`.
pub open spec fn ascii_lower(c: char) -> u32 {
    if 'A' <= c && c <= 'Z' {
        ((c as u32) + 32) as u32
    } else {
        c as u32
    }
}

/// `str::eq_ignore_ascii_case`.
pub open spec fn eq_ignore_ascii_case_spec(a: Seq<char>, b: Seq<char>) -> bool {
    a.len() == b.len() && forall|i: int| 0 <= i < a.len() ==> ascii_lower(a[i]) == ascii_lower(b[i])
}

fn ascii_lower_char(c: char) -> (r: u32)
    ensures
        r == ascii_lower(c),
{
    if 'A' <= c && c <= 'Z' {
        (c as u32) + 32
    } else {
        c as u32
    }
}

fn eq_ignore_ascii_case_chars(a: &Vec<char>, b: &Vec<char>) -> (r: bool)
    ensures
        r == eq_ignore_ascii_case_spec(a@, b@),
{
    if a.len() != b.len() {
        return false;
    }
    let mut i: usize = 0;
    while i < a.len()
        invariant
            a.len() == b.len(),
            i <= a.len(),
            forall|k: int| 0 <= k < i ==> ascii_lower(a@[k]) == ascii_lower(b@[k]),
        decreases a.len() - i,
    {
        if ascii_lower_char(a[i]) != ascii_lower_char(b[i]) {
            return false;
        }
        i = i + 1;
    }
    true
}

// ---------------------------------------------------------------------
// Unrecognized components
// ---------------------------------------------------------------------

/// Reading a `BEGIN:<name>` block whose body starts at `idx`: the finished
/// component and the index just after it. Properties found so far are
/// `props` (numbered up to `pi`), nested blocks found so far `subs`. A
/// matching `END:` (ASCII case-insensitive) ends the block and is consumed;
/// a mismatched `END:` ends it and is left for the enclosing block; end of
/// input ends it too.
pub open spec fn raw_block(
    lines: Seq<Seq<char>>,
    idx: int,
    name: Seq<char>,
    props: Seq<RawPropertyView>,
    subs: Seq<RawComponentView>,
    pi: u32,
) -> (RawComponentView, int)
    decreases lines.len() - idx,
{
    let comp = RawComponentView { name, properties: props, sub_components: subs };
    if idx < 0 || idx >= lines.len() {
        (comp, idx)
    } else {
        let line = lines[idx];
        if starts_with(line, "END:"@) {
            if eq_ignore_ascii_case_spec(line.skip(4), name) {
                (comp, idx + 1)
            } else {
                (comp, idx)
            }
        } else if starts_with(line, "BEGIN:"@) {
            let (sub, next) = raw_block(
                lines,
                idx + 1,
                unicode_uppercase(line.skip(6)),
                seq![],
                seq![],
                0,
            );
            if next > idx && next <= lines.len() {
                raw_block(lines, next, name, props, subs.push(sub), pi)
            } else {
                (comp, idx)
            }
        } else {
            match parse_logical_line_spec(line) {
                Some(ll) => raw_block(
                    lines,
                    idx + 1,
                    name,
                    props.push(
                        RawPropertyView {
                            name: ll.name,
                            params: ll.params,
                            value: ll.value,
                            source_index: wrap_inc(pi),
                        },
                    ),
                    subs,
                    wrap_inc(pi),
                ),
                None => raw_block(lines, idx + 1, name, props, subs, pi),
            }
        }
    }
}

/// A block never ends before it starts.
pub proof fn lemma_raw_block_advances(
    lines: Seq<Seq<char>>,
    idx: int,
    name: Seq<char>,
    props: Seq<RawPropertyView>,
    subs: Seq<RawComponentView>,
    pi: u32,
)
    ensures
        raw_block(lines, idx, name, props, subs, pi).1 >= idx,
        0 <= idx <= lines.len() ==> raw_block(lines, idx, name, props, subs, pi).1 <= lines.len(),
    decreases lines.len() - idx,
{
    if 0 <= idx < lines.len() {
        let line = lines[idx];
        if starts_with(line, "END:"@) {
        } else if starts_with(line, "BEGIN:"@) {
            let (sub, next) = raw_block(
                lines,
                idx + 1,
                unicode_uppercase(line.skip(6)),
                seq![],
                seq![],
                0,
            );
            lemma_raw_block_advances(
                lines,
                idx + 1,
                unicode_uppercase(line.skip(6)),
                seq![],
                seq![],
                0,
            );
            if next > idx && next <= lines.len() {
                lemma_raw_block_advances(lines, next, name, props, subs.push(sub), pi);
            }
        } else {
            match parse_logical_line_spec(line) {
                Some(ll) => lemma_raw_block_advances(
                    lines,
                    idx + 1,
                    name,
                    props.push(
                        RawPropertyView {
                            name: ll.name,
                            params: ll.params,
                            value: ll.value,
                            source_index: wrap_inc(pi),
                        },
                    ),
                    subs,
                    wrap_inc(pi),
                ),
                None => lemma_raw_block_advances(lines, idx + 1, name, props, subs, pi),
            }
        }
    }
}

/// Whether `line` starts with `BEGIN:`; if so, the component name after it.
fn begin_name(line: &Vec<char>) -> (r: Option<Vec<char>>)
    ensures
        r is Some <==> starts_with(line@, "BEGIN:"@),
        r matches Some(n) ==> n@ == line@.skip(6),
{
    let p = chars_of("BEGIN:");
    proof {
        reveal_strlit("BEGIN:");
    }
    if has_prefix(line, &p) {
        Some(suffix(line, 6))
    } else {
        None
    }
}

/// Whether `line` starts with `END:`; if so, the component name after it.
fn end_name(line: &Vec<char>) -> (r: Option<Vec<char>>)
    ensures
        r is Some <==> starts_with(line@, "END:"@),
        r matches Some(n) ==> n@ == line@.skip(4),
{
    let p = chars_of("END:");
    proof {
        reveal_strlit("END:");
    }
    if has_prefix(line, &p) {
        Some(suffix(line, 4))
    } else {
        None
    }
}

/// The characters of `v` from position `k` on.
fn suffix(v: &Vec<char>, k: usize) -> (r: Vec<char>)
    requires
        k <= v.len(),
    ensures
        r@ == v@.skip(k as int),
{
    let mut out: Vec<char> = Vec::new();
    let mut i = k;
    while i < v.len()
        invariant
            k <= i <= v.len(),
            out@ == v@.subrange(k as int, i as int),
        decreases v.len() - i,
    {
        out.push(v[i]);
        assert(v@.subrange(k as int, i as int).push(v@[i as int]) =~= v@.subrange(k as int, i + 1));
        i = i + 1;
    }
    assert(v@.subrange(k as int, i as int) =~= v@.skip(k as int));
    out
}

/// Read a `BEGIN:<name>` block whose body starts at `start` into a
/// `RawComponent` named by the upper-cased `name`; returns the component
/// and the index just after it.
pub fn parse_raw_component_block(name: String, lines: &Vec<Vec<char>>, start: usize) -> (r: (
    RawComponent,
    usize,
))
    requires
        start <= lines.len(),
    ensures
        (r.0@, r.1 as int) == raw_block(
            lines.deep_view(),
            start as int,
            unicode_uppercase(name@),
            seq![],
            seq![],
            0,
        ),
        r.1 <= lines.len(),
    decreases lines.len() - start,
{
    let upper = to_uppercase(name.as_str());
    let ghost ls = lines.deep_view();
    let mut properties: Vec<RawProperty> = Vec::new();
    let mut sub_components: Vec<RawComponent> = Vec::new();
    let mut prop_index: u32 = 0;
    let mut idx = start;
    assert(props_view(properties@) =~= seq![]);
    assert(components_view(sub_components@) =~= seq![]);
    while idx < lines.len()
        invariant
            start <= idx <= lines.len(),
            ls == lines.deep_view(),
            upper@ == unicode_uppercase(name@),
            raw_block(ls, start as int, upper@, seq![], seq![], 0) == raw_block(
                ls,
                idx as int,
                upper@,
                props_view(properties@),
                components_view(sub_components@),
                prop_index,
            ),
        decreases lines.len() - idx,
    {
        let line = &lines[idx];
        assert(ls[idx as int] == line@) by {
            assert(line.deep_view() =~= line@);
        }
        if let Some(en) = end_name(line) {
            let nv = chars_of(upper.as_str());
            let matched = eq_ignore_ascii_case_chars(&en, &nv);
            let comp = RawComponent { name: upper, properties, sub_components };
            if matched {
                return (comp, idx + 1);
            }
            return (comp, idx);
        }
        if let Some(bn) = begin_name(line) {
            let sub_name = string_of(&bn);
            let (sub, next) = parse_raw_component_block(sub_name, lines, idx + 1);
            proof {
                lemma_raw_block_advances(ls, idx + 1, unicode_uppercase(sub_name@), seq![], seq![], 0);
                lemma_components_view_push(sub_components@, sub);
            }
            sub_components.push(sub);
            idx = next;
            continue;
        }
        match parse_logical_line_chars(line) {
            Some(ll) => {
                let pi = wrapping_inc(prop_index);
                let p = ll.to_raw_property(pi);
                let ghost before = properties@;
                properties.push(p);
                assert(props_view(properties@) =~= props_view(before).push(p@));
                prop_index = pi;
            },
            None => {},
        }
        idx = idx + 1;
    }
    (RawComponent { name: upper, properties, sub_components }, idx)
}

// ---------------------------------------------------------------------
// VEVENT blocks
// ---------------------------------------------------------------------

/// Fields of a `VEVENT` collected so far.
pub struct EventAcc {
    pub uid: Seq<char>,
    pub dtstamp: Option<DateTime>,
    pub dtstart: Option<Date>,
    pub dtend: Option<Date>,
    pub summary: Seq<char>,
    pub transp: Option<Transp>,
    pub busystatus: Option<MsBusyStatus>,
    pub class: Option<EventClass>,
    pub categories: Seq<Seq<char>>,
    pub unknown: Seq<RawPropertyView>,
    pub ms_unrecognized: Seq<RawPropertyView>,
    pub google_unrecognized: Seq<RawPropertyView>,
    pub icloud_unrecognized: Seq<RawPropertyView>,
    pub x_index: u32,
    pub components: Seq<RawComponentView>,
}

/// Nothing collected yet.
pub open spec fn empty_event_acc() -> EventAcc {
    EventAcc {
        uid: seq![],
        dtstamp: None,
        dtstart: None,
        dtend: None,
        summary: seq![],
        transp: None,
        busystatus: None,
        class: None,
        categories: seq![],
        unknown: seq![],
        ms_unrecognized: seq![],
        google_unrecognized: seq![],
        icloud_unrecognized: seq![],
        x_index: 0,
        components: seq![],
    }
}

/// The parameter list holds `VALUE=DATE`.
pub open spec fn has_value_date_spec(params: Seq<(Seq<char>, Seq<char>)>) -> bool {
    exists|i: int| 0 <= i < params.len() && params[i] == ("VALUE"@, "DATE"@)
}

/// A timestamp from its parsed components.
pub open spec fn stamp_of(t: (i32, u32, u32, u32, u32, u32, u32)) -> DateTime {
    DateTime {
        date: Date { year: t.0, month: t.1, day: t.2 },
        hour: t.3,
        minute: t.4,
        second: t.5,
        nanosecond: t.6,
    }
}

/// A date from its parsed components.
pub open spec fn date_of(t: (i32, u32, u32)) -> Date {
    Date { year: t.0, month: t.1, day: t.2 }
}

/// Effect of one property line of a `VEVENT` on the collected fields; an
/// unparsable `DTSTAMP`, or `DTSTART` / `DTEND` with `VALUE=DATE`, fails
/// with the offending line and property.
pub open spec fn event_step(a: EventAcc, ll: LogicalLineView, line_no: u32) -> Result<
    EventAcc,
    ErrorView,
> {
    let n = ll.name;
    let v = ll.value;
    if n == "UID"@ {
        Ok(EventAcc { uid: v, ..a })
    } else if n == "DTSTAMP"@ {
        match chrono_compact_stamp(v) {
            Ok(t) => Ok(EventAcc { dtstamp: Some(stamp_of(t)), ..a }),
            Err(m) => Err(
                ErrorView {
                    message: "Invalid DTSTAMP: "@ + m,
                    line: Some(line_no),
                    property: Some("DTSTAMP"@),
                },
            ),
        }
    } else if n == "DTSTART"@ {
        if has_value_date_spec(ll.params) {
            match chrono_compact_date(v) {
                Ok(t) => Ok(EventAcc { dtstart: Some(date_of(t)), ..a }),
                Err(m) => Err(
                    ErrorView {
                        message: "Invalid DTSTART: "@ + m,
                        line: Some(line_no),
                        property: Some("DTSTART"@),
                    },
                ),
            }
        } else {
            Ok(a)
        }
    } else if n == "DTEND"@ {
        if has_value_date_spec(ll.params) {
            match chrono_compact_date(v) {
                Ok(t) => Ok(EventAcc { dtend: Some(date_of(t)), ..a }),
                Err(m) => Err(
                    ErrorView {
                        message: "Invalid DTEND: "@ + m,
                        line: Some(line_no),
                        property: Some("DTEND"@),
                    },
                ),
            }
        } else {
            Ok(a)
        }
    } else if n == "SUMMARY"@ {
        Ok(EventAcc { summary: decode_spec(v), ..a })
    } else if n == "TRANSP"@ {
        Ok(EventAcc { transp: transp_from_spec(v), ..a })
    } else if n == "X-MICROSOFT-CDO-BUSYSTATUS"@ {
        match from_cdo_spec(v) {
            Some(b) => Ok(EventAcc { busystatus: Some(b), ..a }),
            None => Ok(a),
        }
    } else if n == "CLASS"@ {
        Ok(EventAcc { class: class_from_spec(v), ..a })
    } else if n == "CATEGORIES"@ {
        Ok(EventAcc { categories: split_spec(v).map_values(|s: Seq<char>| trim_spec(s)), ..a })
    } else if starts_with(n, "X-"@) {
        let xi = wrap_inc(a.x_index);
        let p = RawPropertyView { name: n, params: ll.params, value: v, source_index: xi };
        if microsoft::owns_property_spec(n) {
            Ok(EventAcc { x_index: xi, ms_unrecognized: a.ms_unrecognized.push(p), ..a })
        } else if google::owns_property_spec(n) {
            Ok(EventAcc { x_index: xi, google_unrecognized: a.google_unrecognized.push(p), ..a })
        } else if icloud::owns_property_spec(n) {
            Ok(EventAcc { x_index: xi, icloud_unrecognized: a.icloud_unrecognized.push(p), ..a })
        } else {
            Ok(EventAcc { x_index: xi, unknown: a.unknown.push(p), ..a })
        }
    } else {
        Ok(a)
    }
}

/// The event the collected fields describe, once `END:VEVENT` is read at
/// 1-based line `line_no`; `DTSTAMP`, `DTSTART` and `DTEND` are required.
pub open spec fn event_finish(a: EventAcc, line_no: u32) -> Result<VEventView, ErrorView> {
    if a.dtstamp is None {
        Err(ErrorView { message: "VEVENT missing DTSTAMP"@, line: Some(line_no), property: None })
    } else if a.dtstart is None {
        Err(ErrorView { message: "VEVENT missing DTSTART"@, line: Some(line_no), property: None })
    } else if a.dtend is None {
        Err(ErrorView { message: "VEVENT missing DTEND"@, line: Some(line_no), property: None })
    } else {
        Ok(
            VEventView {
                uid: a.uid,
                dtstamp: a.dtstamp->0,
                dtstart: a.dtstart->0,
                dtend: a.dtend->0,
                summary: a.summary,
                transp: a.transp,
                class: a.class,
                categories: a.categories,
                microsoft: if a.busystatus is Some || a.ms_unrecognized.len() > 0 {
                    Some(
                        microsoft::EventExtensionsView {
                            busystatus: a.busystatus,
                            unrecognized: a.ms_unrecognized,
                        },
                    )
                } else {
                    None
                },
                google: if a.google_unrecognized.len() > 0 {
                    Some(google::EventExtensionsView { unrecognized: a.google_unrecognized })
                } else {
                    None
                },
                icloud: if a.icloud_unrecognized.len() > 0 {
                    Some(icloud::EventExtensionsView { unrecognized: a.icloud_unrecognized })
                } else {
                    None
                },
                unknown: a.unknown,
                unrecognized_components: a.components,
            },
        )
    }
}

/// Reading a `VEVENT` body from `idx` with fields `a` collected: the event
/// and the index just after `END:VEVENT`, or the error that stops it.
pub open spec fn vevent_body(lines: Seq<Seq<char>>, idx: int, a: EventAcc) -> Result<
    (VEventView, int),
    ErrorView,
>
    decreases lines.len() - idx,
{
    if idx < 0 || idx >= lines.len() {
        Err(ErrorView { message: "VEVENT missing END:VEVENT"@, line: None, property: None })
    } else {
        let line = lines[idx];
        let line_no = (idx + 1) as u32;
        if line == "END:VEVENT"@ {
            match event_finish(a, line_no) {
                Ok(e) => Ok((e, idx + 1)),
                Err(err) => Err(err),
            }
        } else if starts_with(line, "BEGIN:"@) {
            let (c, next) = raw_block(
                lines,
                idx + 1,
                unicode_uppercase(line.skip(6)),
                seq![],
                seq![],
                0,
            );
            if next > idx && next <= lines.len() {
                vevent_body(lines, next, EventAcc { components: a.components.push(c), ..a })
            } else {
                Err(
                    ErrorView { message: "VEVENT missing END:VEVENT"@, line: None, property: None },
                )
            }
        } else {
            match parse_logical_line_spec(line) {
                Some(ll) => match event_step(a, ll, line_no) {
                    Ok(a2) => vevent_body(lines, idx + 1, a2),
                    Err(e) => Err(e),
                },
                None => vevent_body(lines, idx + 1, a),
            }
        }
    }
}

/// A `VEVENT` read from `idx` ends after it.
pub proof fn lemma_vevent_body_advances(lines: Seq<Seq<char>>, idx: int, a: EventAcc)
    ensures
        vevent_body(lines, idx, a) matches Ok((_, next)) ==> next > idx && next <= lines.len(),
    decreases lines.len() - idx,
{
    if 0 <= idx < lines.len() {
        let line = lines[idx];
        let line_no = (idx + 1) as u32;
        if line == "END:VEVENT"@ {
        } else if starts_with(line, "BEGIN:"@) {
            let (c, next) = raw_block(
                lines,
                idx + 1,
                unicode_uppercase(line.skip(6)),
                seq![],
                seq![],
                0,
            );
            if next > idx && next <= lines.len() {
                lemma_vevent_body_advances(
                    lines,
                    next,
                    EventAcc { components: a.components.push(c), ..a },
                );
            }
        } else {
            match parse_logical_line_spec(line) {
                Some(ll) => match event_step(a, ll, line_no) {
                    Ok(a2) => lemma_vevent_body_advances(lines, idx + 1, a2),
                    Err(e) => {},
                },
                None => lemma_vevent_body_advances(lines, idx + 1, a),
            }
        }
    }
}

/// Executable counterpart of `EventAcc`.
struct EventBuilder {
    uid: String,
    dtstamp: Option<DateTime>,
    dtstart: Option<Date>,
    dtend: Option<Date>,
    summary: String,
    transp: Option<Transp>,
    busystatus: Option<MsBusyStatus>,
    class: Option<EventClass>,
    categories: Vec<String>,
    unknown: Vec<RawProperty>,
    ms_unrecognized: Vec<RawProperty>,
    google_unrecognized: Vec<RawProperty>,
    icloud_unrecognized: Vec<RawProperty>,
    x_index: u32,
    components: Vec<RawComponent>,
}

impl View for EventBuilder {
    type V = EventAcc;

    closed spec fn view(&self) -> EventAcc {
        EventAcc {
            uid: self.uid@,
            dtstamp: self.dtstamp,
            dtstart: self.dtstart,
            dtend: self.dtend,
            summary: self.summary@,
            transp: self.transp,
            busystatus: self.busystatus,
            class: self.class,
            categories: self.categories.deep_view(),
            unknown: props_view(self.unknown@),
            ms_unrecognized: props_view(self.ms_unrecognized@),
            google_unrecognized: props_view(self.google_unrecognized@),
            icloud_unrecognized: props_view(self.icloud_unrecognized@),
            x_index: self.x_index,
            components: components_view(self.components@),
        }
    }
}

fn name_is(n: &Vec<char>, lit: &str) -> (r: bool)
    ensures
        r == (n@ == lit@),
{
    let l = chars_of(lit);
    chars_eq(n, &l)
}

fn has_value_date_param(params: &Vec<(String, String)>) -> (r: bool)
    ensures
        r == has_value_date_spec(params.deep_view()),
{
    let mut i: usize = 0;
    while i < params.len()
        invariant
            i <= params.len(),
            forall|k: int| 0 <= k < i ==> params.deep_view()[k] != ("VALUE"@, "DATE"@),
        decreases params.len() - i,
    {
        let k = chars_of(params[i].0.as_str());
        let v = chars_of(params[i].1.as_str());
        assert(params.deep_view()[i as int] == (params[i as int].0@, params[i as int].1@));
        if name_is(&k, "VALUE") && name_is(&v, "DATE") {
            return true;
        }
        i = i + 1;
    }
    false
}

/// The message `prefix` followed by `detail`.
fn message_with(prefix: &str, detail: &String) -> (r: String)
    ensures
        r@ == prefix@ + detail@,
{
    let mut out = chars_of(prefix);
    let d = chars_of(detail.as_str());
    push_chars(&mut out, &d);
    string_of(&out)
}

fn push_prop(v: &mut Vec<RawProperty>, p: RawProperty)
    ensures
        props_view(final(v)@) == props_view(old(v)@).push(p@),
{
    let ghost before = v@;
    v.push(p);
    assert(v@ =~= before.push(p));
    assert(props_view(v@) =~= props_view(before).push(p@));
}

fn trim_all(items: Vec<String>) -> (r: Vec<String>)
    ensures
        r.deep_view() == items.deep_view().map_values(|s: Seq<char>| trim_spec(s)),
{
    let mut out: Vec<String> = Vec::new();
    let mut i: usize = 0;
    while i < items.len()
        invariant
            i <= items.len(),
            out.deep_view() == items.deep_view().map_values(|s: Seq<char>| trim_spec(s)).take(
                i as int,
            ),
        decreases items.len() - i,
    {
        let c = chars_of(items[i].as_str());
        let t = trim_chars(&c);
        let ghost before = out.deep_view();
        out.push(string_of(&t));
        assert(out.deep_view() =~= before.push(trim_spec(items[i as int]@)));
        assert(out.deep_view() =~= items.deep_view().map_values(|s: Seq<char>| trim_spec(s)).take(
            i + 1,
        ));
        i = i + 1;
    }
    assert(items.deep_view().map_values(|s: Seq<char>| trim_spec(s)).take(i as int)
        =~= items.deep_view().map_values(|s: Seq<char>| trim_spec(s)));
    out
}

impl EventBuilder {
    fn new() -> (r: EventBuilder)
        ensures
            r@ == empty_event_acc(),
    {
        let r = EventBuilder {
            uid: String::new(),
            dtstamp: None,
            dtstart: None,
            dtend: None,
            summary: String::new(),
            transp: None,
            busystatus: None,
            class: None,
            categories: Vec::new(),
            unknown: Vec::new(),
            ms_unrecognized: Vec::new(),
            google_unrecognized: Vec::new(),
            icloud_unrecognized: Vec::new(),
            x_index: 0,
            components: Vec::new(),
        };
        assert(r.categories.deep_view() =~= seq![]);
        assert(props_view(r.unknown@) =~= seq![]);
        assert(props_view(r.ms_unrecognized@) =~= seq![]);
        assert(props_view(r.google_unrecognized@) =~= seq![]);
        assert(props_view(r.icloud_unrecognized@) =~= seq![]);
        assert(components_view(r.components@) =~= seq![]);
        r
    }

    /// Apply one tokenized property line.
    fn step(&mut self, ll: LogicalLine, line_no: u32) -> (r: Result<(), Error>)
        ensures
            match event_step(old(self)@, ll@, line_no) {
                Ok(a) => r is Ok && final(self)@ == a,
                Err(e) => r matches Err(err) && err@ == e,
            },
    {
        let name = chars_of(ll.name.as_str());
        let value = chars_of(ll.value.as_str());
        if name_is(&name, "UID") {
            self.uid = ll.value;
            Ok(())
        } else if name_is(&name, "DTSTAMP") {
            match parse_compact_stamp(ll.value.as_str()) {
                Ok(t) => {
                    self.dtstamp = Some(t);
                    Ok(())
                },
                Err(m) => Err(Error::parse_at(line_no, "DTSTAMP", message_with("Invalid DTSTAMP: ", &m).as_str())),
            }
        } else if name_is(&name, "DTSTART") {
            if has_value_date_param(&ll.params) {
                match parse_compact_date(ll.value.as_str()) {
                    Ok(d) => {
                        self.dtstart = Some(d);
                        Ok(())
                    },
                    Err(m) => Err(Error::parse_at(line_no, "DTSTART", message_with("Invalid DTSTART: ", &m).as_str())),
                }
            } else {
                Ok(())
            }
        } else if name_is(&name, "DTEND") {
            if has_value_date_param(&ll.params) {
                match parse_compact_date(ll.value.as_str()) {
                    Ok(d) => {
                        self.dtend = Some(d);
                        Ok(())
                    },
                    Err(m) => Err(Error::parse_at(line_no, "DTEND", message_with("Invalid DTEND: ", &m).as_str())),
                }
            } else {
                Ok(())
            }
        } else if name_is(&name, "SUMMARY") {
            let d = decode_chars(&value);
            self.summary = string_of(&d);
            Ok(())
        } else if name_is(&name, "TRANSP") {
            self.transp = Transp::from_ics(ll.value.as_str());
            Ok(())
        } else if name_is(&name, "X-MICROSOFT-CDO-BUSYSTATUS") {
            match MsBusyStatus::from_cdo(ll.value.as_str()) {
                Some(b) => {
                    self.busystatus = Some(b);
                },
                None => {},
            }
            Ok(())
        } else if name_is(&name, "CLASS") {
            self.class = EventClass::from_ics(ll.value.as_str());
            Ok(())
        } else if name_is(&name, "CATEGORIES") {
            let items = split_text_list_chars(&value);
            self.categories = trim_all(items);
            Ok(())
        } else if has_prefix(&name, &chars_of("X-")) {
            let xi = wrapping_inc(self.x_index);
            self.x_index = xi;
            let prop = ll.to_raw_property(xi);
            if microsoft::owns_property(prop.name.as_str()) {
                push_prop(&mut self.ms_unrecognized, prop);
            } else if google::owns_property(prop.name.as_str()) {
                push_prop(&mut self.google_unrecognized, prop);
            } else if icloud::owns_property(prop.name.as_str()) {
                push_prop(&mut self.icloud_unrecognized, prop);
            } else {
                push_prop(&mut self.unknown, prop);
            }
            Ok(())
        } else {
            Ok(())
        }
    }

    /// The finished event, once `END:VEVENT` is read at line `line_no`.
    fn finish(self, line_no: u32) -> (r: Result<VEvent, Error>)
        ensures
            match event_finish(self@, line_no) {
                Ok(e) => r matches Ok(ev) && ev@ == e,
                Err(e) => r matches Err(err) && err@ == e,
            },
    {
        let stamp = match self.dtstamp {
            Some(t) => t,
            None => return Err(Error::parse_at_line(line_no, "VEVENT missing DTSTAMP")),
        };
        let s = match self.dtstart {
            Some(d) => d,
            None => return Err(Error::parse_at_line(line_no, "VEVENT missing DTSTART")),
        };
        let e = match self.dtend {
            Some(d) => d,
            None => return Err(Error::parse_at_line(line_no, "VEVENT missing DTEND")),
        };
        let microsoft = if self.busystatus.is_some() || self.ms_unrecognized.len() > 0 {
            Some(
                microsoft::EventExtensions {
                    busystatus: self.busystatus,
                    unrecognized: self.ms_unrecognized,
                },
            )
        } else {
            None
        };
        let google = if self.google_unrecognized.len() > 0 {
            Some(google::EventExtensions { unrecognized: self.google_unrecognized })
        } else {
            None
        };
        let icloud = if self.icloud_unrecognized.len() > 0 {
            Some(icloud::EventExtensions { unrecognized: self.icloud_unrecognized })
        } else {
            None
        };
        Ok(
            VEvent {
                uid: self.uid,
                dtstamp: stamp,
                dtstart: s,
                dtend: e,
                summary: self.summary,
                transp: self.transp,
                class: self.class,
                categories: self.categories,
                microsoft,
                google,
                icloud,
                unknown: self.unknown,
                unrecognized_components: self.components,
            },
        )
    }
}

/// Read a `VEVENT` body starting at `start` (just after `BEGIN:VEVENT`);
/// returns the event and the index just after `END:VEVENT`.
pub fn parse_vevent_block(lines: &Vec<Vec<char>>, start: usize) -> (r: Result<(VEvent, usize), Error>)
    requires
        start <= lines.len(),
    ensures
        match vevent_body(lines.deep_view(), start as int, empty_event_acc()) {
            Ok((e, next)) => r matches Ok((ev, n)) && ev@ == e && n as int == next,
            Err(e) => r matches Err(err) && err@ == e,
        },
        r matches Ok((_, n)) ==> n <= lines.len(),
{
    let ghost ls = lines.deep_view();
    let mut b = EventBuilder::new();
    let mut idx = start;
    while idx < lines.len()
        invariant
            start <= idx <= lines.len(),
            ls == lines.deep_view(),
            vevent_body(ls, start as int, empty_event_acc()) == vevent_body(ls, idx as int, b@),
        decreases lines.len() - idx,
    {
        let line = &lines[idx];
        assert(ls[idx as int] == line@) by {
            assert(line.deep_view() =~= line@);
        }
        let line_no = (idx + 1) as u32;
        if name_is(line, "END:VEVENT") {
            return match b.finish(line_no) {
                Ok(e) => Ok((e, idx + 1)),
                Err(err) => Err(err),
            };
        }
        if let Some(bn) = begin_name(line) {
            let sub_name = string_of(&bn);
            let (comp, next) = parse_raw_component_block(sub_name, lines, idx + 1);
            proof {
                lemma_raw_block_advances(ls, idx + 1, unicode_uppercase(sub_name@), seq![], seq![], 0);
                lemma_components_view_push(b.components@, comp);
            }
            b.components.push(comp);
            idx = next;
            continue;
        }
        match parse_logical_line_chars(line) {
            Some(ll) => {
                match b.step(ll, line_no) {
                    Ok(()) => {},
                    Err(e) => return Err(e),
                }
            },
            None => {},
        }
        idx = idx + 1;
    }
    Err(Error::parse("VEVENT missing END:VEVENT"))
}

// ---------------------------------------------------------------------
// Calendars
// ---------------------------------------------------------------------

/// Calendar fields collected so far.
pub struct CalAcc {
    pub version: Seq<char>,
    pub prodid: Seq<char>,
    pub calscale: Option<Seq<char>>,
    pub method: Option<Seq<char>>,
    pub events: Seq<VEventView>,
    pub components: Seq<RawComponentView>,
}

pub open spec fn empty_cal_acc() -> CalAcc {
    CalAcc {
        version: seq![],
        prodid: seq![],
        calscale: None,
        method: None,
        events: seq![],
        components: seq![],
    }
}

pub open spec fn cal_finish(a: CalAcc) -> VCalendarView {
    VCalendarView {
        version: a.version,
        prodid: a.prodid,
        calscale: a.calscale,
        method: a.method,
        events: a.events,
        unrecognized_components: a.components,
    }
}

/// Effect of a calendar-level property line.
pub open spec fn cal_property(a: CalAcc, line: Seq<char>) -> CalAcc {
    if starts_with(line, "VERSION:"@) {
        CalAcc { version: line.skip(8), ..a }
    } else if starts_with(line, "PRODID:"@) {
        CalAcc { prodid: line.skip(7), ..a }
    } else if starts_with(line, "CALSCALE:"@) {
        CalAcc { calscale: Some(line.skip(9)), ..a }
    } else if starts_with(line, "METHOD:"@) {
        CalAcc { method: Some(line.skip(7)), ..a }
    } else {
        a
    }
}

/// Reading the calendar body from `idx` with fields `a` collected; ends at
/// `END:VCALENDAR` or end of input.
pub open spec fn cal_body(lines: Seq<Seq<char>>, idx: int, a: CalAcc) -> Result<
    VCalendarView,
    ErrorView,
>
    decreases lines.len() - idx,
{
    if idx < 0 || idx >= lines.len() {
        Ok(cal_finish(a))
    } else {
        let line = lines[idx];
        if line == "END:VCALENDAR"@ {
            Ok(cal_finish(a))
        } else if starts_with(line, "BEGIN:"@) {
            let name = line.skip(6);
            if name == "VEVENT"@ {
                match vevent_body(lines, idx + 1, empty_event_acc()) {
                    Ok((e, next)) => if next > idx && next <= lines.len() {
                        cal_body(lines, next, CalAcc { events: a.events.push(e), ..a })
                    } else {
                        Ok(cal_finish(a))
                    },
                    Err(err) => Err(err),
                }
            } else {
                let (c, next) = raw_block(
                    lines,
                    idx + 1,
                    unicode_uppercase(name),
                    seq![],
                    seq![],
                    0,
                );
                if next > idx && next <= lines.len() {
                    cal_body(lines, next, CalAcc { components: a.components.push(c), ..a })
                } else {
                    Ok(cal_finish(a))
                }
            }
        } else {
            cal_body(lines, idx + 1, cal_property(a, line))
        }
    }
}

/// The trimmed logical lines of a document.
pub open spec fn document_lines(content: Seq<char>) -> Seq<Seq<char>> {
    unfold_spec(content).map_values(|l: Seq<char>| trim_spec(l))
}

/// `i` is the first line equal to `BEGIN:VCALENDAR`.
pub open spec fn is_calendar_start(lines: Seq<Seq<char>>, i: int) -> bool {
    &&& 0 <= i < lines.len()
    &&& lines[i] == "BEGIN:VCALENDAR"@
    &&& forall|j: int| 0 <= j < i ==> lines[j] != "BEGIN:VCALENDAR"@
}

/// The calendar a document denotes, or the parse error.
pub open spec fn parse_calendar_spec(content: Seq<char>) -> Result<VCalendarView, ErrorView> {
    let lines = document_lines(content);
    if exists|i: int| is_calendar_start(lines, i) {
        let i = choose|i: int| is_calendar_start(lines, i);
        cal_body(lines, i + 1, empty_cal_acc())
    } else {
        Err(ErrorView { message: "missing BEGIN:VCALENDAR"@, line: None, property: None })
    }
}

/// `parse_calendar` ignores a leading byte order mark.
pub proof fn lemma_parse_calendar_ignores_bom(s: Seq<char>)
    requires
        !(s.len() > 0 && s[0] == '\u{feff}'),
    ensures
        parse_calendar_spec(seq!['\u{feff}'] + s) == parse_calendar_spec(s),
{
    crate::unfold::lemma_unfold_ignores_bom(s);
    assert(document_lines(seq!['\u{feff}'] + s) == document_lines(s));
}

/// `parse_calendar` reads CRLF line ends as LF: replacing every CRLF by
/// LF leaves the result unchanged, unless CR CR LF occurs.
pub proof fn lemma_parse_calendar_crlf_as_lf(s: Seq<char>)
    requires
        !crate::unfold::has_cr_cr_lf(s),
    ensures
        parse_calendar_spec(crate::unfold::crlf_to_lf(s)) == parse_calendar_spec(s),
{
    crate::unfold::lemma_unfold_crlf_as_lf(s);
    assert(document_lines(crate::unfold::crlf_to_lf(s)) == document_lines(s));
}

pub(crate) fn trimmed_lines(content: &str) -> (r: Vec<Vec<char>>)
    ensures
        r.deep_view() == document_lines(content@),
{
    let v = chars_of(content);
    let logical = unfold_chars(&v);
    let ghost lv = logical.deep_view();
    let mut out: Vec<Vec<char>> = Vec::new();
    let mut i: usize = 0;
    while i < logical.len()
        invariant
            i <= logical.len(),
            lv == logical.deep_view(),
            lv == unfold_spec(content@),
            out.deep_view() == lv.map_values(|l: Seq<char>| trim_spec(l)).take(i as int),
        decreases logical.len() - i,
    {
        let t = trim_chars(&logical[i]);
        let ghost before = out.deep_view();
        assert(t.deep_view() =~= t@);
        out.push(t);
        assert(logical[i as int].deep_view() =~= logical[i as int]@);
        assert(out.deep_view() =~= before.push(trim_spec(lv[i as int])));
        assert(out.deep_view() =~= lv.map_values(|l: Seq<char>| trim_spec(l)).take(i + 1));
        i = i + 1;
    }
    assert(lv.map_values(|l: Seq<char>| trim_spec(l)).take(i as int) =~= lv.map_values(
        |l: Seq<char>| trim_spec(l),
    ));
    out
}

/// The text after `prefix` in `line`, if `line` starts with it.
fn after_prefix(line: &Vec<char>, prefix: &str) -> (r: Option<String>)
    ensures
        r is Some <==> starts_with(line@, prefix@),
        r matches Some(s) ==> s@ == line@.skip(prefix@.len() as int),
{
    let p = chars_of(prefix);
    if has_prefix(line, &p) {
        let s = string_of_range(line, p.len(), line.len());
        assert(line@.subrange(p.len() as int, line.len() as int) =~= line@.skip(p@.len() as int));
        Some(s)
    } else {
        None
    }
}

/// Parse a full ICS document into a typed `VCalendar`.
pub fn parse_calendar(content: &str) -> (r: Result<VCalendar, Error>)
    ensures
        match parse_calendar_spec(content@) {
            Ok(c) => r matches Ok(cal) && cal@ == c,
            Err(e) => r matches Err(err) && err@ == e,
        },
{
    let lines = trimmed_lines(content);
    let ghost ls = lines.deep_view();
    let mut idx: usize = 0;
    while idx < lines.len() && !name_is(&lines[idx], "BEGIN:VCALENDAR")
        invariant
            idx <= lines.len(),
            ls == lines.deep_view(),
            forall|j: int| 0 <= j < idx ==> ls[j] != "BEGIN:VCALENDAR"@,
        decreases lines.len() - idx,
    {
        assert(lines[idx as int].deep_view() =~= lines[idx as int]@);
        idx = idx + 1;
    }
    if idx == lines.len() {
        assert(!exists|i: int| is_calendar_start(ls, i));
        return Err(Error::parse("missing BEGIN:VCALENDAR"));
    }
    assert(lines[idx as int].deep_view() =~= lines[idx as int]@);
    assert(is_calendar_start(ls, idx as int));
    assert((choose|i: int| is_calendar_start(ls, i)) == idx as int) by {
        let k = choose|i: int| is_calendar_start(ls, i);
        if k < idx {
            assert(ls[k] != "BEGIN:VCALENDAR"@);
        } else if k > idx {
            assert(ls[idx as int] != "BEGIN:VCALENDAR"@);
        }
    }
    idx = idx + 1;
    let mut version = String::new();
    let mut prodid = String::new();
    let mut calscale: Option<String> = None;
    let mut method: Option<String> = None;
    let mut events: Vec<VEvent> = Vec::new();
    let mut comps: Vec<RawComponent> = Vec::new();
    assert(events_view(events@) =~= seq![]);
    assert(components_view(comps@) =~= seq![]);
    while idx < lines.len()
        invariant
            1 <= idx <= lines.len(),
            ls == lines.deep_view(),
            parse_calendar_spec(content@) == cal_body(
                ls,
                idx as int,
                CalAcc {
                    version: version@,
                    prodid: prodid@,
                    calscale: crate::vcalendar::opt_view(calscale),
                    method: crate::vcalendar::opt_view(method),
                    events: events_view(events@),
                    components: components_view(comps@),
                },
            ),
        decreases lines.len() - idx,
    {
        let line = &lines[idx];
        assert(ls[idx as int] == line@) by {
            assert(line.deep_view() =~= line@);
        }
        if name_is(line, "END:VCALENDAR") {
            return Ok(
                VCalendar {
                    version,
                    prodid,
                    calscale,
                    method,
                    events,
                    unrecognized_components: comps,
                },
            );
        }
        if let Some(bn) = begin_name(line) {
            if name_is(&bn, "VEVENT") {
                let (event, next) = match parse_vevent_block(&lines, idx + 1) {
                    Ok(p) => p,
                    Err(e) => return Err(e),
                };
                proof {
                    lemma_vevent_body_advances(ls, idx + 1, empty_event_acc());
                }
                let ghost before = events@;
                events.push(event);
                assert(events@ =~= before.push(event));
                assert(events_view(events@) =~= events_view(before).push(event@));
                idx = next;
                continue;
            }
            let sub_name = string_of(&bn);
            let (comp, next) = parse_raw_component_block(sub_name, &lines, idx + 1);
            proof {
                lemma_raw_block_advances(ls, idx + 1, unicode_uppercase(sub_name@), seq![], seq![], 0);
                lemma_components_view_push(comps@, comp);
            }
            comps.push(comp);
            idx = next;
            continue;
        }
        if let Some(v) = after_prefix(line, "VERSION:") {
            proof {
                reveal_strlit("VERSION:");
            }
            version = v;
        } else if let Some(v) = after_prefix(line, "PRODID:") {
            proof {
                reveal_strlit("PRODID:");
            }
            prodid = v;
        } else if let Some(v) = after_prefix(line, "CALSCALE:") {
            proof {
                reveal_strlit("CALSCALE:");
            }
            calscale = Some(v);
        } else if let Some(v) = after_prefix(line, "METHOD:") {
            proof {
                reveal_strlit("METHOD:");
            }
            method = Some(v);
        }
        idx = idx + 1;
    }
    Ok(VCalendar { version, prodid, calscale, method, events, unrecognized_components: comps })
}

/// The events of a parsed document.
pub fn parse_events(content: &str) -> (r: Result<Vec<VEvent>, Error>)
    ensures
        match parse_calendar_spec(content@) {
            Ok(c) => r matches Ok(es) && events_view(es@) == c.events,
            Err(e) => r matches Err(err) && err@ == e,
        },
{
    match parse_calendar(content) {
        Ok(c) => Ok(c.events),
        Err(e) => Err(e),
    }
}

} // verus!
