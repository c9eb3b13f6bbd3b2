//! Formatting of the typed model back to ICS text.
//!
//! Every line is terminated by CRLF. A `VEVENT` is emitted as `UID`,
//! `DTSTAMP`, `DTSTART;VALUE=DATE`, `DTEND;VALUE=DATE`, `SUMMARY` (TEXT
//! escaped), then `TRANSP` (the typed value, or the one the Microsoft busy
//! status implies), `X-MICROSOFT-CDO-BUSYSTATUS`, `CLASS`, `CATEGORIES`
//! (escaped, comma-joined), then every vendor and unknown `X-*` property
//! in `source_index` order, then nested components verbatim.

use vstd::prelude::*;
use crate::date::{compact_date_chars, compact_date_text, compact_stamp_chars, compact_stamp_text};
use crate::error::push_chars;
use crate::escape::{encode_chars, encode_spec, join_spec, join_text_list};
use crate::event::{transp_value_spec, class_value_spec, VEvent, VEventView};
use crate::profile::microsoft;
use crate::raw::{
    component_view, components_view, lemma_components_view_index, lemma_components_view_len,
    props_view, RawComponent, RawComponentView, RawProperty, RawPropertyView,
};
use crate::text::{chars_of, string_of};
use crate::vcalendar::{VCalendar, VCalendarView};

verus! {

/// `s` followed by CRLF.
pub open spec fn line_text(s: Seq<char>) -> Seq<char> {
    s + seq!['\r', '\n']
}

/// `;KEY=value` for every parameter.
pub open spec fn params_text(ps: Seq<(Seq<char>, Seq<char>)>) -> Seq<char>
    decreases ps.len(),
{
    if ps.len() == 0 {
        seq![]
    } else {
        seq![';'] + ps[0].0 + seq!['='] + ps[0].1 + params_text(ps.skip(1))
    }
}

/// `NAME[;KEY=value...]:VALUE`.
pub open spec fn raw_property_text(p: RawPropertyView) -> Seq<char> {
    p.name + params_text(p.params) + seq![':'] + p.value
}

/// The lines of a sequence of properties.
pub open spec fn props_text(ps: Seq<RawPropertyView>) -> Seq<char>
    decreases ps.len(),
{
    if ps.len() == 0 {
        seq![]
    } else {
        line_text(raw_property_text(ps[0])) + props_text(ps.skip(1))
    }
}

/// The lines of a component: `BEGIN:NAME`, its properties, its nested
/// components, `END:NAME`.
pub open spec fn component_text(c: RawComponentView) -> Seq<char>
    decreases c, 1int,
{
    line_text("BEGIN:"@ + c.name) + props_text(c.properties) + components_text(c.sub_components)
        + line_text("END:"@ + c.name)
}

/// The lines of a sequence of components.
pub open spec fn components_text(cs: Seq<RawComponentView>) -> Seq<char>
    decreases cs, 0int,
{
    if cs.len() == 0 {
        seq![]
    } else {
        component_text(cs[0]) + components_text(cs.skip(1))
    }
}

/// `ps` with `p` placed after every element whose `source_index` is at
/// most `p`'s.
pub open spec fn insert_by_index(ps: Seq<RawPropertyView>, p: RawPropertyView) -> Seq<
    RawPropertyView,
>
    decreases ps.len(),
{
    if ps.len() == 0 {
        seq![p]
    } else if ps.last().source_index <= p.source_index {
        ps.push(p)
    } else {
        insert_by_index(ps.drop_last(), p).push(ps.last())
    }
}

/// Stable sort by `source_index`.
pub open spec fn sort_by_index(ps: Seq<RawPropertyView>) -> Seq<RawPropertyView>
    decreases ps.len(),
{
    if ps.len() == 0 {
        seq![]
    } else {
        insert_by_index(sort_by_index(ps.drop_last()), ps.last())
    }
}

/// Every `X-*` property of an event: Microsoft, Google and iCloud
/// unrecognized ones, then unknown ones.
pub open spec fn x_properties(e: VEventView) -> Seq<RawPropertyView> {
    let ms = match e.microsoft {
        Some(m) => m.unrecognized,
        None => seq![],
    };
    let g = match e.google {
        Some(b) => b.unrecognized,
        None => seq![],
    };
    let ic = match e.icloud {
        Some(b) => b.unrecognized,
        None => seq![],
    };
    ms + g + ic + e.unknown
}

/// The `TRANSP` value emitted for an event: the typed one, else the one
/// its Microsoft busy status implies.
pub open spec fn emitted_transp(e: VEventView) -> Option<Seq<char>> {
    match e.transp {
        Some(t) => Some(transp_value_spec(t)),
        None => match e.microsoft {
            Some(m) => match m.busystatus {
                Some(b) => Some(microsoft::transp_spec(b)),
                None => None,
            },
            None => None,
        },
    }
}

/// An event without a `TRANSP` of its own but with a busy status is
/// written `TRANSP:TRANSPARENT` when the status is `FREE` and
/// `TRANSP:OPAQUE` for every other status.
pub proof fn lemma_emitted_transp_follows_busy(e: VEventView)
    requires
        e.transp is None,
        e.microsoft matches Some(m) && m.busystatus is Some,
    ensures
        e.microsoft->0.busystatus->0 == microsoft::MsBusyStatus::Free ==> emitted_transp(e) == Some(
            "TRANSPARENT"@,
        ),
        e.microsoft->0.busystatus->0 != microsoft::MsBusyStatus::Free ==> emitted_transp(e) == Some("OPAQUE"@),
{
    crate::profile::microsoft::lemma_transp_blocks_unless_free(e.microsoft->0.busystatus->0);
}

/// Text of a sequence of events.
pub open spec fn events_text(es: Seq<VEventView>) -> Seq<char>
    decreases es.len(),
{
    if es.len() == 0 {
        seq![]
    } else {
        vevent_text(es[0]) + events_text(es.skip(1))
    }
}

/// Text of a calendar.
pub open spec fn calendar_text(c: VCalendarView) -> Seq<char> {
    line_text("BEGIN:VCALENDAR"@) + line_text("VERSION:"@ + c.version) + line_text(
        "PRODID:"@ + c.prodid,
    ) + (match c.calscale {
        Some(v) => line_text("CALSCALE:"@ + v),
        None => seq![],
    }) + (match c.method {
        Some(v) => line_text("METHOD:"@ + v),
        None => seq![],
    }) + events_text(c.events) + components_text(c.unrecognized_components) + line_text(
        "END:VCALENDAR"@,
    )
}

fn push_str(out: &mut Vec<char>, s: &str)
    ensures
        final(out)@ == old(out)@ + s@,
{
    let v = chars_of(s);
    push_chars(out, &v);
}

fn push_crlf(out: &mut Vec<char>)
    ensures
        final(out)@ == old(out)@ + seq!['\r', '\n'],
{
    out.push('\r');
    out.push('\n');
    assert(out@ =~= old(out)@ + seq!['\r', '\n']);
}

/// Append `text` and CRLF.
fn push_line_str(out: &mut Vec<char>, text: &str)
    ensures
        final(out)@ == old(out)@ + line_text(text@),
{
    push_str(out, text);
    push_crlf(out);
    assert(out@ =~= old(out)@ + line_text(text@));
}

/// Append `head`, `tail` and CRLF.
fn push_line2(out: &mut Vec<char>, head: &str, tail: &Vec<char>)
    ensures
        final(out)@ == old(out)@ + line_text(head@ + tail@),
{
    push_str(out, head);
    push_chars(out, tail);
    push_crlf(out);
    assert(out@ =~= old(out)@ + line_text(head@ + tail@));
}

fn push_raw_property(out: &mut Vec<char>, p: &RawProperty)
    ensures
        final(out)@ == old(out)@ + line_text(raw_property_text(p@)),
{
    let ghost start = out@;
    push_str(out, p.name.as_str());
    let ghost ps = p.params.deep_view();
    let mut i: usize = 0;
    assert(ps.skip(0) =~= ps);
    while i < p.params.len()
        invariant
            i <= p.params.len(),
            ps == p.params.deep_view(),
            out@ + params_text(ps.skip(i as int)) == start + p.name@ + params_text(ps),
        decreases p.params.len() - i,
    {
        let ghost before = out@;
        let ghost rest = ps.skip(i as int);
        assert(rest[0] == (p.params[i as int].0@, p.params[i as int].1@));
        assert(rest.skip(1) =~= ps.skip(i + 1));
        out.push(';');
        push_str(out, p.params[i].0.as_str());
        out.push('=');
        push_str(out, p.params[i].1.as_str());
        assert(out@ =~= before + (seq![';'] + rest[0].0 + seq!['='] + rest[0].1));
        assert(out@ + params_text(ps.skip(i + 1)) =~= before + params_text(rest));
        i = i + 1;
    }
    assert(ps.skip(i as int) =~= seq![]);
    assert(out@ =~= start + p.name@ + params_text(ps));
    out.push(':');
    push_str(out, p.value.as_str());
    push_crlf(out);
    assert(out@ =~= start + line_text(raw_property_text(p@)));
}

fn push_props(out: &mut Vec<char>, ps: &Vec<RawProperty>)
    ensures
        final(out)@ == old(out)@ + props_text(props_view(ps@)),
{
    let ghost pv = props_view(ps@);
    let ghost start = out@;
    let mut i: usize = 0;
    assert(pv.skip(0) =~= pv);
    while i < ps.len()
        invariant
            i <= ps.len(),
            pv == props_view(ps@),
            out@ + props_text(pv.skip(i as int)) == start + props_text(pv),
        decreases ps.len() - i,
    {
        let ghost before = out@;
        let ghost rest = pv.skip(i as int);
        assert(rest[0] == ps[i as int]@);
        assert(rest.skip(1) =~= pv.skip(i + 1));
        push_raw_property(out, &ps[i]);
        assert(out@ + props_text(pv.skip(i + 1)) =~= before + props_text(rest));
        i = i + 1;
    }
    assert(pv.skip(i as int) =~= seq![]);
    assert(out@ =~= start + props_text(pv));
}

proof fn lemma_components_text_skip(cs: Seq<RawComponent>, i: int)
    requires
        0 <= i < cs.len(),
    ensures
        components_text(components_view(cs).skip(i)) == component_text(component_view(cs[i]))
            + components_text(components_view(cs).skip(i + 1)),
{
    lemma_components_view_len(cs);
    lemma_components_view_index(cs, i);
    let v = components_view(cs).skip(i);
    assert(v[0] == component_view(cs[i]));
    assert(v.skip(1) =~= components_view(cs).skip(i + 1));
}

fn push_component(out: &mut Vec<char>, c: &RawComponent)
    ensures
        final(out)@ == old(out)@ + component_text(c@),
    decreases c,
{
    let ghost start = out@;
    push_line2(out, "BEGIN:", &chars_of(c.name.as_str()));
    push_props(out, &c.properties);
    let ghost mid = out@;
    let ghost cv = components_view(c.sub_components@);
    let mut i: usize = 0;
    proof {
        lemma_components_view_len(c.sub_components@);
    }
    assert(cv.skip(0) =~= cv);
    while i < c.sub_components.len()
        invariant
            i <= c.sub_components.len(),
            cv == components_view(c.sub_components@),
            cv.len() == c.sub_components.len(),
            out@ + components_text(cv.skip(i as int)) == mid + components_text(cv),
        decreases c.sub_components.len() - i,
    {
        assert(decreases_to!(*c => c.sub_components));
        let ghost before = out@;
        proof {
            lemma_components_text_skip(c.sub_components@, i as int);
        }
        push_component(out, &c.sub_components[i]);
        assert(out@ + components_text(cv.skip(i + 1)) =~= before + components_text(cv.skip(i as int)));
        i = i + 1;
    }
    assert(cv.skip(i as int) =~= seq![]);
    push_line2(out, "END:", &chars_of(c.name.as_str()));
    assert(out@ =~= start + component_text(c@));
}

fn push_components(out: &mut Vec<char>, cs: &Vec<RawComponent>)
    ensures
        final(out)@ == old(out)@ + components_text(components_view(cs@)),
{
    let ghost cv = components_view(cs@);
    let ghost start = out@;
    let mut i: usize = 0;
    proof {
        lemma_components_view_len(cs@);
    }
    assert(cv.skip(0) =~= cv);
    while i < cs.len()
        invariant
            i <= cs.len(),
            cv == components_view(cs@),
            cv.len() == cs.len(),
            out@ + components_text(cv.skip(i as int)) == start + components_text(cv),
        decreases cs.len() - i,
    {
        let ghost before = out@;
        proof {
            lemma_components_text_skip(cs@, i as int);
        }
        push_component(out, &cs[i]);
        assert(out@ + components_text(cv.skip(i + 1)) =~= before + components_text(cv.skip(i as int)));
        i = i + 1;
    }
    assert(cv.skip(i as int) =~= seq![]);
    assert(out@ =~= start + components_text(cv));
}

/// Insert `p` into `v` after every element whose `source_index` is at most
/// `p`'s.
fn insert_sorted(v: &mut Vec<RawProperty>, p: RawProperty)
    ensures
        props_view(final(v)@) == insert_by_index(props_view(old(v)@), p@),
{
    let ghost o = props_view(v@);
    let mut pos = v.len();
    assert(o.take(pos as int) =~= o);
    assert(o.skip(pos as int) =~= seq![]);
    assert(insert_by_index(o, p@) =~= insert_by_index(o.take(pos as int), p@) + o.skip(pos as int));
    while pos > 0 && v[pos - 1].source_index > p.source_index
        invariant
            pos <= v.len(),
            o == props_view(v@),
            insert_by_index(o, p@) == insert_by_index(o.take(pos as int), p@) + o.skip(pos as int),
        decreases pos,
    {
        let ghost t = o.take(pos as int);
        assert(t.last() == o[pos - 1]);
        assert(t.drop_last() =~= o.take(pos - 1));
        assert(insert_by_index(t, p@) == insert_by_index(o.take(pos - 1), p@).push(o[pos - 1]));
        assert(insert_by_index(o.take(pos - 1), p@).push(o[pos - 1]) + o.skip(pos as int)
            =~= insert_by_index(o.take(pos - 1), p@) + o.skip(pos - 1));
        pos = pos - 1;
    }
    let ghost t = o.take(pos as int);
    proof {
        if pos == 0 {
            assert(insert_by_index(t, p@) =~= seq![p@]);
        } else {
            assert(t.last() == o[pos - 1]);
            assert(insert_by_index(t, p@) == t.push(p@));
        }
    }
    let ghost pv = p@;
    v.insert(pos, p);
    assert(props_view(v@) =~= o.insert(pos as int, pv));
    assert(o.insert(pos as int, pv) =~= t.push(pv) + o.skip(pos as int));
}

/// A copy of `ps` sorted stably by `source_index`.
fn sorted_by_index(ps: &Vec<RawProperty>) -> (r: Vec<RawProperty>)
    ensures
        props_view(r@) == sort_by_index(props_view(ps@)),
{
    let mut out: Vec<RawProperty> = Vec::new();
    let mut i: usize = 0;
    assert(props_view(out@) =~= sort_by_index(props_view(ps@).take(0)));
    while i < ps.len()
        invariant
            i <= ps.len(),
            props_view(out@) == sort_by_index(props_view(ps@).take(i as int)),
        decreases ps.len() - i,
    {
        let ghost t = props_view(ps@).take(i + 1);
        assert(t.drop_last() =~= props_view(ps@).take(i as int));
        assert(t.last() == ps[i as int]@);
        insert_sorted(&mut out, ps[i].copy());
        i = i + 1;
    }
    assert(props_view(ps@).take(i as int) =~= props_view(ps@));
    out
}

fn append_copies(dst: &mut Vec<RawProperty>, src: &Vec<RawProperty>)
    ensures
        props_view(final(dst)@) == props_view(old(dst)@) + props_view(src@),
{
    let ghost start = props_view(dst@);
    let mut i: usize = 0;
    while i < src.len()
        invariant
            i <= src.len(),
            props_view(dst@) == start + props_view(src@).take(i as int),
        decreases src.len() - i,
    {
        let p = src[i].copy();
        let ghost before = dst@;
        dst.push(p);
        assert(dst@ =~= before.push(p));
        assert(props_view(dst@) =~= props_view(before).push(p@));
        assert(props_view(src@).take(i + 1) =~= props_view(src@).take(i as int).push(src[i as int]@));
        assert(props_view(dst@) =~= start + props_view(src@).take(i + 1));
        i = i + 1;
    }
    assert(props_view(src@).take(i as int) =~= props_view(src@));
}

fn collect_x_properties(e: &VEvent) -> (r: Vec<RawProperty>)
    ensures
        props_view(r@) == x_properties(e@),
{
    let mut all: Vec<RawProperty> = Vec::new();
    assert(props_view(all@) =~= seq![]);
    match &e.microsoft {
        Some(m) => append_copies(&mut all, &m.unrecognized),
        None => {},
    }
    match &e.google {
        Some(g) => append_copies(&mut all, &g.unrecognized),
        None => {},
    }
    match &e.icloud {
        Some(g) => append_copies(&mut all, &g.unrecognized),
        None => {},
    }
    append_copies(&mut all, &e.unknown);
    assert(props_view(all@) =~= x_properties(e@));
    all
}

/// The head lines of an event: `BEGIN:VEVENT` through `SUMMARY`.
pub open spec fn vevent_head_text(e: VEventView) -> Seq<char> {
    line_text("BEGIN:VEVENT"@) + line_text("UID:"@ + e.uid) + line_text(
        "DTSTAMP:"@ + compact_stamp_text(e.dtstamp),
    ) + line_text("DTSTART;VALUE=DATE:"@ + compact_date_text(e.dtstart)) + line_text(
        "DTEND;VALUE=DATE:"@ + compact_date_text(e.dtend),
    ) + line_text("SUMMARY:"@ + encode_spec(e.summary))
}

/// The typed optional lines of an event: `TRANSP`, busy status, `CLASS`,
/// `CATEGORIES`.
pub open spec fn vevent_typed_text(e: VEventView) -> Seq<char> {
    let ms_bs = match e.microsoft {
        Some(m) => m.busystatus,
        None => None,
    };
    (match emitted_transp(e) {
        Some(v) => line_text("TRANSP:"@ + v),
        None => seq![],
    }) + (match ms_bs {
        Some(b) => line_text("X-MICROSOFT-CDO-BUSYSTATUS:"@ + microsoft::cdo_value_spec(b)),
        None => seq![],
    }) + (match e.class {
        Some(c) => line_text("CLASS:"@ + class_value_spec(c)),
        None => seq![],
    }) + (if e.categories.len() > 0 {
        line_text("CATEGORIES:"@ + join_spec(e.categories))
    } else {
        seq![]
    })
}

fn push_vevent_head(out: &mut Vec<char>, event: &VEvent)
    ensures
        final(out)@ == old(out)@ + vevent_head_text(event@),
{
    let ghost start = out@;
    push_line_str(out, "BEGIN:VEVENT");
    push_line2(out, "UID:", &chars_of(event.uid.as_str()));
    push_line2(out, "DTSTAMP:", &compact_stamp_chars(&event.dtstamp));
    push_line2(out, "DTSTART;VALUE=DATE:", &compact_date_chars(&event.dtstart));
    push_line2(out, "DTEND;VALUE=DATE:", &compact_date_chars(&event.dtend));
    push_line2(out, "SUMMARY:", &encode_chars(&chars_of(event.summary.as_str())));
    assert(out@ =~= start + vevent_head_text(event@));
}

#[verifier::spinoff_prover]
#[verifier::rlimit(40)]
fn push_vevent_typed(out: &mut Vec<char>, event: &VEvent)
    ensures
        final(out)@ == old(out)@ + vevent_typed_text(event@),
{
    let ghost start = out@;
    let ms_busystatus: Option<microsoft::MsBusyStatus> = match &event.microsoft {
        Some(m) => m.busystatus,
        None => None,
    };
    let transp_value: Option<&'static str> = match event.transp {
        Some(t) => Some(t.ics_value()),
        None => match ms_busystatus {
            Some(b) => Some(b.transp()),
            None => None,
        },
    };
    let ghost s1 = out@;
    match transp_value {
        Some(v) => push_line2(out, "TRANSP:", &chars_of(v)),
        None => {},
    }
    let ghost s2 = out@;
    match ms_busystatus {
        Some(b) => push_line2(out, "X-MICROSOFT-CDO-BUSYSTATUS:", &chars_of(b.cdo_value())),
        None => {},
    }
    let ghost s3 = out@;
    match event.class {
        Some(c) => push_line2(out, "CLASS:", &chars_of(c.ics_value())),
        None => {},
    }
    let ghost s4 = out@;
    if event.categories.len() > 0 {
        let joined = join_text_list(event.categories.as_slice());
        assert(event.categories@.map_values(|x: String| x@) =~= event.categories.deep_view());
        push_line2(out, "CATEGORIES:", &chars_of(joined.as_str()));
    }
    assert(out@ =~= start + vevent_typed_text(event@));
}

/// Text of one `VEVENT`.
pub open spec fn vevent_text(e: VEventView) -> Seq<char> {
    vevent_head_text(e) + vevent_typed_text(e) + props_text(sort_by_index(x_properties(e)))
        + components_text(e.unrecognized_components) + line_text("END:VEVENT"@)
}

fn push_vevent(out: &mut Vec<char>, event: &VEvent)
    ensures
        final(out)@ == old(out)@ + vevent_text(event@),
{
    let ghost start = out@;
    push_vevent_head(out, event);
    push_vevent_typed(out, event);
    let xs = collect_x_properties(event);
    let sorted = sorted_by_index(&xs);
    push_props(out, &sorted);
    push_components(out, &event.unrecognized_components);
    push_line_str(out, "END:VEVENT");
    assert(out@ =~= start + vevent_text(event@));
}

/// Format one event as `BEGIN:VEVENT ... END:VEVENT` lines.
pub fn format_vevent(event: &VEvent) -> (r: String)
    ensures
        r@ == vevent_text(event@),
{
    let mut out: Vec<char> = Vec::new();
    push_vevent(&mut out, event);
    assert(out@ =~= vevent_text(event@));
    string_of(&out)
}

/// Format a calendar as ICS text.
pub fn format_calendar(cal: &VCalendar) -> (r: String)
    ensures
        r@ == calendar_text(cal@),
{
    let mut out: Vec<char> = Vec::new();
    push_line_str(&mut out, "BEGIN:VCALENDAR");
    push_line2(&mut out, "VERSION:", &chars_of(cal.version.as_str()));
    push_line2(&mut out, "PRODID:", &chars_of(cal.prodid.as_str()));
    match &cal.calscale {
        Some(v) => push_line2(&mut out, "CALSCALE:", &chars_of(v.as_str())),
        None => {},
    }
    match &cal.method {
        Some(v) => push_line2(&mut out, "METHOD:", &chars_of(v.as_str())),
        None => {},
    }
    let ghost mid = out@;
    let ghost ev = crate::event::events_view(cal.events@);
    let mut i: usize = 0;
    assert(ev.skip(0) =~= ev);
    while i < cal.events.len()
        invariant
            i <= cal.events.len(),
            ev == crate::event::events_view(cal.events@),
            out@ + events_text(ev.skip(i as int)) == mid + events_text(ev),
        decreases cal.events.len() - i,
    {
        let ghost before = out@;
        let ghost rest = ev.skip(i as int);
        assert(rest[0] == cal.events[i as int]@);
        assert(rest.skip(1) =~= ev.skip(i + 1));
        push_vevent(&mut out, &cal.events[i]);
        assert(out@ + events_text(ev.skip(i + 1)) =~= before + events_text(rest));
        i = i + 1;
    }
    assert(ev.skip(i as int) =~= seq![]);
    push_components(&mut out, &cal.unrecognized_components);
    push_line_str(&mut out, "END:VCALENDAR");
    assert(out@ =~= calendar_text(cal@));
    string_of(&out)
}

} // verus!
