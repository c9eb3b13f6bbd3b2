//! The typed event model: `VEvent` plus the `CLASS` and `TRANSP` value
//! spaces.

use vstd::prelude::*;
use crate::date::{Date, DateTime};
use crate::profile::{google, icloud, microsoft};
use crate::raw::{
    components_view, copy_components, copy_props, props_view, RawComponent, RawComponentView,
    RawProperty, RawPropertyView,
};
use crate::text::{copy_string, str_eq};

verus! {

/// RFC 5545 §3.8.1.3 `CLASS`.
#[derive(Debug, Clone, Copy, PartialEq, Eq, Structural)]
pub enum EventClass {
    Public,
    Private,
    Confidential,
}

/// Wire value of a class.
pub open spec fn class_value_spec(c: EventClass) -> Seq<char> {
    match c {
        EventClass::Public => "PUBLIC"@,
        EventClass::Private => "PRIVATE"@,
        EventClass::Confidential => "CONFIDENTIAL"@,
    }
}

/// Class a wire value denotes.
pub open spec fn class_from_spec(s: Seq<char>) -> Option<EventClass> {
    if s == "PUBLIC"@ {
        Some(EventClass::Public)
    } else if s == "PRIVATE"@ {
        Some(EventClass::Private)
    } else if s == "CONFIDENTIAL"@ {
        Some(EventClass::Confidential)
    } else {
        None
    }
}

impl EventClass {
    /// Wire value: `PUBLIC`, `PRIVATE` or `CONFIDENTIAL`.
    pub fn ics_value(self) -> (r: &'static str)
        ensures
            r@ == class_value_spec(self),
    {
        match self {
            EventClass::Public => "PUBLIC",
            EventClass::Private => "PRIVATE",
            EventClass::Confidential => "CONFIDENTIAL",
        }
    }

    /// The class a wire value denotes; `None` for any other text.
    pub fn from_ics(s: &str) -> (r: Option<EventClass>)
        ensures
            r == class_from_spec(s@),
    {
        if str_eq(s, "PUBLIC") {
            Some(EventClass::Public)
        } else if str_eq(s, "PRIVATE") {
            Some(EventClass::Private)
        } else if str_eq(s, "CONFIDENTIAL") {
            Some(EventClass::Confidential)
        } else {
            None
        }
    }
}

/// RFC 5545 §3.8.2.7 `TRANSP`.
#[derive(Debug, Clone, Copy, PartialEq, Eq, Structural)]
pub enum Transp {
    Transparent,
    Opaque,
}

/// Wire value of a transparency.
pub open spec fn transp_value_spec(t: Transp) -> Seq<char> {
    match t {
        Transp::Transparent => "TRANSPARENT"@,
        Transp::Opaque => "OPAQUE"@,
    }
}

/// Transparency a wire value denotes.
pub open spec fn transp_from_spec(s: Seq<char>) -> Option<Transp> {
    if s == "TRANSPARENT"@ {
        Some(Transp::Transparent)
    } else if s == "OPAQUE"@ {
        Some(Transp::Opaque)
    } else {
        None
    }
}

impl Transp {
    /// Wire value: `TRANSPARENT` or `OPAQUE`.
    pub fn ics_value(self) -> (r: &'static str)
        ensures
            r@ == transp_value_spec(self),
    {
        match self {
            Transp::Transparent => "TRANSPARENT",
            Transp::Opaque => "OPAQUE",
        }
    }

    /// The transparency a wire value denotes; `None` for any other text.
    pub fn from_ics(s: &str) -> (r: Option<Transp>)
        ensures
            r == transp_from_spec(s@),
    {
        if str_eq(s, "TRANSPARENT") {
            Some(Transp::Transparent)
        } else if str_eq(s, "OPAQUE") {
            Some(Transp::Opaque)
        } else {
            None
        }
    }
}

/// Reading back the wire value of a class or transparency gives it back.
pub proof fn lemma_class_transp_round_trip(c: EventClass, t: Transp)
    ensures
        class_from_spec(class_value_spec(c)) == Some(c),
        transp_from_spec(transp_value_spec(t)) == Some(t),
{
    reveal_strlit("PUBLIC");
    reveal_strlit("PRIVATE");
    reveal_strlit("CONFIDENTIAL");
    reveal_strlit("TRANSPARENT");
    reveal_strlit("OPAQUE");
    assert("PUBLIC"@.len() == 6 && "PRIVATE"@.len() == 7 && "CONFIDENTIAL"@.len() == 12);
    assert("TRANSPARENT"@.len() == 11 && "OPAQUE"@.len() == 6);
}

/// An all-day event.
#[derive(Debug, PartialEq)]
pub struct VEvent {
    pub uid: String,
    pub dtstamp: DateTime,
    pub dtstart: Date,
    /// Exclusive end date (RFC 5545 `DTEND` for `DATE` values).
    pub dtend: Date,
    pub summary: String,
    pub transp: Option<Transp>,
    pub class: Option<EventClass>,
    pub categories: Vec<String>,
    pub microsoft: Option<microsoft::EventExtensions>,
    pub google: Option<google::EventExtensions>,
    pub icloud: Option<icloud::EventExtensions>,
    /// `X-*` properties matching no vendor prefix.
    pub unknown: Vec<RawProperty>,
    /// Nested components the typed model does not understand (`VALARM`, ...).
    pub unrecognized_components: Vec<RawComponent>,
}

/// Mathematical model of a `VEvent`.
pub struct VEventView {
    pub uid: Seq<char>,
    pub dtstamp: DateTime,
    pub dtstart: Date,
    pub dtend: Date,
    pub summary: Seq<char>,
    pub transp: Option<Transp>,
    pub class: Option<EventClass>,
    pub categories: Seq<Seq<char>>,
    pub microsoft: Option<microsoft::EventExtensionsView>,
    pub google: Option<google::EventExtensionsView>,
    pub icloud: Option<icloud::EventExtensionsView>,
    pub unknown: Seq<RawPropertyView>,
    pub unrecognized_components: Seq<RawComponentView>,
}

impl View for VEvent {
    type V = VEventView;

    open spec fn view(&self) -> VEventView {
        VEventView {
            uid: self.uid@,
            dtstamp: self.dtstamp,
            dtstart: self.dtstart,
            dtend: self.dtend,
            summary: self.summary@,
            transp: self.transp,
            class: self.class,
            categories: self.categories.deep_view(),
            microsoft: match self.microsoft {
                Some(m) => Some(m@),
                None => None,
            },
            google: match self.google {
                Some(g) => Some(g@),
                None => None,
            },
            icloud: match self.icloud {
                Some(g) => Some(g@),
                None => None,
            },
            unknown: props_view(self.unknown@),
            unrecognized_components: components_view(self.unrecognized_components@),
        }
    }
}

/// Models of a sequence of events.
pub open spec fn events_view(es: Seq<VEvent>) -> Seq<VEventView> {
    es.map_values(|e: VEvent| e@)
}

/// A copy of a list of strings.
pub fn copy_strings(v: &Vec<String>) -> (r: Vec<String>)
    ensures
        r.deep_view() == v.deep_view(),
{
    let mut out: Vec<String> = Vec::new();
    let mut i: usize = 0;
    while i < v.len()
        invariant
            i <= v.len(),
            out.deep_view() == v.deep_view().take(i as int),
        decreases v.len() - i,
    {
        let ghost before = out.deep_view();
        out.push(copy_string(&v[i]));
        assert(out.deep_view() =~= before.push(v[i as int]@));
        assert(out.deep_view() =~= v.deep_view().take(i + 1));
        i = i + 1;
    }
    assert(v.deep_view().take(i as int) =~= v.deep_view());
    out
}

impl VEvent {
    /// A copy of the event.
    pub fn copy(&self) -> (r: VEvent)
        ensures
            r@ == self@,
    {
        VEvent {
            uid: copy_string(&self.uid),
            dtstamp: self.dtstamp,
            dtstart: self.dtstart,
            dtend: self.dtend,
            summary: copy_string(&self.summary),
            transp: self.transp,
            class: self.class,
            categories: copy_strings(&self.categories),
            microsoft: match &self.microsoft {
                Some(m) => Some(m.copy()),
                None => None,
            },
            google: match &self.google {
                Some(g) => Some(g.copy()),
                None => None,
            },
            icloud: match &self.icloud {
                Some(g) => Some(g.copy()),
                None => None,
            },
            unknown: copy_props(&self.unknown),
            unrecognized_components: copy_components(&self.unrecognized_components),
        }
    }
}

/// A copy of a list of events.
pub fn copy_events(es: &Vec<VEvent>) -> (r: Vec<VEvent>)
    ensures
        events_view(r@) == events_view(es@),
{
    let mut out: Vec<VEvent> = Vec::new();
    let mut i: usize = 0;
    while i < es.len()
        invariant
            i <= es.len(),
            events_view(out@) == events_view(es@).take(i as int),
        decreases es.len() - i,
    {
        let e = es[i].copy();
        let ghost before = out@;
        out.push(e);
        assert(out@ =~= before.push(e));
        assert(events_view(out@) =~= events_view(before).push(e@));
        assert(events_view(out@) =~= events_view(es@).take(i + 1));
        i = i + 1;
    }
    assert(events_view(es@).take(i as int) =~= events_view(es@));
    out
}

} // verus!
