//! `VCalendar` — the typed top-level container.

use vstd::prelude::*;
use crate::event::{copy_events, events_view, VEvent, VEventView};
use crate::raw::{components_view, copy_components, RawComponent, RawComponentView};
use crate::text::{chars_of, copy_string, string_of};

verus! {

/// A calendar: required `VERSION` / `PRODID`, optional `CALSCALE` /
/// `METHOD`, its events, and calendar-level components kept verbatim.
#[derive(Debug, PartialEq)]
pub struct VCalendar {
    pub version: String,
    pub prodid: String,
    pub calscale: Option<String>,
    pub method: Option<String>,
    pub events: Vec<VEvent>,
    pub unrecognized_components: Vec<RawComponent>,
}

/// Mathematical model of a `VCalendar`.
pub struct VCalendarView {
    pub version: Seq<char>,
    pub prodid: Seq<char>,
    pub calscale: Option<Seq<char>>,
    pub method: Option<Seq<char>>,
    pub events: Seq<VEventView>,
    pub unrecognized_components: Seq<RawComponentView>,
}

/// Model of an optional string.
pub open spec fn opt_view(o: Option<String>) -> Option<Seq<char>> {
    match o {
        Some(s) => Some(s@),
        None => None,
    }
}

impl View for VCalendar {
    type V = VCalendarView;

    open spec fn view(&self) -> VCalendarView {
        VCalendarView {
            version: self.version@,
            prodid: self.prodid@,
            calscale: opt_view(self.calscale),
            method: opt_view(self.method),
            events: events_view(self.events@),
            unrecognized_components: components_view(self.unrecognized_components@),
        }
    }
}

/// A copy of an optional string.
pub fn copy_opt_string(o: &Option<String>) -> (r: Option<String>)
    ensures
        opt_view(r) == opt_view(*o),
{
    match o {
        Some(s) => Some(copy_string(s)),
        None => None,
    }
}

impl VCalendar {
    /// An empty calendar with the given producer ID and `VERSION:2.0`.
    pub fn new(prodid: &str) -> (r: VCalendar)
        ensures
            r@ == (VCalendarView {
                version: "2.0"@,
                prodid: prodid@,
                calscale: None,
                method: None,
                events: seq![],
                unrecognized_components: seq![],
            }),
    {
        let r = VCalendar {
            version: string_of(&chars_of("2.0")),
            prodid: string_of(&chars_of(prodid)),
            calscale: None,
            method: None,
            events: Vec::new(),
            unrecognized_components: Vec::new(),
        };
        assert(events_view(r.events@) =~= seq![]);
        assert(components_view(r.unrecognized_components@) =~= seq![]);
        r
    }

    /// This calendar with its event list replaced by `events`; every
    /// calendar-level field is kept.
    pub fn with_events(&self, events: Vec<VEvent>) -> (r: VCalendar)
        ensures
            r@ == (VCalendarView { events: events_view(events@), ..self@ }),
    {
        VCalendar {
            version: copy_string(&self.version),
            prodid: copy_string(&self.prodid),
            calscale: copy_opt_string(&self.calscale),
            method: copy_opt_string(&self.method),
            events,
            unrecognized_components: copy_components(&self.unrecognized_components),
        }
    }

    /// A copy of the calendar.
    pub fn copy(&self) -> (r: VCalendar)
        ensures
            r@ == self@,
    {
        self.with_events(copy_events(&self.events))
    }
}

} // verus!
