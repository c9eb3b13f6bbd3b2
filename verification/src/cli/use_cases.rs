//! The decisions of each subcommand, on values: what `add`, `edit`,
//! `list` and `remove` do to a loaded calendar, which inputs they reject
//! and with which error, and what they report. Loading, saving and
//! prompting are the caller's.

use vstd::prelude::*;
use crate::cli::display::{event_line, format_event_line, renderable};
use crate::cli::error::{MhError, MhErrorView};
use crate::cli::icons::{icon_position, icon_property, max_source_index, with_icon, write_icon};
use crate::cli::input::{date_from_input, dashed_reading, parse_date};
use crate::date::{
    decimal, decimal_chars, max_date, min_date, next_day, next_day_spec, prev_day_spec, Date, DateTime,
};
use crate::error::push_chars;
use crate::event::{events_view, EventClass, VEvent, VEventView};
use crate::profile::microsoft::{EventExtensions, EventExtensionsView, MsBusyStatus};
use crate::raw::{props_view, RawProperty, RawPropertyView};
use crate::text::{chars_of, str_eq, string_of, trim_chars, trim_spec};
use crate::vcalendar::{VCalendar, VCalendarView};
use crate::parser::indices::{indices_spec, indices_upto, part_indices, strictly_increasing};
use crate::parser::parse_indices;
use crate::query::{
    drop_positions, keep_events, lemma_keep_events_elements, lemma_sort_events_permutation,
    no_summary_message, overlaps, remove_event_by_summary, remove_events_by_indices, sort_events,
    sort_events_spec, summary_differs, SortKey,
};
use crate::text::split_on;

verus! {

/// Runtime context: status-output and interactive-prompt policy.
#[derive(Debug, Clone, Copy)]
pub struct RunContext {
    /// Suppress status / warning output.
    pub quiet: bool,
    /// Whether interactive prompts are allowed.
    pub allow_prompts: bool,
}

impl Default for RunContext {
    fn default() -> (r: RunContext)
        ensures
            !r.quiet,
            r.allow_prompts,
    {
        RunContext { quiet: false, allow_prompts: true }
    }
}

// ---------------------------------------------------------------------
// add
// ---------------------------------------------------------------------

/// The error text for missing `add` arguments without prompts.
pub open spec fn add_missing_message() -> Seq<char> {
    "missing required arguments: pass --summary and --start (no TTY for interactive prompts)"@
}

/// Does `add` need to prompt? It does when the summary or the start is
/// missing; without prompts that is an `InvalidInput` error.
pub fn add_needs_prompt(summary_given: bool, start_given: bool, allow_prompts: bool) -> (r: Result<bool, MhError>)
    ensures
        (!summary_given || !start_given) && !allow_prompts ==> (r matches Err(e) && e@
            == MhErrorView::InvalidInput(add_missing_message())),
        !((!summary_given || !start_given) && !allow_prompts) ==> r == Ok::<bool, MhError>(
            !summary_given || !start_given,
        ),
{
    let interactive = !summary_given || !start_given;
    if interactive && !allow_prompts {
        return Err(MhError::invalid_input(
            "missing required arguments: pass --summary and --start (no TTY for interactive prompts)",
        ));
    }
    Ok(interactive)
}

/// The summary typed at the prompt: trimmed, and not empty.
pub fn summary_from_answer(line: &str) -> (r: Result<String, MhError>)
    ensures
        trim_spec(line@).len() == 0 ==> (r matches Err(e) && e@ == MhErrorView::InvalidInput(
            "Summary cannot be empty"@,
        )),
        trim_spec(line@).len() > 0 ==> (r matches Ok(s) && s@ == trim_spec(line@)),
{
    let t = trim_chars(&chars_of(line));
    if t.len() == 0 {
        return Err(MhError::invalid_input("Summary cannot be empty"));
    }
    Ok(string_of(&t))
}

/// The start date typed at the prompt (trimmed).
pub fn start_from_answer(line: &str) -> (r: Result<Date, MhError>)
    ensures
        match date_from_input(trim_spec(line@), dashed_reading(trim_spec(line@))) {
            Ok(d) => r == Ok::<Date, MhError>(d),
            Err(m) => r matches Err(e) && e@ == MhErrorView::InvalidInput(m),
        },
        r matches Ok(d) ==> d.valid(),
{
    let t = string_of(&trim_chars(&chars_of(line)));
    match parse_date(t.as_str()) {
        Ok(d) => Ok(d),
        Err(m) => Err(MhError::InvalidInput(m)),
    }
}

/// The end date typed at the prompt (trimmed): empty for a single-day
/// event.
pub fn end_from_answer(line: &str) -> (r: Result<Option<Date>, MhError>)
    ensures
        trim_spec(line@).len() == 0 ==> r == Ok::<Option<Date>, MhError>(None),
        trim_spec(line@).len() > 0 ==> match date_from_input(
            trim_spec(line@),
            dashed_reading(trim_spec(line@)),
        ) {
            Ok(d) => r == Ok::<Option<Date>, MhError>(Some(d)),
            Err(m) => r matches Err(e) && e@ == MhErrorView::InvalidInput(m),
        },
        r matches Ok(Some(d)) ==> d.valid(),
{
    let t = trim_chars(&chars_of(line));
    if t.len() == 0 {
        return Ok(None);
    }
    let s = string_of(&t);
    match parse_date(s.as_str()) {
        Ok(d) => Ok(Some(d)),
        Err(m) => Err(MhError::InvalidInput(m)),
    }
}

/// The error text for an end date before the start date.
pub open spec fn end_before_start_message() -> Seq<char> {
    "--end must not be before --start"@
}

/// The exclusive `DTEND` for an inclusive end date (`None` for a
/// single-day event), or the error text.
pub open spec fn dtend_for(start: Date, end: Option<Date>) -> Result<Date, Seq<char>> {
    match end {
        Some(e) => if e.before(start) {
            Err(end_before_start_message())
        } else if e == start {
            Ok(next_day_spec(start))
        } else {
            Ok(next_day_spec(e))
        },
        None => Ok(next_day_spec(start)),
    }
}

/// Can `dtend_for` step one day past the date it steps from?
pub open spec fn dtend_in_range(start: Date, end: Option<Date>) -> bool {
    &&& start.valid()
    &&& start != max_date()
    &&& match end {
        Some(e) => e.valid() && (!e.before(start) ==> e != max_date()),
        None => true,
    }
}

/// The inclusive end entered is the end shown back: the exclusive
/// `DTEND` that `add` stores is a valid date one day after it (after the
/// start for a single-day event), so the event's line, which shows the
/// day before `DTEND`, names the date the user gave.
pub proof fn lemma_inclusive_end_shown_back(start: Date, end: Option<Date>)
    requires
        dtend_in_range(start, end),
    ensures
        dtend_for(start, end) matches Ok(d) ==> {
            &&& d.valid()
            &&& d != min_date()
            &&& prev_day_spec(d) == match end {
                Some(e) => e,
                None => start,
            }
        },
{
    let from = match end {
        Some(e) => e,
        None => start,
    };
    if dtend_for(start, end) is Ok {
        assert(from.valid() && from != max_date());
        assert(next_day_spec(from).valid());
        assert(prev_day_spec(next_day_spec(from)) == from);
    }
}

/// Compute the exclusive `DTEND` of a new event.
pub fn dtend_from_inclusive(start: Date, end: Option<Date>) -> (r: Result<Date, MhError>)
    requires
        dtend_in_range(start, end),
    ensures
        match dtend_for(start, end) {
            Ok(d) => r == Ok::<Date, MhError>(d),
            Err(m) => r matches Err(e) && e@ == MhErrorView::InvalidInput(m),
        },
        r matches Ok(d) ==> d.valid(),
{
    let from = match end {
        Some(e) => {
            if e.lt(&start) {
                return Err(MhError::invalid_input("--end must not be before --start"));
            }
            e
        },
        None => start,
    };
    match next_day(&from) {
        Some(d) => Ok(d),
        None => Err(MhError::invalid_input("--end must not be before --start")),
    }
}

/// The event `add` creates.
pub open spec fn added_event(
    uid: Seq<char>,
    dtstamp: DateTime,
    summary: Seq<char>,
    start: Date,
    dtend: Date,
    busystatus: MsBusyStatus,
    class: Option<EventClass>,
    categories: Seq<Seq<char>>,
    icon: Option<Seq<char>>,
) -> VEventView {
    VEventView {
        uid,
        dtstamp,
        dtstart: start,
        dtend,
        summary,
        transp: None,
        class,
        categories,
        microsoft: Some(EventExtensionsView { busystatus: Some(busystatus), unrecognized: seq![] }),
        google: None,
        icloud: None,
        unknown: match icon {
            Some(i) => with_icon(seq![], i),
            None => seq![],
        },
        unrecognized_components: seq![],
    }
}

/// Build the event `add` creates.
pub fn new_event(
    uid: String,
    dtstamp: DateTime,
    summary: String,
    start: Date,
    dtend: Date,
    busystatus: MsBusyStatus,
    class: Option<EventClass>,
    categories: Vec<String>,
    icon: Option<String>,
) -> (r: VEvent)
    ensures
        r@ == added_event(
            uid@,
            dtstamp,
            summary@,
            start,
            dtend,
            busystatus,
            class,
            categories.deep_view(),
            match icon {
                Some(i) => Some(i@),
                None => None,
            },
        ),
{
    let mut event = VEvent {
        uid,
        dtstamp,
        dtstart: start,
        dtend,
        summary,
        transp: None,
        class,
        categories,
        microsoft: Some(EventExtensions { busystatus: Some(busystatus), unrecognized: Vec::new() }),
        google: None,
        icloud: None,
        unknown: Vec::new(),
        unrecognized_components: Vec::new(),
    };
    assert(props_view(event.unknown@) =~= Seq::<RawPropertyView>::empty());
    assert(crate::raw::components_view(event.unrecognized_components@) =~= Seq::<
        crate::raw::RawComponentView,
    >::empty());
    match &event.microsoft {
        Some(m) => {
            assert(props_view(m.unrecognized@) =~= Seq::<RawPropertyView>::empty());
        },
        None => {},
    }
    match icon {
        Some(i) => {
            write_icon(&mut event, i);
        },
        None => {},
    }
    event
}

/// The calendar after appending `e`.
pub open spec fn with_event_appended(c: VCalendarView, e: VEventView) -> VCalendarView {
    VCalendarView { events: c.events.push(e), ..c }
}

/// `add` on a loaded calendar, with the new event's UID and stamp given:
/// the event is appended. Fails when the end date is before the start.
pub fn apply_add(
    cal: VCalendar,
    uid: String,
    dtstamp: DateTime,
    summary: String,
    start: Date,
    end: Option<Date>,
    busystatus: MsBusyStatus,
    class: Option<EventClass>,
    categories: Vec<String>,
    icon: Option<String>,
) -> (r: Result<(VCalendar, VEvent), MhError>)
    requires
        dtend_in_range(start, end),
    ensures
        match dtend_for(start, end) {
            Ok(d) => r matches Ok((c, e)) && e@ == added_event(
                uid@,
                dtstamp,
                summary@,
                start,
                d,
                busystatus,
                class,
                categories.deep_view(),
                match icon {
                    Some(i) => Some(i@),
                    None => None,
                },
            ) && c@ == with_event_appended(cal@, e@),
            Err(m) => r matches Err(e) && e@ == MhErrorView::InvalidInput(m),
        },
{
    let dtend = match dtend_from_inclusive(start, end) {
        Ok(d) => d,
        Err(e) => {
            return Err(e);
        },
    };
    let event = new_event(uid, dtstamp, summary, start, dtend, busystatus, class, categories, icon);
    let mut cal = cal;
    let copy = event.copy();
    let ghost before = cal.events@;
    cal.events.push(copy);
    assert(events_view(cal.events@) =~= events_view(before).push(event@));
    Ok((cal, event))
}

/// Is `s` a hyphenated lowercase version-4 UUID
/// (`xxxxxxxx-xxxx-4xxx-xxxx-xxxxxxxxxxxx`)?
pub open spec fn is_uuid_v4_text(s: Seq<char>) -> bool {
    &&& s.len() == 36
    &&& forall|i: int|
        0 <= i < 36 ==> if i == 8 || i == 13 || i == 18 || i == 23 {
            s[i] == '-'
        } else {
            ('0' <= #[trigger] s[i] <= '9') || ('a' <= s[i] <= 'f')
        }
    &&& s[14] == '4'
    &&& (s[19] == '8' || s[19] == '9' || s[19] == 'a' || s[19] == 'b')
}

/// A fresh random UID: `uuid::Uuid::new_v4().to_string()`. The value is
/// random; what is stated is its shape: 36 characters, hyphens at
/// positions 8, 13, 18 and 23, lowercase hex digits elsewhere, the
/// version digit `4` at position 14 and the RFC 4122 variant digit (`8`,
/// `9`, `a` or `b`) at position 19.
#[verifier::external_body]
pub(crate) fn new_uid() -> (r: String)
    ensures
        is_uuid_v4_text(r@),
{
    uuid::Uuid::new_v4().to_string()
}

/// `add` on a loaded calendar: the new event gets a fresh random UID and
/// the current time as its stamp, then is appended.
pub fn add_event(
    cal: VCalendar,
    summary: String,
    start: Date,
    end: Option<Date>,
    busystatus: MsBusyStatus,
    class: Option<EventClass>,
    categories: Vec<String>,
    icon: Option<String>,
) -> (r: Result<(VCalendar, VEvent), MhError>)
    requires
        dtend_in_range(start, end),
    ensures
        match dtend_for(start, end) {
            Ok(d) => r matches Ok((c, e)) && e@ == added_event(
                e@.uid,
                e@.dtstamp,
                summary@,
                start,
                d,
                busystatus,
                class,
                categories.deep_view(),
                match icon {
                    Some(i) => Some(i@),
                    None => None,
                },
            ) && is_uuid_v4_text(e@.uid) && e@.dtstamp.valid() && c@ == with_event_appended(cal@, e@),
            Err(m) => r matches Err(e) && e@ == MhErrorView::InvalidInput(m),
        },
{
    let uid = new_uid();
    let dtstamp = crate::date::now_utc();
    apply_add(cal, uid, dtstamp, summary, start, end, busystatus, class, categories, icon)
}

// ---------------------------------------------------------------------
// edit
// ---------------------------------------------------------------------

/// Which fields of an event `edit` replaces. `Some(_)` sets the field,
/// `None` leaves it; `clear_categories` and `clear_icon` remove those
/// fields before any replacement applies.
#[derive(Debug, Clone, PartialEq)]
pub struct EditPatch {
    pub summary: Option<String>,
    pub start: Option<Date>,
    pub end: Option<Date>,
    pub busystatus: Option<MsBusyStatus>,
    pub class: Option<EventClass>,
    pub categories: Option<Vec<String>>,
    pub clear_categories: bool,
    pub icon: Option<String>,
    pub clear_icon: bool,
}

/// Mathematical model of an `EditPatch`.
pub struct EditPatchView {
    pub summary: Option<Seq<char>>,
    pub start: Option<Date>,
    pub end: Option<Date>,
    pub busystatus: Option<MsBusyStatus>,
    pub class: Option<EventClass>,
    pub categories: Option<Seq<Seq<char>>>,
    pub clear_categories: bool,
    pub icon: Option<Seq<char>>,
    pub clear_icon: bool,
}

impl View for EditPatch {
    type V = EditPatchView;

    open spec fn view(&self) -> EditPatchView {
        EditPatchView {
            summary: match self.summary {
                Some(s) => Some(s@),
                None => None,
            },
            start: self.start,
            end: self.end,
            busystatus: self.busystatus,
            class: self.class,
            categories: match self.categories {
                Some(c) => Some(c.deep_view()),
                None => None,
            },
            clear_categories: self.clear_categories,
            icon: match self.icon {
                Some(i) => Some(i@),
                None => None,
            },
            clear_icon: self.clear_icon,
        }
    }
}

impl Default for EditPatch {
    fn default() -> (r: EditPatch)
        ensures
            r@ == (EditPatchView {
                summary: None,
                start: None,
                end: None,
                busystatus: None,
                class: None,
                categories: None,
                clear_categories: false,
                icon: None,
                clear_icon: false,
            }),
    {
        EditPatch {
            summary: None,
            start: None,
            end: None,
            busystatus: None,
            class: None,
            categories: None,
            clear_categories: false,
            icon: None,
            clear_icon: false,
        }
    }
}

/// The new `(DTSTART, DTEND)` of an edited event, or the error text.
/// Both dates given: start and the day after the inclusive end. Only the
/// start: the event moves and keeps its length, ending on `shifted`. Only
/// the end: the day after it.
pub open spec fn edit_dates(e: VEventView, start: Option<Date>, end: Option<Date>, shifted: Date) -> Result<
    (Date, Date),
    Seq<char>,
> {
    match (start, end) {
        (Some(s), Some(x)) => if x.before(s) {
            Err(end_before_start_message())
        } else {
            Ok((s, next_day_spec(x)))
        },
        (Some(s), None) => Ok((s, shifted)),
        (None, Some(x)) => if x.before(e.dtstart) {
            Err(end_before_start_message())
        } else {
            Ok((e.dtstart, next_day_spec(x)))
        },
        (None, None) => Ok((e.dtstart, e.dtend)),
    }
}

/// The start an edit leaves an event with: the new one, or the old.
pub open spec fn edit_start(e: VEventView, p: EditPatchView) -> Date {
    match p.start {
        Some(s) => s,
        None => e.dtstart,
    }
}

/// An edit's end date is inclusive. Given an end `x` not before the start
/// the event keeps (the new start, or its own), the edited event starts
/// there and its exclusive `DTEND` is the day after `x`; given an end
/// before that start, the edit is refused.
pub proof fn lemma_edit_end_is_inclusive(e: VEventView, p: EditPatchView, shifted: Date)
    requires
        p.end matches Some(x) && x.valid() && x != max_date(),
    ensures
        p.end->0.before(edit_start(e, p)) ==> edit_dates(e, p.start, p.end, shifted) is Err,
        !p.end->0.before(edit_start(e, p)) ==> (edit_dates(e, p.start, p.end, shifted) matches Ok(dd)
            && edited_event(e, p, dd).dtstart == edit_start(e, p) && edited_event(e, p, dd).dtend.valid()
            && edited_event(e, p, dd).dtend.day_number() == p.end->0.day_number() + 1),
{
    crate::date::lemma_next_day_number(p.end->0);
}

/// `ps` without its icon properties.
pub open spec fn without_icon(ps: Seq<RawPropertyView>) -> Seq<RawPropertyView>
    decreases ps.len(),
{
    if ps.len() == 0 {
        seq![]
    } else if ps.last().name == icon_property() {
        without_icon(ps.drop_last())
    } else {
        without_icon(ps.drop_last()).push(ps.last())
    }
}

/// The unknown properties before a new icon is written.
pub open spec fn unknown_before_icon(e: VEventView, p: EditPatchView) -> Seq<RawPropertyView> {
    if p.clear_icon {
        without_icon(e.unknown)
    } else {
        e.unknown
    }
}

/// The event after applying `p`, with `dates` as its new dates.
pub open spec fn edited_event(e: VEventView, p: EditPatchView, dates: (Date, Date)) -> VEventView {
    let cats0 = if p.clear_categories {
        seq![]
    } else {
        e.categories
    };
    let unk0 = unknown_before_icon(e, p);
    VEventView {
        summary: match p.summary {
            Some(s) => s,
            None => e.summary,
        },
        dtstart: dates.0,
        dtend: dates.1,
        microsoft: match p.busystatus {
            Some(bs) => Some(
                EventExtensionsView {
                    busystatus: Some(bs),
                    unrecognized: match e.microsoft {
                        Some(m) => m.unrecognized,
                        None => seq![],
                    },
                },
            ),
            None => e.microsoft,
        },
        class: match p.class {
            Some(c) => Some(c),
            None => e.class,
        },
        categories: match p.categories {
            Some(c) => if c.len() > 0 {
                c
            } else {
                cats0
            },
            None => cats0,
        },
        unknown: match p.icon {
            Some(i) => with_icon(unk0, i),
            None => unk0,
        },
        ..e
    }
}

/// The inputs on which `edit` of event `e` computes without overflow: a
/// new end date has a next day, a moved event stays within `chrono`'s
/// range, and, when the dates are in order (else `edit` fails before it
/// gets there), a new icon property can be numbered.
pub open spec fn edit_defined(e: VEventView, p: EditPatchView) -> bool {
    &&& e.dtstart.valid()
    &&& e.dtend.valid()
    &&& match (p.start, p.end) {
        (Some(s), Some(x)) => s.valid() && x.valid() && (!x.before(s) ==> x != max_date()),
        (Some(s), None) => {
            let n = e.dtend.day_number() - e.dtstart.day_number();
            &&& s.valid()
            &&& -i32::MAX <= n <= i32::MAX
            &&& crate::date::min_date().day_number() <= s.day_number() + n <= max_date().day_number()
        },
        (None, Some(x)) => x.valid() && (!x.before(e.dtstart) ==> x != max_date()),
        (None, None) => true,
    }
    &&& (p.icon is Some && edit_dates(e, p.start, p.end, e.dtend) is Ok && icon_position(
        unknown_before_icon(e, p),
    ) is None) ==> max_source_index(
        unknown_before_icon(e, p),
    ) < u32::MAX
}

/// The error text for an index outside the event list.
pub open spec fn edit_index_message(index: usize, n: nat) -> Seq<char> {
    "Index "@ + decimal(index as nat) + " out of range (1-"@ + decimal(n) + ")"@
}

fn drop_icons(ps: &Vec<RawProperty>) -> (r: Vec<RawProperty>)
    ensures
        props_view(r@) == without_icon(props_view(ps@)),
{
    let ghost pv = props_view(ps@);
    let mut out: Vec<RawProperty> = Vec::new();
    let mut i: usize = 0;
    while i < ps.len()
        invariant
            i <= ps.len(),
            pv == props_view(ps@),
            props_view(out@) == without_icon(pv.take(i as int)),
        decreases ps.len() - i,
    {
        let ghost t = pv.take(i + 1);
        assert(t.drop_last() =~= pv.take(i as int));
        assert(t.last() == ps[i as int]@);
        if !str_eq(ps[i].name.as_str(), crate::cli::icons::ICON_PROPERTY) {
            let p = ps[i].copy();
            let ghost before = out@;
            out.push(p);
            assert(props_view(out@) =~= props_view(before).push(p@));
        }
        i = i + 1;
    }
    assert(pv.take(i as int) =~= pv);
    out
}

fn new_dates(event: &VEvent, start: Option<Date>, end: Option<Date>) -> (r: Result<(Date, Date), MhError>)
    requires
        edit_defined(
            event@,
            EditPatchView {
                summary: None,
                start,
                end,
                busystatus: None,
                class: None,
                categories: None,
                clear_categories: false,
                icon: None,
                clear_icon: false,
            },
        ),
    ensures
        match r {
            Ok(d) => edit_dates(event@, start, end, d.1) == Ok::<(Date, Date), Seq<char>>(d) && (
            start is Some && end is None ==> d.1.valid() && d.1.day_number() == start->0.day_number()
                + event@.dtend.day_number() - event@.dtstart.day_number()),
            Err(e) => edit_dates(event@, start, end, event@.dtend) matches Err(m) && e@
                == MhErrorView::InvalidInput(m),
        },
{
    match (start, end) {
        (Some(s), Some(x)) => {
            if x.lt(&s) {
                return Err(MhError::invalid_input("--end must not be before --start"));
            }
            match next_day(&x) {
                Some(d) => Ok((s, d)),
                None => Err(MhError::invalid_input("--end must not be before --start")),
            }
        },
        (Some(s), None) => {
            let n = event.dtend.days_since(&event.dtstart);
            match crate::date::add_signed_days(&s, n) {
                Some(d) => Ok((s, d)),
                None => Err(MhError::invalid_input("--end must not be before --start")),
            }
        },
        (None, Some(x)) => {
            if x.lt(&event.dtstart) {
                return Err(MhError::invalid_input("--end must not be before --start"));
            }
            match next_day(&x) {
                Some(d) => Ok((event.dtstart, d)),
                None => Err(MhError::invalid_input("--end must not be before --start")),
            }
        },
        (None, None) => Ok((event.dtstart, event.dtend)),
    }
}

fn set_core_fields(
    event: &mut VEvent,
    summary: Option<String>,
    dates: (Date, Date),
    busystatus: Option<MsBusyStatus>,
    class: Option<EventClass>,
)
    ensures
        final(event)@ == (VEventView {
            summary: match summary {
                Some(s) => s@,
                None => old(event)@.summary,
            },
            dtstart: dates.0,
            dtend: dates.1,
            microsoft: match busystatus {
                Some(bs) => Some(
                    EventExtensionsView {
                        busystatus: Some(bs),
                        unrecognized: match old(event)@.microsoft {
                            Some(m) => m.unrecognized,
                            None => seq![],
                        },
                    },
                ),
                None => old(event)@.microsoft,
            },
            class: match class {
                Some(c) => Some(c),
                None => old(event)@.class,
            },
            ..old(event)@
        }),
{
    let ghost e0 = event@;
    match summary {
        Some(s) => {
            event.summary = s;
        },
        None => {},
    }
    event.dtstart = dates.0;
    event.dtend = dates.1;
    match busystatus {
        Some(bs) => {
            let unrecognized = match &event.microsoft {
                Some(m) => crate::raw::copy_props(&m.unrecognized),
                None => Vec::new(),
            };
            proof {
                if e0.microsoft is None {
                    assert(props_view(unrecognized@) =~= Seq::<RawPropertyView>::empty());
                }
            }
            event.microsoft = Some(EventExtensions { busystatus: Some(bs), unrecognized });
        },
        None => {},
    }
    match class {
        Some(c) => {
            event.class = Some(c);
        },
        None => {},
    }
}

fn set_categories(event: &mut VEvent, categories: Option<Vec<String>>, clear: bool)
    ensures
        final(event)@ == (VEventView {
            categories: match categories {
                Some(c) => if c.deep_view().len() > 0 {
                    c.deep_view()
                } else if clear {
                    seq![]
                } else {
                    old(event)@.categories
                },
                None => if clear {
                    seq![]
                } else {
                    old(event)@.categories
                },
            },
            ..old(event)@
        }),
{
    if clear {
        event.categories = Vec::new();
        assert(event.categories.deep_view() =~= Seq::<Seq<char>>::empty());
    }
    match categories {
        Some(cats) => {
            if cats.len() > 0 {
                event.categories = cats;
            }
        },
        None => {},
    }
}

fn set_icon(event: &mut VEvent, icon: Option<String>, clear: bool)
    requires
        icon is Some && icon_position(
            if clear {
                without_icon(old(event)@.unknown)
            } else {
                old(event)@.unknown
            },
        ) is None ==> max_source_index(
            if clear {
                without_icon(old(event)@.unknown)
            } else {
                old(event)@.unknown
            },
        ) < u32::MAX,
    ensures
        final(event)@ == (VEventView {
            unknown: {
                let unk0 = if clear {
                    without_icon(old(event)@.unknown)
                } else {
                    old(event)@.unknown
                };
                match icon {
                    Some(i) => with_icon(unk0, i@),
                    None => unk0,
                }
            },
            ..old(event)@
        }),
{
    if clear {
        event.unknown = drop_icons(&event.unknown);
    }
    match icon {
        Some(i) => {
            write_icon(event, i);
        },
        None => {},
    }
}

fn edit_event(event: &mut VEvent, patch: EditPatch) -> (r: Result<(), MhError>)
    requires
        edit_defined(old(event)@, patch@),
    ensures
        match edit_dates(old(event)@, patch@.start, patch@.end, final(event)@.dtend) {
            Err(m) => r matches Err(e) && e@ == MhErrorView::InvalidInput(m),
            Ok(d) => r is Ok && final(event)@ == edited_event(old(event)@, patch@, d) && (
            patch@.start is Some && patch@.end is None ==> final(event)@.dtend.valid()
                && final(event)@.dtend.day_number() == patch@.start->0.day_number()
                + old(event)@.dtend.day_number() - old(event)@.dtstart.day_number()),
        },
{
    let ghost e0 = event@;
    let ghost p = patch@;
    let EditPatch { summary, start, end, busystatus, class, categories, clear_categories, icon, clear_icon } = patch;
    let dates = match new_dates(event, start, end) {
        Ok(d) => d,
        Err(e) => {
            return Err(e);
        },
    };
    set_core_fields(event, summary, dates, busystatus, class);
    set_categories(event, categories, clear_categories);
    set_icon(event, icon, clear_icon);
    assert(event@ == edited_event(e0, p, dates));
    Ok(())
}

/// `edit` on a loaded calendar: patch the event at 1-based `index`.
/// Fails with `NotFound` when `index` is outside the event list, and with
/// `InvalidInput` when the new end date is before the start.
pub fn apply_edit(cal: VCalendar, index: usize, patch: EditPatch) -> (r: Result<VCalendar, MhError>)
    requires
        1 <= index <= cal@.events.len() ==> edit_defined(cal@.events[index - 1], patch@),
    ensures
        !(1 <= index <= cal@.events.len()) ==> (r matches Err(e) && e@ == MhErrorView::NotFound(
            edit_index_message(index, cal@.events.len()),
        )),
        1 <= index <= cal@.events.len() ==> {
            let e = cal@.events[index - 1];
            match r {
                Ok(c) => {
                    let ne = c@.events[index - 1];
                    &&& edit_dates(e, patch@.start, patch@.end, ne.dtend) is Ok
                    &&& c@ == (VCalendarView {
                        events: cal@.events.update(
                            index - 1,
                            edited_event(e, patch@, edit_dates(e, patch@.start, patch@.end, ne.dtend)->Ok_0),
                        ),
                        ..cal@
                    })
                    &&& (patch@.start is Some && patch@.end is None ==> ne.dtend.valid()
                        && ne.dtend.day_number() == patch@.start->0.day_number() + e.dtend.day_number()
                        - e.dtstart.day_number())
                },
                Err(err) => match edit_dates(e, patch@.start, patch@.end, e.dtend) {
                    Err(m) => err@ == MhErrorView::InvalidInput(m),
                    Ok(_) => false,
                },
            }
        },
{
    let n = cal.events.len();
    if index == 0 || index > n {
        let mut msg = chars_of("Index ");
        push_chars(&mut msg, &decimal_chars(index as u64));
        push_chars(&mut msg, &chars_of(" out of range (1-"));
        push_chars(&mut msg, &decimal_chars(n as u64));
        push_chars(&mut msg, &chars_of(")"));
        return Err(MhError::NotFound(string_of(&msg)));
    }
    let mut event = cal.events[index - 1].copy();
    let ghost p = patch@;
    match edit_event(&mut event, patch) {
        Ok(()) => {},
        Err(e) => {
            return Err(e);
        },
    }
    let mut cal = cal;
    let ghost before = cal.events@;
    let ghost ev = event@;
    cal.events.set(index - 1, event);
    assert(events_view(cal.events@) =~= events_view(before).update(index - 1, ev));
    Ok(cal)
}

// ---------------------------------------------------------------------
// list
// ---------------------------------------------------------------------

/// Can every event's line be rendered?
pub open spec fn all_renderable(es: Seq<VEventView>) -> bool {
    forall|i: int| 0 <= i < es.len() ==> #[trigger] renderable(es[i])
}

/// The events `list` shows: in file order without sort keys, else
/// sorted.
pub open spec fn listed_events(es: Seq<VEventView>, keys: Seq<SortKey>, descending: bool) -> Seq<VEventView> {
    if keys.len() == 0 {
        es
    } else {
        sort_events_spec(es, keys, descending)
    }
}

/// `N: line` for each event, numbered from 1, joined with `\n`.
pub open spec fn numbered_lines(es: Seq<VEventView>) -> Seq<char>
    decreases es.len(),
{
    if es.len() == 0 {
        seq![]
    } else if es.len() == 1 {
        decimal(1) + ": "@ + event_line(es[0])
    } else {
        numbered_lines(es.drop_last()) + "\n"@ + decimal(es.len()) + ": "@ + event_line(es.last())
    }
}

/// The events `list` shows, in order.
pub fn list_events(cal: &VCalendar, sort_keys: &[SortKey], descending: bool) -> (r: Vec<VEvent>)
    ensures
        events_view(r@) == listed_events(cal@.events, sort_keys@, descending),
{
    if sort_keys.len() == 0 {
        crate::event::copy_events(&cal.events)
    } else {
        sort_events(cal.events.as_slice(), sort_keys, descending)
    }
}

/// The text `list` prints (without `--json`).
pub fn list_text(cal: &VCalendar, sort_keys: &[SortKey], descending: bool) -> (r: String)
    requires
        all_renderable(cal@.events),
    ensures
        r@ == numbered_lines(listed_events(cal@.events, sort_keys@, descending)),
{
    let events = list_events(cal, sort_keys, descending);
    let ghost ev = events_view(events@);
    proof {
        if sort_keys@.len() > 0 {
            lemma_sort_events_permutation(cal@.events, sort_keys@, descending);
            assert(ev == sort_events_spec(cal@.events, sort_keys@, descending));
            assert forall|i: int| 0 <= i < ev.len() implies #[trigger] renderable(ev[i]) by {
                assert(ev.contains(ev[i]));
                assert(sort_events_spec(cal@.events, sort_keys@, descending).contains(ev[i]));
                assert(cal@.events.contains(ev[i]));
                let j = choose|j: int| 0 <= j < cal@.events.len() && cal@.events[j] == ev[i];
                assert(renderable(cal@.events[j]));
            }
        }
    }
    let mut out: Vec<char> = Vec::new();
    let mut i: usize = 0;
    while i < events.len()
        invariant
            i <= events.len(),
            ev == events_view(events@),
            all_renderable(ev),
            out@ == numbered_lines(ev.take(i as int)),
        decreases events.len() - i,
    {
        let ghost t = ev.take(i + 1);
        assert(t.drop_last() =~= ev.take(i as int));
        assert(t.last() == events[i as int]@);
        if i > 0 {
            push_chars(&mut out, &chars_of("\n"));
        } else {
            assert(t[0] == events[0]@);
        }
        push_chars(&mut out, &decimal_chars((i + 1) as u64));
        push_chars(&mut out, &chars_of(": "));
        assert(renderable(ev[i as int]));
        push_chars(&mut out, &chars_of(format_event_line(&events[i]).as_str()));
        i = i + 1;
    }
    assert(ev.take(i as int) =~= ev);
    string_of(&out)
}

// ---------------------------------------------------------------------
// remove
// ---------------------------------------------------------------------

/// The lines of `es` joined with `, `.
pub open spec fn lines_joined(es: Seq<VEventView>) -> Seq<char>
    decreases es.len(),
{
    if es.len() == 0 {
        seq![]
    } else if es.len() == 1 {
        event_line(es[0])
    } else {
        lines_joined(es.drop_last()) + ", "@ + event_line(es.last())
    }
}

/// Does the event carry the summary?
pub open spec fn summary_is(s: Seq<char>) -> spec_fn(VEventView) -> bool {
    |e: VEventView| e.summary == s
}

/// The events at the given 1-based positions, in the order given.
pub open spec fn picked(es: Seq<VEventView>, indices: Seq<usize>) -> Seq<VEventView> {
    Seq::new(indices.len(), |k: int| es[indices[k] - 1])
}

/// Can each event whose summary is `s` be rendered?
pub open spec fn summary_renderable(es: Seq<VEventView>, s: Seq<char>) -> bool {
    forall|i: int| 0 <= i < es.len() && (#[trigger] es[i]).summary == s ==> renderable(es[i])
}

/// Can each event at a position that `target` lists be rendered?
pub open spec fn target_renderable(es: Seq<VEventView>, target: Seq<char>) -> bool {
    indices_spec(target, es.len() as usize) matches Ok(set) ==> forall|x: usize|
        #[trigger] set.contains(x) && 1 <= x <= es.len() ==> renderable(es[x - 1])
}

/// Can the events that `remove` reports on be rendered? Only a summary
/// alone or a target alone reports on events.
pub open spec fn remove_renderable(es: Seq<VEventView>, summary: Option<&str>, target: Option<&str>) -> bool {
    match (summary, target) {
        (Some(s), None) => summary_renderable(es, s@),
        (None, Some(t)) => target_renderable(es, t@),
        _ => true,
    }
}

/// The error text for `remove` without target or prompts.
pub open spec fn remove_missing_message() -> Seq<char> {
    "missing required arguments: pass <INDEX> or --summary (no TTY for interactive prompts)"@
}

fn lines_joined_exec(es: &Vec<VEvent>) -> (r: String)
    requires
        all_renderable(events_view(es@)),
    ensures
        r@ == lines_joined(events_view(es@)),
{
    let ghost ev = events_view(es@);
    let mut out: Vec<char> = Vec::new();
    let mut i: usize = 0;
    while i < es.len()
        invariant
            i <= es.len(),
            ev == events_view(es@),
            all_renderable(ev),
            out@ == lines_joined(ev.take(i as int)),
        decreases es.len() - i,
    {
        let ghost t = ev.take(i + 1);
        assert(t.drop_last() =~= ev.take(i as int));
        assert(t.last() == es[i as int]@);
        if i > 0 {
            push_chars(&mut out, &chars_of(", "));
        } else {
            assert(t[0] == es[0]@);
        }
        assert(renderable(ev[i as int]));
        push_chars(&mut out, &chars_of(format_event_line(&es[i]).as_str()));
        i = i + 1;
    }
    assert(ev.take(i as int) =~= ev);
    string_of(&out)
}

proof fn lemma_part_indices_in_range(p: Seq<char>, max: usize)
    ensures
        part_indices(p, max) matches Ok(b) ==> forall|x: usize| b.contains(x) ==> 1 <= x <= max,
{
}

proof fn lemma_indices_in_range(parts: Seq<Seq<char>>, max: usize, n: nat)
    ensures
        indices_upto(parts, max, n) matches Ok(b) ==> forall|x: usize| b.contains(x) ==> 1 <= x <= max,
    decreases n,
{
    if n > 0 {
        lemma_indices_in_range(parts, max, (n - 1) as nat);
        lemma_part_indices_in_range(parts[n - 1], max);
    }
}

/// Remove the events at the positions `target` lists.
fn remove_by_target(cal: &VCalendar, target: &str) -> (r: Result<(VCalendar, String), MhError>)
    requires
        target_renderable(cal@.events, target@),
    ensures
        match indices_spec(target@, cal@.events.len() as usize) {
            Err(m) => r matches Err(e) && e@ == MhErrorView::Parse(
                crate::error::ErrorView { message: m, line: None, property: None },
            ),
            Ok(set) => r matches Ok((c, d)) && exists|v: Seq<usize>|
                #![trigger strictly_increasing(v)]
                strictly_increasing(v) && v.to_set() == set && c@ == (VCalendarView {
                    events: drop_positions(cal@.events, v),
                    ..cal@
                }) && d@ == lines_joined(picked(cal@.events, v)),
        },
{
    let n = cal.events.len();
    let indices = match parse_indices(target, n) {
        Ok(v) => v,
        Err(e) => {
            return Err(MhError::Parse(e));
        },
    };
    let ghost es = cal@.events;
    proof {
        let parts = split_on(target@, ',');
        lemma_indices_in_range(parts, n, parts.len());
        assert forall|k: int| 0 <= k < indices@.len() implies 1 <= #[trigger] indices@[k] <= n by {
            assert(indices@.to_set().contains(indices@[k]));
        }
    }
    let mut removed: Vec<VEvent> = Vec::new();
    let mut k: usize = 0;
    while k < indices.len()
        invariant
            k <= indices.len(),
            n == cal.events.len(),
            es == cal@.events,
            forall|j: int| 0 <= j < indices@.len() ==> 1 <= #[trigger] indices@[j] <= n,
            events_view(removed@) == picked(es, indices@.take(k as int)),
        decreases indices.len() - k,
    {
        let i = indices[k];
        assert(1 <= indices@[k as int] <= n);
        let e = cal.events[i - 1].copy();
        let ghost before = removed@;
        removed.push(e);
        assert(events_view(removed@) =~= events_view(before).push(e@));
        assert(events_view(removed@) =~= picked(es, indices@.take(k + 1)));
        k = k + 1;
    }
    assert(indices@.take(k as int) =~= indices@);
    assert forall|j: int| 0 <= j < events_view(removed@).len() implies #[trigger] renderable(
        events_view(removed@)[j],
    ) by {
        assert(indices@.to_set().contains(indices@[j]));
        assert(renderable(es[indices@[j] - 1]));
    }
    let desc = lines_joined_exec(&removed);
    proof {
        assert forall|j: int| 0 <= j < indices@.len() implies crate::query::index_in_range(#[trigger] indices@[j], n as nat) by {}
        if crate::query::first_bad_index(indices@, n as nat) is Some {
            let c = crate::query::first_bad_index(indices@, n as nat)->0;
            assert(exists|q: int| 0 <= q < indices@.len() && !crate::query::index_in_range(indices@[q], n as nat));
            let q = choose|q: int| 0 <= q < indices@.len() && !crate::query::index_in_range(indices@[q], n as nat);
            assert(crate::query::index_in_range(indices@[q], n as nat));
        }
    }
    match remove_events_by_indices(cal, indices.as_slice()) {
        Ok(c) => {
            assert(strictly_increasing(indices@));
            Ok((c, desc))
        },
        Err(e) => Err(MhError::Parse(e)),
    }
}

/// Remove the events whose summary is `s`; `NotFound` when none has it.
fn remove_by_summary(cal: &VCalendar, s: &str) -> (r: Result<(VCalendar, String), MhError>)
    requires
        summary_renderable(cal@.events, s@),
    ensures
        keep_events(cal@.events, summary_is(s@)).len() == 0 ==> (r matches Err(e) && e@
            == MhErrorView::NotFound(no_summary_message(s@))),
        keep_events(cal@.events, summary_is(s@)).len() > 0 ==> (r matches Ok((c, d)) && c@
            == (VCalendarView { events: keep_events(cal@.events, summary_differs(s@)), ..cal@ })
            && d@ == lines_joined(keep_events(cal@.events, summary_is(s@)))),
{
    let ghost es = cal@.events;
    let ghost keep = summary_is(s@);
    let sv = chars_of(s);
    let mut removed: Vec<VEvent> = Vec::new();
    let mut i: usize = 0;
    while i < cal.events.len()
        invariant
            i <= cal.events.len(),
            sv@ == s@,
            es == cal@.events,
            keep == summary_is(s@),
            events_view(removed@) == keep_events(es.take(i as int), keep),
        decreases cal.events.len() - i,
    {
        let ghost t = es.take(i + 1);
        assert(t.drop_last() =~= es.take(i as int));
        assert(t.last() == cal.events[i as int]@);
        if crate::text::chars_eq(&chars_of(cal.events[i].summary.as_str()), &sv) {
            let e = cal.events[i].copy();
            let ghost before = removed@;
            removed.push(e);
            assert(events_view(removed@) =~= events_view(before).push(e@));
        }
        i = i + 1;
    }
    assert(es.take(i as int) =~= es);
    if removed.len() == 0 {
        let mut msg = chars_of("No event found with summary: ");
        push_chars(&mut msg, &sv);
        return Err(MhError::NotFound(string_of(&msg)));
    }
    proof {
        lemma_keep_events_elements(es, keep);
        let rv = events_view(removed@);
        assert forall|j: int| 0 <= j < rv.len() implies #[trigger] renderable(rv[j]) by {
            assert(es.contains(rv[j]));
            let q = choose|q: int| 0 <= q < es.len() && es[q] == rv[j];
            assert(keep(rv[j]));
            assert(es[q].summary == s@);
            assert(renderable(es[q]));
        }
        assert(keep(rv[0]) && es.contains(rv[0]));
        let q = choose|q: int| 0 <= q < es.len() && es[q] == rv[0];
        assert(cal@.events[q].summary == s@);
    }
    let desc = lines_joined_exec(&removed);
    match remove_event_by_summary(cal, s) {
        Ok(c) => Ok((c, desc)),
        Err(e) => Err(MhError::Parse(e)),
    }
}

/// `remove` on a loaded calendar. With a summary or a target, the
/// events to drop and the report line; both given is a `Conflict`.
/// Without either, `Ok(None)` tells the caller to prompt, unless prompts
/// are not allowed (`InvalidInput`) or there is nothing to remove
/// (`NotFound`).
pub fn apply_remove(cal: &VCalendar, summary: Option<&str>, target: Option<&str>, allow_prompts: bool) -> (r: Result<
    Option<(VCalendar, String)>,
    MhError,
>)
    requires
        remove_renderable(cal@.events, summary, target),
    ensures
        summary is Some && target is Some ==> (r matches Err(e) && e@ == MhErrorView::Conflict(
            "Cannot specify both --summary and index target"@,
        )),
        summary is None && target is None ==> {
            &&& !allow_prompts ==> (r matches Err(e) && e@ == MhErrorView::InvalidInput(
                remove_missing_message(),
            ))
            &&& allow_prompts && cal@.events.len() == 0 ==> (r matches Err(e) && e@
                == MhErrorView::NotFound("No events to remove"@))
            &&& allow_prompts && cal@.events.len() > 0 ==> r matches Ok(None)
        },
        summary is Some && target is None ==> {
            let s = summary->0;
            &&& keep_events(cal@.events, summary_is(s@)).len() == 0 ==> (r matches Err(e) && e@
                == MhErrorView::NotFound(no_summary_message(s@)))
            &&& keep_events(cal@.events, summary_is(s@)).len() > 0 ==> (r matches Ok(Some((c, d)))
                && c@ == (VCalendarView { events: keep_events(cal@.events, summary_differs(s@)), ..cal@ })
                && d@ == lines_joined(keep_events(cal@.events, summary_is(s@))))
        },
        summary is None && target is Some ==> match indices_spec(target->0@, cal@.events.len() as usize) {
            Err(m) => r matches Err(e) && e@ == MhErrorView::Parse(
                crate::error::ErrorView { message: m, line: None, property: None },
            ),
            Ok(set) => r matches Ok(Some((c, d))) && exists|v: Seq<usize>|
                #![trigger strictly_increasing(v)]
                strictly_increasing(v) && v.to_set() == set && c@ == (VCalendarView {
                    events: drop_positions(cal@.events, v),
                    ..cal@
                }) && d@ == lines_joined(picked(cal@.events, v)),
        },
{
    match (summary, target) {
        (Some(_), Some(_)) => Err(MhError::conflict("Cannot specify both --summary and index target")),
        (Some(s), None) => match remove_by_summary(cal, s) {
            Ok(x) => Ok(Some(x)),
            Err(e) => Err(e),
        },
        (None, Some(t)) => match remove_by_target(cal, t) {
            Ok(x) => Ok(Some(x)),
            Err(e) => Err(e),
        },
        (None, None) => {
            if !allow_prompts {
                return Err(MhError::invalid_input(
                    "missing required arguments: pass <INDEX> or --summary (no TTY for interactive prompts)",
                ));
            }
            if cal.events.len() == 0 {
                return Err(MhError::not_found("No events to remove"));
            }
            Ok(None)
        },
    }
}

/// The answer typed at the interactive `remove` prompt: `q` or nothing
/// cancels (`Ok(None)`); anything else is an index list.
pub fn remove_by_answer(cal: &VCalendar, answer: &str) -> (r: Result<Option<(VCalendar, String)>, MhError>)
    requires
        target_renderable(cal@.events, trim_spec(answer@)),
    ensures
        (trim_spec(answer@) == "q"@ || trim_spec(answer@).len() == 0) ==> r matches Ok(None),
        !(trim_spec(answer@) == "q"@ || trim_spec(answer@).len() == 0) ==> match indices_spec(
            trim_spec(answer@),
            cal@.events.len() as usize,
        ) {
            Err(m) => r matches Err(e) && e@ == MhErrorView::Parse(
                crate::error::ErrorView { message: m, line: None, property: None },
            ),
            Ok(set) => r matches Ok(Some((c, d))) && exists|v: Seq<usize>|
                #![trigger strictly_increasing(v)]
                strictly_increasing(v) && v.to_set() == set && c@ == (VCalendarView {
                    events: drop_positions(cal@.events, v),
                    ..cal@
                }) && d@ == lines_joined(picked(cal@.events, v)),
        },
{
    let t = trim_chars(&chars_of(answer));
    if t.len() == 0 || crate::text::chars_eq(&t, &chars_of("q")) {
        return Ok(None);
    }
    let ts = string_of(&t);
    match remove_by_target(cal, ts.as_str()) {
        Ok(x) => Ok(Some(x)),
        Err(e) => Err(e),
    }
}

} // verus!

verus! {

// ---------------------------------------------------------------------
// split
// ---------------------------------------------------------------------

/// Is `u` one of `uids`?
pub open spec fn uid_listed(uids: Seq<Seq<char>>, u: Seq<char>) -> bool {
    exists|i: int| 0 <= i < uids.len() && uids[i] == u
}

/// The events `split` keeps: those overlapping `[from, to]` (an absent
/// bound leaves that side open) and, when UIDs are given, carrying one
/// of them; the predicates combine by AND.
pub open spec fn split_keep(from: Option<Date>, to: Option<Date>, uids: Seq<Seq<char>>) -> spec_fn(
    VEventView,
) -> bool {
    |e: VEventView| overlaps(from, to)(e) && (uids.len() == 0 || uid_listed(uids, e.uid))
}

/// The error of a `split` without any predicate.
pub open spec fn split_needs_predicate() -> Seq<char> {
    "split needs at least one of --from, --to or --uid"@
}

fn uid_listed_exec(uids: &Vec<String>, u: &str) -> (r: bool)
    ensures
        r == uid_listed(uids.deep_view(), u@),
{
    let ghost us = uids.deep_view();
    let mut i: usize = 0;
    while i < uids.len()
        invariant
            i <= uids.len(),
            us == uids.deep_view(),
            forall|k: int| 0 <= k < i ==> us[k] != u@,
        decreases uids.len() - i,
    {
        assert(uids[i as int]@ == us[i as int]);
        if str_eq(uids[i].as_str(), u) {
            return true;
        }
        i = i + 1;
    }
    false
}

/// `split` on a loaded calendar: the calendar to write to the output
/// file, with the events that satisfy every predicate given, in input
/// order, and the calendar-level fields and components kept. Fails with
/// `InvalidInput` when no predicate is given.
pub fn apply_split(cal: &VCalendar, from: Option<Date>, to: Option<Date>, uids: &Vec<String>) -> (r:
    Result<VCalendar, MhError>)
    ensures
        from is None && to is None && uids.len() == 0 ==> (r matches Err(e) && e@
            == MhErrorView::InvalidInput(split_needs_predicate())),
        !(from is None && to is None && uids.len() == 0) ==> (r matches Ok(c) && c@ == (
        VCalendarView {
            events: keep_events(cal@.events, split_keep(from, to, uids.deep_view())),
            ..cal@
        })),
{
    if from.is_none() && to.is_none() && uids.len() == 0 {
        return Err(MhError::invalid_input("split needs at least one of --from, --to or --uid"));
    }
    let ghost es = events_view(cal.events@);
    let ghost keep = split_keep(from, to, uids.deep_view());
    let mut matched: Vec<VEvent> = Vec::new();
    let mut i: usize = 0;
    while i < cal.events.len()
        invariant
            i <= cal.events.len(),
            es == events_view(cal.events@),
            keep == split_keep(from, to, uids.deep_view()),
            events_view(matched@) == keep_events(es.take(i as int), keep),
        decreases cal.events.len() - i,
    {
        let ghost t = es.take(i + 1);
        assert(t.drop_last() =~= es.take(i as int));
        assert(t.last() == cal.events[i as int]@);
        let e = &cal.events[i];
        let lower = match from {
            Some(f) => f.lt(&e.dtend),
            None => true,
        };
        let upper = match to {
            Some(t) => e.dtstart.le(&t),
            None => true,
        };
        let listed = uids.len() == 0 || uid_listed_exec(uids, e.uid.as_str());
        if lower && upper && listed {
            let c = e.copy();
            let ghost before = matched@;
            matched.push(c);
            assert(events_view(matched@) =~= events_view(before).push(c@));
        }
        i = i + 1;
    }
    assert(es.take(i as int) =~= es);
    Ok(cal.with_events(matched))
}

} // verus!

verus! {

// ---------------------------------------------------------------------
// guards: the inputs each operation is defined on, as checks
// ---------------------------------------------------------------------

/// Can every event's line be rendered?
pub fn events_renderable(events: &[VEvent]) -> (r: bool)
    ensures
        r == all_renderable(events_view(events@)),
{
    let ghost ev = events_view(events@);
    let mut i: usize = 0;
    while i < events.len()
        invariant
            i <= events.len(),
            ev == events_view(events@),
            forall|k: int| 0 <= k < i ==> #[trigger] renderable(ev[k]),
        decreases events.len() - i,
    {
        assert(ev[i as int] == events@[i as int]@);
        if !event_renders(&events[i]) {
            return false;
        }
        i = i + 1;
    }
    true
}

/// Can the event's line be rendered?
fn event_renders(event: &VEvent) -> (r: bool)
    ensures
        r == renderable(event@),
{
    let d = event.dtend;
    let valid = Date::from_ymd_opt(d.year, d.month, d.day).is_some();
    valid && !d.same(&crate::date::first_date())
}

/// Can the events that `remove` reports on be rendered?
pub fn remove_renders(cal: &VCalendar, summary: Option<&str>, target: Option<&str>) -> (r: bool)
    ensures
        r == remove_renderable(cal@.events, summary, target),
{
    match (summary, target) {
        (Some(s), None) => summary_renders(cal, s),
        (None, Some(t)) => target_renders(cal, t),
        _ => true,
    }
}

fn summary_renders(cal: &VCalendar, s: &str) -> (r: bool)
    ensures
        r == summary_renderable(cal@.events, s@),
{
    let ghost es = cal@.events;
    let sv = chars_of(s);
    let mut i: usize = 0;
    while i < cal.events.len()
        invariant
            i <= cal.events.len(),
            sv@ == s@,
            es == cal@.events,
            forall|k: int| 0 <= k < i && (#[trigger] es[k]).summary == s@ ==> renderable(es[k]),
        decreases cal.events.len() - i,
    {
        assert(es[i as int] == cal.events@[i as int]@);
        if crate::text::chars_eq(&chars_of(cal.events[i].summary.as_str()), &sv) && !event_renders(
            &cal.events[i],
        ) {
            return false;
        }
        i = i + 1;
    }
    true
}

fn target_renders(cal: &VCalendar, target: &str) -> (r: bool)
    ensures
        r == target_renderable(cal@.events, target@),
{
    let ghost es = cal@.events;
    let n = cal.events.len();
    let indices = match parse_indices(target, n) {
        Ok(v) => v,
        Err(_) => {
            return true;
        },
    };
    proof {
        let parts = split_on(target@, ',');
        lemma_indices_in_range(parts, n, parts.len());
        assert forall|k: int| 0 <= k < indices@.len() implies 1 <= #[trigger] indices@[k] <= n by {
            assert(indices@.to_set().contains(indices@[k]));
        }
        assert(es.len() == n);
    }
    let mut k: usize = 0;
    while k < indices.len()
        invariant
            k <= indices.len(),
            n == cal.events.len(),
            es == cal@.events,
            forall|j: int| 0 <= j < indices@.len() ==> 1 <= #[trigger] indices@[j] <= n,
            forall|j: int| 0 <= j < k ==> renderable(es[#[trigger] indices@[j] - 1]),
            es.len() == n,
            indices_spec(target@, n) == Ok::<Set<usize>, Seq<char>>(indices@.to_set()),
        decreases indices.len() - k,
    {
        let i = indices[k];
        assert(1 <= indices@[k as int] <= n);
        assert(es[i - 1] == cal.events@[i - 1]@);
        if !event_renders(&cal.events[i - 1]) {
            assert(!target_renderable(es, target@)) by {
                if target_renderable(es, target@) {
                    let set = indices@.to_set();
                    assert(indices_spec(target@, es.len() as usize)->Ok_0 == set);
                    assert(set.contains(i));
                }
            }
            return false;
        }
        k = k + 1;
    }
    proof {
        assert forall|x: usize| #[trigger] indices@.to_set().contains(x) && 1 <= x <= es.len() implies renderable(
            es[x - 1],
        ) by {
            let j = choose|j: int| 0 <= j < indices@.len() && indices@[j] == x;
            assert(renderable(es[indices@[j] - 1]));
        }
    }
    true
}

/// Can `add` compute the end of an event from `start` to `end`?
pub fn can_add(start: &Date, end: &Option<Date>) -> (r: bool)
    ensures
        r == dtend_in_range(*start, *end),
{
    let last = crate::date::last_date();
    let start_ok = Date::from_ymd_opt(start.year, start.month, start.day).is_some() && !start.same(
        &last,
    );
    match end {
        Some(e) => {
            let end_ok = Date::from_ymd_opt(e.year, e.month, e.day).is_some();
            start_ok && end_ok && (e.lt(start) || !e.same(&last))
        },
        None => start_ok,
    }
}

fn max_index(ps: &Vec<RawProperty>) -> (r: u64)
    ensures
        r == max_source_index(props_view(ps@)),
{
    let ghost pv = props_view(ps@);
    let mut m: u64 = 0;
    let mut i: usize = 0;
    while i < ps.len()
        invariant
            i <= ps.len(),
            pv == props_view(ps@),
            m == max_source_index(pv.take(i as int)),
            m <= u32::MAX,
        decreases ps.len() - i,
    {
        let ghost t = pv.take(i + 1);
        assert(t.drop_last() =~= pv.take(i as int));
        assert(t.last() == ps[i as int]@);
        if ps[i].source_index as u64 > m {
            m = ps[i].source_index as u64;
        }
        i = i + 1;
    }
    assert(pv.take(i as int) =~= pv);
    m
}

fn has_icon_property(ps: &Vec<RawProperty>) -> (r: bool)
    ensures
        r == (icon_position(props_view(ps@)) is Some),
{
    let ghost pv = props_view(ps@);
    let mut i: usize = 0;
    while i < ps.len()
        invariant
            i <= ps.len(),
            pv == props_view(ps@),
            forall|j: int| 0 <= j < i ==> pv[j].name != icon_property(),
        decreases ps.len() - i,
    {
        assert(pv[i as int] == ps[i as int]@);
        if str_eq(ps[i].name.as_str(), crate::cli::icons::ICON_PROPERTY) {
            assert(exists|k: int| 0 <= k < pv.len() && pv[k].name == icon_property());
            return true;
        }
        i = i + 1;
    }
    assert(!exists|k: int| 0 <= k < pv.len() && pv[k].name == icon_property());
    false
}

/// Can `edit` patch event `index` (1-based) of `cal` with `patch`
/// without leaving `chrono`'s calendar or running out of property
/// numbers? An index outside the list is always accepted: `edit`
/// reports it.
pub fn can_edit(cal: &VCalendar, index: usize, patch: &EditPatch) -> (r: bool)
    ensures
        r == (1 <= index <= cal@.events.len() ==> edit_defined(cal@.events[index - 1], patch@)),
{
    if index == 0 || index > cal.events.len() {
        return true;
    }
    let e = &cal.events[index - 1];
    assert(cal@.events[index - 1] == e@);
    let start_ok = Date::from_ymd_opt(e.dtstart.year, e.dtstart.month, e.dtstart.day).is_some();
    let end_ok = Date::from_ymd_opt(e.dtend.year, e.dtend.month, e.dtend.day).is_some();
    if !start_ok || !end_ok {
        return false;
    }
    let first = crate::date::first_date();
    let last = crate::date::last_date();
    let valid = |d: &Date| -> (b: bool)
        ensures
            b == d.valid(),
        { Date::from_ymd_opt(d.year, d.month, d.day).is_some() };
    let dates_ok = match (patch.start, patch.end) {
        (Some(s), Some(x)) => valid(&s) && valid(&x) && (x.lt(&s) || !x.same(&last)),
        (Some(s), None) => {
            if !valid(&s) {
                false
            } else {
                let n = e.dtend.days_since(&e.dtstart);
                let off = s.days_since(&first);
                let span = last.days_since(&first);
                -2147483647 <= n && n <= 2147483647 && 0 <= off + n && off + n <= span
            }
        },
        (None, Some(x)) => valid(&x) && (x.lt(&e.dtstart) || !x.same(&last)),
        (None, None) => true,
    };
    if !dates_ok {
        return false;
    }
    let in_order = match (patch.start, patch.end) {
        (Some(s), Some(x)) => !x.lt(&s),
        (None, Some(x)) => !x.lt(&e.dtstart),
        _ => true,
    };
    if !in_order {
        return true;
    }
    match patch.icon {
        Some(_) => {
            let before = if patch.clear_icon {
                drop_icons(&e.unknown)
            } else {
                crate::raw::copy_props(&e.unknown)
            };
            has_icon_property(&before) || max_index(&before) < 4294967295
        },
        None => true,
    }
}

} // verus!
