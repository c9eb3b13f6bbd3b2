//! Timeline screen: the events in chronological order, one header row per
//! month or per week.
//!
//! Events are sorted by start, then end, and shown with one header per
//! group (the month, or the week by its Monday). The cursor lands on
//! event rows only; `u` switches month and week grouping and keeps the
//! previously selected event selected.

use vstd::prelude::*;
use crate::cli::display::renderable;
use crate::date::{
    days_from_monday, dashed_date_chars, dashed_date_text, min_date, padded,
    padded_chars, prev_day, prev_day_spec, weekday_index, year_chars, year_text, Date,
};
use crate::error::push_chars;
use crate::event::{copy_events, events_view, VEvent, VEventView};
use crate::query::{lemma_sort_events_permutation, sort_events, sort_events_spec, SortKey};
use crate::text::{chars_of, str_eq, string_of};
use crate::tui::keymap::Intent;
use crate::tui::screens::ScreenAction;
use crate::vcalendar::opt_view;

verus! {

/// Time unit of the view.
#[derive(Debug, Clone, Copy, PartialEq, Eq, Structural)]
pub enum Granularity {
    Month,
    Week,
}

impl Granularity {
    /// The other unit.
    pub open spec fn cycle_spec(self) -> Granularity {
        match self {
            Granularity::Month => Granularity::Week,
            Granularity::Week => Granularity::Month,
        }
    }

    /// Month and week alternate.
    pub fn cycle(self) -> (r: Granularity)
        ensures
            r == self.cycle_spec(),
    {
        match self {
            Granularity::Month => Granularity::Week,
            Granularity::Week => Granularity::Month,
        }
    }

    /// The unit's name.
    pub fn label(self) -> (r: &'static str)
        ensures
            r@ == match self {
                Granularity::Month => "month"@,
                Granularity::Week => "week"@,
            },
    {
        match self {
            Granularity::Month => "month",
            Granularity::Week => "week",
        }
    }
}

/// English name of month `m` (`%B`).
pub open spec fn month_name(m: int) -> Seq<char> {
    if m == 1 {
        "January"@
    } else if m == 2 {
        "February"@
    } else if m == 3 {
        "March"@
    } else if m == 4 {
        "April"@
    } else if m == 5 {
        "May"@
    } else if m == 6 {
        "June"@
    } else if m == 7 {
        "July"@
    } else if m == 8 {
        "August"@
    } else if m == 9 {
        "September"@
    } else if m == 10 {
        "October"@
    } else if m == 11 {
        "November"@
    } else {
        "December"@
    }
}

/// The Monday of the week of `d`: the valid date whose day number is
/// `weekday_index(d)` less than that of `d`.
pub open spec fn monday_of_week(d: Date) -> Date {
    choose|m: Date| m.valid() && m.day_number() == d.day_number() - weekday_index(d)
}

/// Does the Monday of the week of `d` lie in `chrono`'s calendar?
pub open spec fn monday_in_range(d: Date) -> bool {
    d.day_number() - weekday_index(d) >= min_date().day_number()
}

/// The header of the group a start date falls in: `%Y-%m  %B %Y` for a
/// month, `Week of %Y-%m-%d` (the Monday) for a week.
pub open spec fn group_label(d: Date, g: Granularity) -> Seq<char> {
    match g {
        Granularity::Month => year_text(d.year as int) + seq!['-'] + padded(d.month as nat, 2)
            + "  "@ + month_name(d.month as int) + seq![' '] + year_text(d.year as int),
        Granularity::Week => "Week of "@ + dashed_date_text(monday_of_week(d)),
    }
}

/// `%m-%d`.
pub open spec fn month_day_text(d: Date) -> Seq<char> {
    padded(d.month as nat, 2) + seq!['-'] + padded(d.day as nat, 2)
}

/// The row text of an event: its inclusive date span as `%m-%d` (one
/// date for a one-day event) and its summary, indented by two spaces.
pub open spec fn inline_text(e: VEventView) -> Seq<char> {
    let end = prev_day_spec(e.dtend);
    if e.dtstart == end {
        "  "@ + month_day_text(e.dtstart) + "  "@ + e.summary
    } else {
        "  "@ + month_day_text(e.dtstart) + " ─ "@ + month_day_text(end) + "  "@ + e.summary
    }
}

/// A row of the timeline, as the specification sees it.
pub enum RowView {
    Header(Seq<char>),
    Event { uid: Seq<char>, text: Seq<char> },
}

/// A row of the timeline.
pub enum Row {
    Header(String),
    Event { uid: String, text: String },
}

impl View for Row {
    type V = RowView;

    open spec fn view(&self) -> RowView {
        match self {
            Row::Header(h) => RowView::Header(h@),
            Row::Event { uid, text } => RowView::Event { uid: uid@, text: text@ },
        }
    }
}

/// Does event `k` open a new group?
pub open spec fn opens_group(es: Seq<VEventView>, k: int, g: Granularity) -> bool {
    k == 0 || group_label(es[k - 1].dtstart, g) != group_label(es[k].dtstart, g)
}

/// The rows of a timeline over `es`: each event, preceded by a header
/// whenever its group differs from the previous event's.
pub open spec fn rows_spec(es: Seq<VEventView>, g: Granularity) -> Seq<RowView>
    decreases es.len(),
{
    if es.len() == 0 {
        seq![]
    } else {
        let k = es.len() - 1;
        let head = if opens_group(es, k, g) {
            seq![RowView::Header(group_label(es[k].dtstart, g))]
        } else {
            seq![]
        };
        rows_spec(es.drop_last(), g) + head + seq![
            RowView::Event { uid: es[k].uid, text: inline_text(es[k]) },
        ]
    }
}

/// The position in `rows_spec(es, g)` of each event's row.
pub open spec fn event_rows_spec(es: Seq<VEventView>, g: Granularity) -> Seq<usize>
    decreases es.len(),
{
    if es.len() == 0 {
        seq![]
    } else {
        event_rows_spec(es.drop_last(), g).push((rows_spec(es, g).len() - 1) as usize)
    }
}

/// Can every event of `es` be grouped by `g` and rendered?
pub open spec fn groupable(es: Seq<VEventView>, g: Granularity) -> bool {
    forall|i: int|
        0 <= i < es.len() ==> renderable(#[trigger] es[i]) && es[i].dtstart.valid() && (g is Week
            ==> monday_in_range(es[i].dtstart))
}

/// Mathematical model of a timeline screen.
pub struct TimelineView {
    /// The events, sorted by start then end.
    pub events: Seq<VEventView>,
    pub granularity: Granularity,
    /// Index of the selected event (across all groups).
    pub selected_event: Option<nat>,
    pub file_label: Seq<char>,
    pub transient_status: Option<Seq<char>>,
}

/// The rows of the timeline on display.
pub open spec fn timeline_rows(v: TimelineView) -> Seq<RowView> {
    rows_spec(v.events, v.granularity)
}

/// The first event with uid `u`, if any.
pub open spec fn first_with_uid(es: Seq<VEventView>, u: Seq<char>) -> Option<nat> {
    if exists|i: int| 0 <= i < es.len() && es[i].uid == u {
        let i = choose|i: int|
            0 <= i < es.len() && es[i].uid == u && forall|j: int| 0 <= j < i ==> es[j].uid != u;
        Some(i as nat)
    } else {
        None
    }
}

/// The selected event after regrouping: the first event with the uid of
/// the one selected before, else the first event, else none.
pub open spec fn reselected(v: TimelineView) -> Option<nat> {
    let found = match v.selected_event {
        Some(i) => first_with_uid(v.events, v.events[i as int].uid),
        None => None,
    };
    match found {
        Some(i) => Some(i),
        None => if v.events.len() > 0 {
            Some(0)
        } else {
            None
        },
    }
}

/// The state after an intent.
pub open spec fn timeline_step(v: TimelineView, intent: Intent) -> TimelineView {
    let n = v.events.len();
    let w = match intent {
        Intent::NavDown => match v.selected_event {
            Some(s) => TimelineView {
                selected_event: Some(if s + 1 < n {
                    s + 1
                } else {
                    (n - 1) as nat
                }),
                ..v
            },
            None => v,
        },
        Intent::NavUp => match v.selected_event {
            Some(s) => TimelineView {
                selected_event: Some(if s > 0 {
                    (s - 1) as nat
                } else {
                    0
                }),
                ..v
            },
            None => v,
        },
        Intent::NavTop => if n > 0 {
            TimelineView { selected_event: Some(0), ..v }
        } else {
            v
        },
        Intent::NavBottom => if n > 0 {
            TimelineView { selected_event: Some((n - 1) as nat), ..v }
        } else {
            v
        },
        Intent::CycleGranularity => TimelineView {
            granularity: v.granularity.cycle_spec(),
            selected_event: reselected(v),
            ..v
        },
        _ => v,
    };
    TimelineView { transient_status: None, ..w }
}

/// The action of an intent on the timeline.
pub open spec fn timeline_action(intent: Intent) -> ScreenAction {
    match intent {
        Intent::Quit | Intent::ForceQuit => ScreenAction::Quit,
        Intent::OpenHelp => ScreenAction::OpenHelp,
        _ => ScreenAction::Continue,
    }
}

/// Can the timeline handle `intent`? Switching to week grouping needs
/// the Monday of every event's week.
pub open spec fn timeline_can_handle(v: TimelineView, intent: Intent) -> bool {
    intent is CycleGranularity ==> groupable(v.events, v.granularity.cycle_spec())
}

fn month_name_exec(m: u32) -> (r: &'static str)
    ensures
        r@ == month_name(m as int),
{
    if m == 1 {
        "January"
    } else if m == 2 {
        "February"
    } else if m == 3 {
        "March"
    } else if m == 4 {
        "April"
    } else if m == 5 {
        "May"
    } else if m == 6 {
        "June"
    } else if m == 7 {
        "July"
    } else if m == 8 {
        "August"
    } else if m == 9 {
        "September"
    } else if m == 10 {
        "October"
    } else if m == 11 {
        "November"
    } else {
        "December"
    }
}

fn month_day_chars(d: &Date) -> (r: Vec<char>)
    ensures
        r@ == month_day_text(*d),
{
    let mut out = padded_chars(d.month as u64, 2);
    out.push('-');
    push_chars(&mut out, &padded_chars(d.day as u64, 2));
    out
}

/// The header of the group a start date falls in.
pub fn group_label_exec(d: &Date, g: Granularity) -> (r: String)
    requires
        d.valid(),
        g is Week ==> monday_in_range(*d),
    ensures
        r@ == group_label(*d, g),
{
    match g {
        Granularity::Month => {
            let mut out = year_chars(d.year);
            out.push('-');
            push_chars(&mut out, &padded_chars(d.month as u64, 2));
            push_chars(&mut out, &chars_of("  "));
            push_chars(&mut out, &chars_of(month_name_exec(d.month)));
            out.push(' ');
            push_chars(&mut out, &year_chars(d.year));
            string_of(&out)
        },
        Granularity::Week => {
            let wd = days_from_monday(d);
            let monday = match d.sub_days(wd as u64) {
                Some(m) => m,
                None => {
                    return string_of(&Vec::new());
                },
            };
            proof {
                let m = monday_of_week(*d);
                assert(m.valid() && m.day_number() == d.day_number() - weekday_index(*d));
                crate::date::lemma_day_number_injective(monday, m);
            }
            let mut out = chars_of("Week of ");
            push_chars(&mut out, &dashed_date_chars(&monday));
            string_of(&out)
        },
    }
}

/// The row text of an event.
pub fn format_event_inline(e: &VEvent) -> (r: String)
    requires
        renderable(e@),
    ensures
        r@ == inline_text(e@),
{
    let end = match prev_day(&e.dtend) {
        Some(x) => x,
        None => {
            return string_of(&Vec::new());
        },
    };
    let mut out = chars_of("  ");
    push_chars(&mut out, &month_day_chars(&e.dtstart));
    if !e.dtstart.same(&end) {
        push_chars(&mut out, &chars_of(" ─ "));
        push_chars(&mut out, &month_day_chars(&end));
    }
    push_chars(&mut out, &chars_of("  "));
    push_chars(&mut out, &chars_of(e.summary.as_str()));
    string_of(&out)
}

/// Views of a list of rows.
pub open spec fn rows_view(v: Seq<Row>) -> Seq<RowView> {
    v.map_values(|x: Row| x@)
}

proof fn lemma_rows_view_push(v: Seq<Row>, x: Row)
    ensures
        rows_view(v.push(x)) == rows_view(v).push(x@),
{
    assert(rows_view(v.push(x)) =~= rows_view(v).push(x@));
}

/// One more event: its rows are those before, a header when it opens a
/// group, and its own row.
proof fn lemma_rows_step(es: Seq<VEventView>, i: int, g: Granularity)
    requires
        0 <= i < es.len(),
    ensures
        ({
            let t = es.take(i + 1);
            let head = if opens_group(es, i, g) {
                seq![RowView::Header(group_label(es[i].dtstart, g))]
            } else {
                seq![]
            };
            &&& rows_spec(t, g) == rows_spec(es.take(i), g) + head + seq![
                RowView::Event { uid: es[i].uid, text: inline_text(es[i]) },
            ]
            &&& event_rows_spec(t, g) == event_rows_spec(es.take(i), g).push(
                (rows_spec(t, g).len() - 1) as usize,
            )
        }),
{
    let t = es.take(i + 1);
    assert(t.drop_last() =~= es.take(i));
    assert(t[i] == es[i]);
    if i > 0 {
        assert(t[i - 1] == es[i - 1]);
    }
    assert(opens_group(t, i, g) == opens_group(es, i, g));
}

/// The rows of a timeline over `events` and the position of each
/// event's row.
#[verifier::rlimit(30)]
pub fn build_rows(events: &Vec<VEvent>, g: Granularity) -> (r: (Vec<Row>, Vec<usize>))
    requires
        groupable(events_view(events@), g),
        events.len() < usize::MAX / 2,
    ensures
        rows_view(r.0@) == rows_spec(events_view(events@), g),
        r.1@ == event_rows_spec(events_view(events@), g),
{
    let ghost es = events_view(events@);
    let mut rows: Vec<Row> = Vec::new();
    let mut idx: Vec<usize> = Vec::new();
    let mut current: Option<String> = None;
    let mut i: usize = 0;
    assert(rows_view(rows@) =~= rows_spec(es.take(0), g));
    while i < events.len()
        invariant
            i <= events.len(),
            events.len() < usize::MAX / 2,
            es == events_view(events@),
            groupable(es, g),
            rows_view(rows@) == rows_spec(es.take(i as int), g),
            idx@ == event_rows_spec(es.take(i as int), g),
            rows@.len() <= 2 * i,
            i > 0 ==> (current matches Some(c) && c@ == group_label(es[i - 1].dtstart, g)),
            i == 0 ==> current is None,
        decreases events.len() - i,
    {
        proof {
            lemma_rows_step(es, i as int, g);
        }
        assert(es[i as int] == events@[i as int]@);
        assert(renderable(es[i as int]));
        let group = group_label_exec(&events[i].dtstart, g);
        let opens = match &current {
            Some(c) => !str_eq(c.as_str(), group.as_str()),
            None => true,
        };
        assert(opens == opens_group(es, i as int, g));
        if opens {
            let h = Row::Header(string_of(&chars_of(group.as_str())));
            proof {
                lemma_rows_view_push(rows@, h);
            }
            rows.push(h);
        }
        let text = format_event_inline(&events[i]);
        idx.push(rows.len());
        let e = Row::Event { uid: string_of(&chars_of(events[i].uid.as_str())), text };
        proof {
            lemma_rows_view_push(rows@, e);
        }
        rows.push(e);
        assert(rows_view(rows@) =~= rows_spec(es.take(i + 1), g));
        current = Some(group);
        i = i + 1;
    }
    assert(es.take(i as int) =~= es);
    (rows, idx)
}

/// The timeline screen.
pub struct TimelineScreen {
    events: Vec<VEvent>,
    rows: Vec<Row>,
    event_row_indices: Vec<usize>,
    selected_event: Option<usize>,
    file_label: String,
    granularity: Granularity,
    transient_status: Option<String>,
}

impl View for TimelineScreen {
    type V = TimelineView;

    closed spec fn view(&self) -> TimelineView {
        TimelineView {
            events: events_view(self.events@),
            granularity: self.granularity,
            selected_event: match self.selected_event {
                Some(s) => Some(s as nat),
                None => None,
            },
            file_label: self.file_label@,
            transient_status: opt_view(self.transient_status),
        }
    }
}

/// `rows_spec` holds one row per event plus the headers, and each event's
/// row position points at that event's row.
pub proof fn lemma_event_rows_len(es: Seq<VEventView>, g: Granularity)
    requires
        es.len() < usize::MAX / 2,
    ensures
        event_rows_spec(es, g).len() == es.len(),
        es.len() <= rows_spec(es, g).len() <= 2 * es.len(),
        forall|i: int|
            0 <= i < es.len() ==> #[trigger] event_rows_spec(es, g)[i] < rows_spec(es, g).len(),
        forall|i: int|
            0 <= i < es.len() ==> rows_spec(es, g)[#[trigger] event_rows_spec(es, g)[i] as int]
                == (RowView::Event { uid: es[i].uid, text: inline_text(es[i]) }),
    decreases es.len(),
{
    if es.len() > 0 {
        let p = es.drop_last();
        lemma_event_rows_len(p, g);
        let k = es.len() - 1;
        let head = if opens_group(es, k, g) {
            seq![RowView::Header(group_label(es[k].dtstart, g))]
        } else {
            seq![]
        };
        let ev = RowView::Event { uid: es[k].uid, text: inline_text(es[k]) };
        assert(rows_spec(es, g) == rows_spec(p, g) + head + seq![ev]);
        assert forall|i: int| 0 <= i < es.len() implies #[trigger] event_rows_spec(es, g)[i]
            < rows_spec(es, g).len() && rows_spec(es, g)[event_rows_spec(es, g)[i] as int] == (
        RowView::Event { uid: es[i].uid, text: inline_text(es[i]) }) by {
            if i < k {
                assert(p[i] == es[i]);
                assert(event_rows_spec(es, g)[i] == event_rows_spec(p, g)[i]);
                assert(rows_spec(es, g)[event_rows_spec(p, g)[i] as int] == rows_spec(
                    p,
                    g,
                )[event_rows_spec(p, g)[i] as int]);
            } else {
                assert(event_rows_spec(es, g)[i] == rows_spec(es, g).len() - 1);
            }
        }
    }
}

impl TimelineScreen {
    /// Rows and row positions match the events and grouping; the
    /// selection is an event.
    #[verifier::type_invariant]
    spec fn well_formed(&self) -> bool {
        &&& self.events.len() < usize::MAX / 2
        &&& groupable(events_view(self.events@), self.granularity)
        &&& rows_view(self.rows@) == rows_spec(
            events_view(self.events@),
            self.granularity,
        )
        &&& self.event_row_indices@ == event_rows_spec(
            events_view(self.events@),
            self.granularity,
        )
        &&& self.selected_event matches Some(s) ==> s < self.events.len()
    }

    /// A timeline over `events`, sorted by start then end, grouped by
    /// month, the first event selected.
    pub fn from_events(events: &[VEvent], file_label: &str) -> (r: TimelineScreen)
        requires
            events.len() < usize::MAX / 2,
            forall|i: int|
                0 <= i < events.len() ==> renderable(#[trigger] events[i]@) && events[i]@.dtstart.valid(),
        ensures
            r@.events == sort_events_spec(
                events_view(events@),
                seq![SortKey::Start, SortKey::End],
                false,
            ),
            r@.granularity == Granularity::Month,
            r@.selected_event == (if events.len() > 0 {
                Some(0nat)
            } else {
                None
            }),
            r@.file_label == file_label@,
            r@.transient_status is None,
    {
        let mut keys: Vec<SortKey> = Vec::new();
        keys.push(SortKey::Start);
        keys.push(SortKey::End);
        assert(keys@ =~= seq![SortKey::Start, SortKey::End]);
        let sorted = sort_events(events, keys.as_slice(), false);
        let ghost es = events_view(events@);
        let ghost ss = events_view(sorted@);
        proof {
            lemma_sort_events_permutation(es, keys@, false);
            assert forall|i: int| 0 <= i < ss.len() implies renderable(#[trigger] ss[i])
                && ss[i].dtstart.valid() by {
                assert(ss.contains(ss[i]));
                assert(es.contains(ss[i]));
                let j = choose|j: int| 0 <= j < es.len() && es[j] == ss[i];
                assert(es[j] == events@[j]@);
            }
        }
        let (rows, event_row_indices) = build_rows(&sorted, Granularity::Month);
        proof {
            lemma_event_rows_len(ss, Granularity::Month);
        }
        let selected_event = if event_row_indices.len() > 0 {
            Some(0)
        } else {
            None
        };
        TimelineScreen {
            events: sorted,
            rows,
            event_row_indices,
            selected_event,
            file_label: string_of(&chars_of(file_label)),
            granularity: Granularity::Month,
            transient_status: None,
        }
    }

    /// Number of events.
    pub fn event_count(&self) -> (r: usize)
        ensures
            r == self@.events.len(),
    {
        proof {
            use_type_invariant(self);
            lemma_event_rows_len(events_view(self.events@), self.granularity);
        }
        self.event_row_indices.len()
    }

    /// Index of the selected event, across all groups.
    pub fn selected_event_index(&self) -> (r: Option<usize>)
        ensures
            r matches Some(s) ==> self@.selected_event == Some(s as nat),
            r is None <==> self@.selected_event is None,
    {
        self.selected_event
    }

    /// Position of the selected event's row among all rows.
    pub fn selected_row(&self) -> (r: Option<usize>)
        ensures
            match self@.selected_event {
                Some(s) => r == Some(event_rows_spec(self@.events, self@.granularity)[s as int]),
                None => r is None,
            },
    {
        proof {
            use_type_invariant(self);
            lemma_event_rows_len(events_view(self.events@), self.granularity);
        }
        match self.selected_event {
            Some(s) => Some(self.event_row_indices[s]),
            None => None,
        }
    }

    pub fn granularity(&self) -> (r: Granularity)
        ensures
            r == self@.granularity,
    {
        self.granularity
    }

    /// The rows on display.
    pub fn rows(&self) -> (r: &Vec<Row>)
        ensures
            rows_view(r@) == timeline_rows(self@),
    {
        proof {
            use_type_invariant(self);
        }
        &self.rows
    }

    pub fn file_label(&self) -> (r: &str)
        ensures
            r@ == self@.file_label,
    {
        self.file_label.as_str()
    }

    /// The one-shot status message, if any.
    pub fn transient_status(&self) -> (r: Option<&str>)
        ensures
            r matches Some(m) ==> self@.transient_status == Some(m@),
            r is None <==> self@.transient_status is None,
    {
        match &self.transient_status {
            Some(m) => Some(m.as_str()),
            None => None,
        }
    }

    /// Show `msg` on the status bar until the next intent.
    pub fn set_transient_status(&mut self, msg: &str)
        ensures
            final(self)@ == (TimelineView { transient_status: Some(msg@), ..old(self)@ }),
    {
        proof {
            use_type_invariant(&*self);
        }
        self.transient_status = Some(string_of(&chars_of(msg)));
    }

    /// Can `handle(intent)` regroup every event?
    pub fn can_handle(&self, intent: Intent) -> (r: bool)
        ensures
            r == timeline_can_handle(self@, intent),
    {
        proof {
            use_type_invariant(self);
        }
        match intent {
            Intent::CycleGranularity => {
                let target = self.granularity.cycle();
                let ghost es = events_view(self.events@);
                let mut i: usize = 0;
                while i < self.events.len()
                    invariant
                        i <= self.events.len(),
                        es == events_view(self.events@),
                        groupable(es, self.granularity),
                        intent is CycleGranularity,
                        target == self@.granularity.cycle_spec(),
                        forall|k: int|
                            0 <= k < i ==> renderable(#[trigger] es[k]) && (target is Week
                                ==> monday_in_range(es[k].dtstart)),
                    decreases self.events.len() - i,
                {
                    assert(renderable(es[i as int]));
                    assert(es[i as int] == self.events@[i as int]@);
                    match target {
                        Granularity::Week => {
                            let d = self.events[i].dtstart;
                            let off = d.days_since(&crate::date::first_date());
                            if off < days_from_monday(&d) as i64 {
                                assert(!monday_in_range(es[i as int].dtstart));
                                assert(!groupable(es, target)) by {
                                    if groupable(es, target) {
                                        assert(renderable(es[i as int]));
                                    }
                                }
                                return false;
                            }
                        },
                        Granularity::Month => {},
                    }
                    i = i + 1;
                }
                true
            },
            _ => true,
        }
    }

    fn regroup(&mut self, g: Granularity)
        requires
            groupable(old(self)@.events, g),
        ensures
            final(self)@ == (TimelineView {
                granularity: g,
                selected_event: reselected(old(self)@),
                ..old(self)@
            }),
    {
        proof {
            use_type_invariant(&*self);
        }
        let ghost es = events_view(self.events@);
        let previous_uid: Option<String> = match self.selected_event {
            Some(s) => Some(string_of(&chars_of(self.events[s].uid.as_str()))),
            None => None,
        };
        let (rows, idx) = build_rows(&self.events, g);
        proof {
            lemma_event_rows_len(es, g);
        }
        let mut found: Option<usize> = None;
        match &previous_uid {
            Some(u) => {
                let mut i: usize = 0;
                while i < self.events.len() && found.is_none()
                    invariant
                        i <= self.events.len(),
                        es == events_view(self.events@),
                        found is None ==> forall|k: int| 0 <= k < i ==> es[k].uid != u@,
                        found matches Some(f) ==> f < i && es[f as int].uid == u@ && forall|k: int|
                            0 <= k < f ==> es[k].uid != u@,
                    decreases self.events.len() - i,
                {
                    assert(es[i as int] == self.events@[i as int]@);
                    if str_eq(self.events[i].uid.as_str(), u.as_str()) {
                        found = Some(i);
                    }
                    i = i + 1;
                }
                proof {
                    match found {
                        Some(f) => {
                            assert(0 <= f < es.len() && es[f as int].uid == u@ && forall|k: int|
                                0 <= k < f ==> es[k].uid != u@);
                            let c = choose|j: int|
                                0 <= j < es.len() && es[j].uid == u@ && forall|k: int|
                                    0 <= k < j ==> es[k].uid != u@;
                            if c < f {
                                assert(es[c].uid != u@);
                            } else if c > f {
                                assert(es[f as int].uid != u@);
                            }
                            assert(first_with_uid(es, u@) == Some(f as nat));
                        },
                        None => {
                            assert(first_with_uid(es, u@) is None);
                        },
                    }
                }
            },
            None => {},
        }
        let n = self.events.len();
        let selected = match found {
            Some(f) => Some(f),
            None => if n > 0 {
                Some(0)
            } else {
                None
            },
        };
        let events = copy_events(&self.events);
        let file_label = string_of(&chars_of(self.file_label.as_str()));
        let transient_status = match &self.transient_status {
            Some(m) => Some(string_of(&chars_of(m.as_str()))),
            None => None,
        };
        *self = TimelineScreen {
            events,
            rows,
            event_row_indices: idx,
            selected_event: selected,
            file_label,
            granularity: g,
            transient_status,
        };
    }

    /// React to an intent: `q` quits, `?` opens help, `j`/`k`/`g`/`G`
    /// move between events, `u` switches month and week grouping and
    /// keeps the selected event selected.
    pub fn handle(&mut self, intent: Intent) -> (r: ScreenAction)
        requires
            timeline_can_handle(old(self)@, intent),
        ensures
            r == timeline_action(intent),
            final(self)@ == timeline_step(old(self)@, intent),
    {
        proof {
            use_type_invariant(&*self);
        }
        self.transient_status = None;
        let n = self.events.len();
        match intent {
            Intent::Quit | Intent::ForceQuit => ScreenAction::Quit,
            Intent::OpenHelp => ScreenAction::OpenHelp,
            Intent::NavDown => {
                if let Some(s) = self.selected_event {
                    self.selected_event = Some(
                        if s + 1 < n {
                            s + 1
                        } else {
                            n - 1
                        },
                    );
                }
                ScreenAction::Continue
            },
            Intent::NavUp => {
                if let Some(s) = self.selected_event {
                    self.selected_event = Some(
                        if s > 0 {
                            s - 1
                        } else {
                            0
                        },
                    );
                }
                ScreenAction::Continue
            },
            Intent::NavTop => {
                if n > 0 {
                    self.selected_event = Some(0);
                }
                ScreenAction::Continue
            },
            Intent::NavBottom => {
                if n > 0 {
                    self.selected_event = Some(n - 1);
                }
                ScreenAction::Continue
            },
            Intent::CycleGranularity => {
                let g = self.granularity.cycle();
                self.regroup(g);
                ScreenAction::Continue
            },
            _ => ScreenAction::Continue,
        }
    }
}

/// Switching month and week grouping keeps the selected event (by uid)
/// selected when uids are distinct, and switching twice restores the
/// grouping.
pub proof fn lemma_regroup_keeps_selection(v: TimelineView)
    requires
        (v.selected_event matches Some(s) && s < v.events.len()),
        forall|i: int, j: int|
            0 <= i < j < v.events.len() ==> v.events[i].uid != v.events[j].uid,
    ensures
        timeline_step(v, Intent::CycleGranularity).selected_event == v.selected_event,
        timeline_step(timeline_step(v, Intent::CycleGranularity), Intent::CycleGranularity).granularity
            == v.granularity,
{
    let s = v.selected_event->0;
    let u = v.events[s as int].uid;
    assert(exists|i: int| 0 <= i < v.events.len() && v.events[i].uid == u);
    let c = choose|j: int|
        0 <= j < v.events.len() && v.events[j].uid == u && forall|k: int|
            0 <= k < j ==> v.events[k].uid != u;
    assert(forall|k: int| 0 <= k < s ==> v.events[k].uid != u);
    if c < s {
        assert(v.events[c].uid != v.events[s as int].uid);
    } else if c > s {
    }
}

} // verus!

verus! {

/// Can every event be shown on the timeline (a valid start, and an end
/// with a day before it)?
pub fn all_displayable(events: &[VEvent]) -> (r: bool)
    ensures
        r == forall|i: int|
            0 <= i < events.len() ==> renderable(#[trigger] events[i]@) && events[i]@.dtstart.valid(),
{
    let mut i: usize = 0;
    while i < events.len()
        invariant
            i <= events.len(),
            forall|k: int|
                0 <= k < i ==> renderable(#[trigger] events[k]@) && events[k]@.dtstart.valid(),
        decreases events.len() - i,
    {
        let e = &events[i];
        let start_ok = Date::from_ymd_opt(e.dtstart.year, e.dtstart.month, e.dtstart.day).is_some();
        let end_ok = Date::from_ymd_opt(e.dtend.year, e.dtend.month, e.dtend.day).is_some();
        let first = crate::date::first_date();
        if !start_ok || !end_ok || e.dtend.same(&first) {
            assert(!(renderable(events[i as int]@) && events[i as int]@.dtstart.valid()));
            return false;
        }
        i = i + 1;
    }
    true
}

} // verus!
