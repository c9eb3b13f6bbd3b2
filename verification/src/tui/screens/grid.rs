//! Grid screen: a calendar grid with a date cursor.
//!
//! Month granularity (default) shows the cursor's month as six weeks of
//! seven days, Monday first; week granularity shows the cursor's week.
//! `h`/`l` step a day, `j`/`k` a week, `g`/`G` jump to the first or last
//! day of the month (or week), `u` switches month and week.

use vstd::prelude::*;
use crate::date::{
    add_signed_days, days_from_monday, decimal, decimal_chars, days_in_month, first_date, last_date, max_date, min_date,
    next_day, next_day_spec, prev_day, prev_day_spec, today_local, weekday_index, Date, MAX_YEAR,
};
use crate::event::{events_view, VEvent, VEventView};
use crate::text::{chars_of, string_of};
use crate::tui::keymap::Intent;
use crate::tui::screens::ScreenAction;
use crate::vcalendar::opt_view;

verus! {

/// Time unit of the view.
#[derive(Debug, Clone, Copy, PartialEq, Eq, Structural)]
pub enum Granularity {
    Month,
    Week,
}

impl Granularity {
    /// The other unit.
    pub open spec fn cycle_spec(self) -> Granularity {
        match self {
            Granularity::Month => Granularity::Week,
            Granularity::Week => Granularity::Month,
        }
    }

    /// Month and week alternate.
    pub fn cycle(self) -> (r: Granularity)
        ensures
            r == self.cycle_spec(),
    {
        match self {
            Granularity::Month => Granularity::Week,
            Granularity::Week => Granularity::Month,
        }
    }

    /// The unit's name.
    pub fn label(self) -> (r: &'static str)
        ensures
            r@ == match self {
                Granularity::Month => "month"@,
                Granularity::Week => "week"@,
            },
    {
        match self {
            Granularity::Month => "month",
            Granularity::Week => "week",
        }
    }
}

/// Does event `e` cover day `d`? (`DTEND` is exclusive.)
pub open spec fn covers(e: VEventView, d: Date) -> bool {
    !d.before(e.dtstart) && d.before(e.dtend)
}

/// Does any event cover day `d`?
pub open spec fn has_event_on(es: Seq<VEventView>, d: Date) -> bool {
    exists|i: int| 0 <= i < es.len() && covers(#[trigger] es[i], d)
}

/// The summaries of the events of `es` covering day `d`, in order.
pub open spec fn summaries_covering(es: Seq<VEventView>, d: Date) -> Seq<Seq<char>>
    decreases es.len(),
{
    if es.len() == 0 {
        seq![]
    } else if covers(es.last(), d) {
        summaries_covering(es.drop_last(), d).push(es.last().summary)
    } else {
        summaries_covering(es.drop_last(), d)
    }
}

/// The summaries listed for day `d` are exactly those of the events with
/// `DTSTART <= d < DTEND` (`DTEND` exclusive): the list is empty exactly
/// when no event starts on or before `d` and ends after it, every listed
/// summary is that of such an event, and every such event is listed.
pub proof fn lemma_summaries_covering_exact(es: Seq<VEventView>, d: Date)
    ensures
        summaries_covering(es, d).len() == 0 <==> forall|i: int|
            0 <= i < es.len() ==> !(!d.before((#[trigger] es[i]).dtstart) && d.before(es[i].dtend)),
        forall|k: int|
            #![trigger summaries_covering(es, d)[k]]
            0 <= k < summaries_covering(es, d).len() ==> exists|i: int|
                0 <= i < es.len() && !d.before((#[trigger] es[i]).dtstart) && d.before(es[i].dtend)
                    && es[i].summary == summaries_covering(es, d)[k],
        forall|i: int|
            0 <= i < es.len() && !d.before((#[trigger] es[i]).dtstart) && d.before(es[i].dtend)
                ==> summaries_covering(es, d).contains(es[i].summary),
    decreases es.len(),
{
    if es.len() > 0 {
        let init = es.drop_last();
        lemma_summaries_covering_exact(init, d);
        let prev = summaries_covering(init, d);
        let cur = summaries_covering(es, d);
        let last = es.len() - 1;
        assert(es.last() == es[last]);
        assert forall|i: int| 0 <= i < init.len() implies init[i] == es[i] by {}
        if !d.before(es.last().dtstart) && d.before(es.last().dtend) {
            assert(cur == prev.push(es.last().summary));
            assert forall|k: int| #![trigger cur[k]] 0 <= k < cur.len() implies exists|i: int|
                0 <= i < es.len() && !d.before((#[trigger] es[i]).dtstart) && d.before(es[i].dtend)
                    && es[i].summary == cur[k] by {
                if k < prev.len() {
                    assert(cur[k] == prev[k]);
                    let i = choose|i: int|
                        0 <= i < init.len() && !d.before((#[trigger] init[i]).dtstart) && d.before(
                            init[i].dtend,
                        ) && init[i].summary == prev[k];
                    assert(es[i] == init[i]);
                } else {
                    assert(cur[k] == es[last].summary);
                }
            }
            assert forall|i: int|
                0 <= i < es.len() && !d.before((#[trigger] es[i]).dtstart) && d.before(es[i].dtend)
                    implies cur.contains(es[i].summary) by {
                if i < last {
                    assert(init[i] == es[i]);
                    assert(prev.contains(es[i].summary));
                    let k = choose|k: int| 0 <= k < prev.len() && prev[k] == es[i].summary;
                    assert(cur[k] == prev[k]);
                } else {
                    assert(cur[prev.len() as int] == es[i].summary);
                }
            }
        } else {
            assert(cur == prev);
            assert forall|k: int| #![trigger cur[k]] 0 <= k < cur.len() implies exists|i: int|
                0 <= i < es.len() && !d.before((#[trigger] es[i]).dtstart) && d.before(es[i].dtend)
                    && es[i].summary == cur[k] by {
                let i = choose|i: int|
                    0 <= i < init.len() && !d.before((#[trigger] init[i]).dtstart) && d.before(
                        init[i].dtend,
                    ) && init[i].summary == prev[k];
                assert(es[i] == init[i]);
            }
            assert forall|i: int|
                0 <= i < es.len() && !d.before((#[trigger] es[i]).dtstart) && d.before(es[i].dtend)
                    implies cur.contains(es[i].summary) by {
                assert(i < last);
                assert(init[i] == es[i]);
            }
            if cur.len() == 0 {
                assert forall|i: int| 0 <= i < es.len() implies !(!d.before(
                    (#[trigger] es[i]).dtstart,
                ) && d.before(es[i].dtend)) by {
                    if i < last {
                        assert(init[i] == es[i]);
                    }
                }
            }
        }
        if cur.len() > 0 {
            let i = choose|i: int|
                0 <= i < es.len() && !d.before((#[trigger] es[i]).dtstart) && d.before(es[i].dtend)
                    && es[i].summary == cur[0];
        }
    }
}

/// The first day of the month of `d`.
pub open spec fn first_of_month_spec(d: Date) -> Date {
    Date { day: 1, ..d }
}

/// The last day of the month of `d`.
pub open spec fn last_of_month_spec(d: Date) -> Date {
    Date { day: days_in_month(d.year as int, d.month as int) as u32, ..d }
}

/// Days from the first day `chrono` represents to `d`.
pub open spec fn offset(d: Date) -> int {
    d.day_number() - min_date().day_number()
}

/// Is `day_number` a day `chrono` represents?
pub open spec fn in_range(day_number: int) -> bool {
    min_date().day_number() <= day_number <= max_date().day_number()
}

/// Mathematical model of a grid screen.
pub struct GridView {
    pub events: Seq<VEventView>,
    pub cursor: Date,
    pub granularity: Granularity,
    pub file_label: Seq<char>,
    pub transient_status: Option<Seq<char>>,
}

/// Can the grid handle `intent` without moving the cursor out of the
/// calendar `chrono` represents?
pub open spec fn grid_can_handle(v: GridView, intent: Intent) -> bool {
    let c = v.cursor;
    let monday = c.day_number() - weekday_index(c);
    match intent {
        Intent::NavLeft => c != min_date(),
        Intent::NavRight => c != max_date(),
        Intent::NavUp => in_range(c.day_number() - 7),
        Intent::NavDown => in_range(c.day_number() + 7),
        Intent::NavTop => v.granularity is Week ==> in_range(monday),
        Intent::NavBottom => match v.granularity {
            Granularity::Month => !(c.year == MAX_YEAR && c.month == 12),
            Granularity::Week => in_range(monday) && in_range(monday + 6),
        },
        _ => true,
    }
}

/// Where an intent moves the cursor: the new cursor `n` given the old
/// state `v`.
pub open spec fn grid_cursor_after(v: GridView, intent: Intent, n: Date) -> bool {
    let c = v.cursor;
    let monday = c.day_number() - weekday_index(c);
    match intent {
        Intent::NavLeft => n == prev_day_spec(c),
        Intent::NavRight => n == next_day_spec(c),
        Intent::NavUp => n.valid() && n.day_number() == c.day_number() - 7,
        Intent::NavDown => n.valid() && n.day_number() == c.day_number() + 7,
        Intent::NavTop => match v.granularity {
            Granularity::Month => n == first_of_month_spec(c),
            Granularity::Week => n.valid() && n.day_number() == monday,
        },
        Intent::NavBottom => match v.granularity {
            Granularity::Month => n == last_of_month_spec(c),
            Granularity::Week => n.valid() && n.day_number() == monday + 6,
        },
        _ => n == c,
    }
}

/// The action of an intent on the grid.
pub open spec fn grid_action(intent: Intent) -> ScreenAction {
    match intent {
        Intent::Quit | Intent::ForceQuit | Intent::Cancel => ScreenAction::Quit,
        Intent::OpenHelp => ScreenAction::OpenHelp,
        _ => ScreenAction::Continue,
    }
}

/// Does handling `intent` take the grid from `v` to `w` with action `r`?
/// The cursor moves as `grid_cursor_after` says, `u` switches the unit,
/// the events and label stay, and the one-shot status is cleared.
pub open spec fn grid_handled(v: GridView, w: GridView, intent: Intent, r: ScreenAction) -> bool {
    &&& r == grid_action(intent)
    &&& grid_cursor_after(v, intent, w.cursor)
    &&& w.granularity == if intent is CycleGranularity {
        v.granularity.cycle_spec()
    } else {
        v.granularity
    }
    &&& w.events == v.events
    &&& w.file_label == v.file_label
    &&& w.transient_status is None
}

/// The calendar grid with a date cursor.
pub struct GridScreen {
    events: Vec<VEvent>,
    cursor: Date,
    granularity: Granularity,
    file_label: String,
    transient_status: Option<String>,
}

impl View for GridScreen {
    type V = GridView;

    closed spec fn view(&self) -> GridView {
        GridView {
            events: events_view(self.events@),
            cursor: self.cursor,
            granularity: self.granularity,
            file_label: self.file_label@,
            transient_status: opt_view(self.transient_status),
        }
    }
}

impl GridScreen {
    /// The cursor is a day `chrono` represents.
    #[verifier::type_invariant]
    spec fn well_formed(&self) -> bool {
        self.cursor.valid()
    }

    /// A grid over `events` with the cursor on `today`, month view.
    pub fn from_events_with_today(events: &[VEvent], file_label: &str, today: Date) -> (r: GridScreen)
        requires
            today.valid(),
        ensures
            r@.events == events_view(events@),
            r@.cursor == today,
            r@.granularity == Granularity::Month,
            r@.file_label == file_label@,
            r@.transient_status is None,
    {
        let mut copied: Vec<VEvent> = Vec::new();
        let mut i: usize = 0;
        while i < events.len()
            invariant
                i <= events.len(),
                events_view(copied@) == events_view(events@).take(i as int),
            decreases events.len() - i,
        {
            let e = events[i].copy();
            let ghost before = copied@;
            copied.push(e);
            assert(copied@ == before.push(e));
            assert(events_view(copied@) =~= events_view(before).push(e@));
            assert(events_view(events@).take(i + 1) =~= events_view(events@).take(i as int).push(
                events@[i as int]@,
            ));
            i = i + 1;
        }
        assert(events_view(events@).take(i as int) =~= events_view(events@));
        GridScreen {
            events: copied,
            cursor: today,
            granularity: Granularity::Month,
            file_label: string_of(&chars_of(file_label)),
            transient_status: None,
        }
    }

    /// A grid over `events` with the cursor on today's local date.
    pub fn from_events(events: &[VEvent], file_label: &str) -> (r: GridScreen)
        ensures
            r@.events == events_view(events@),
            r@.cursor.valid(),
            r@.granularity == Granularity::Month,
            r@.file_label == file_label@,
            r@.transient_status is None,
    {
        let today = today_local();
        GridScreen::from_events_with_today(events, file_label, today)
    }

    pub fn cursor(&self) -> (r: Date)
        ensures
            r == self@.cursor,
            r.valid(),
    {
        proof {
            use_type_invariant(self);
        }
        self.cursor
    }

    pub fn granularity(&self) -> (r: Granularity)
        ensures
            r == self@.granularity,
    {
        self.granularity
    }

    pub fn file_label(&self) -> (r: &str)
        ensures
            r@ == self@.file_label,
    {
        self.file_label.as_str()
    }

    /// The one-shot status message, if any.
    pub fn transient_status(&self) -> (r: Option<&str>)
        ensures
            r matches Some(m) ==> self@.transient_status == Some(m@),
            r is None <==> self@.transient_status is None,
    {
        match &self.transient_status {
            Some(m) => Some(m.as_str()),
            None => None,
        }
    }

    /// Show `msg` on the status bar until the next intent.
    pub fn set_transient_status(&mut self, msg: &str)
        ensures
            final(self)@ == (GridView { transient_status: Some(msg@), ..old(self)@ }),
    {
        proof {
            use_type_invariant(&*self);
        }
        self.transient_status = Some(string_of(&chars_of(msg)));
    }

    /// Does any event cover `date`?
    pub fn has_events_on(&self, date: &Date) -> (r: bool)
        ensures
            r == has_event_on(self@.events, *date),
    {
        let mut i: usize = 0;
        while i < self.events.len()
            invariant
                i <= self.events.len(),
                forall|k: int| 0 <= k < i ==> !covers(#[trigger] events_view(self.events@)[k], *date),
            decreases self.events.len() - i,
        {
            let e = &self.events[i];
            if e.dtstart.le(date) && date.lt(&e.dtend) {
                assert(covers(events_view(self.events@)[i as int], *date));
                return true;
            }
            i = i + 1;
        }
        false
    }

    /// The summaries of the events covering `date`, in event order.
    pub fn summaries_on(&self, date: &Date) -> (r: Vec<String>)
        ensures
            r.deep_view() == summaries_covering(self@.events, *date),
    {
        let ghost es = events_view(self.events@);
        let mut out: Vec<String> = Vec::new();
        let mut i: usize = 0;
        while i < self.events.len()
            invariant
                i <= self.events.len(),
                es == events_view(self.events@),
                out.deep_view() == summaries_covering(es.take(i as int), *date),
            decreases self.events.len() - i,
        {
            let ghost t = es.take(i + 1);
            assert(t.drop_last() =~= es.take(i as int));
            assert(t.last() == self.events[i as int]@);
            let e = &self.events[i];
            if e.dtstart.le(date) && date.lt(&e.dtend) {
                let s = string_of(&chars_of(e.summary.as_str()));
                let ghost before = out.deep_view();
                out.push(s);
                assert(out.deep_view() =~= before.push(s@));
            }
            i = i + 1;
        }
        assert(es.take(i as int) =~= es);
        out
    }

    /// Can `handle(intent)` keep the cursor inside the calendar `chrono`
    /// represents?
    pub fn can_handle(&self, intent: Intent) -> (r: bool)
        ensures
            r == grid_can_handle(self@, intent),
    {
        proof {
            use_type_invariant(self);
        }
        let c = self.cursor;
        let first = first_date();
        let last = last_date();
        let span = last.days_since(&first);
        let off = c.days_since(&first);
        match intent {
            Intent::NavLeft => !c.same(&first),
            Intent::NavRight => !c.same(&last),
            Intent::NavUp => off >= 7,
            Intent::NavDown => off <= span - 7,
            Intent::NavTop => match self.granularity {
                Granularity::Month => true,
                Granularity::Week => off >= days_from_monday(&c) as i64,
            },
            Intent::NavBottom => match self.granularity {
                Granularity::Month => !(c.year == MAX_YEAR && c.month == 12),
                Granularity::Week => {
                    let wd = days_from_monday(&c) as i64;
                    off >= wd && off - wd + 6 <= span
                },
            },
            _ => true,
        }
    }

    /// React to an intent: `q`/Esc quit, `?` opens help, `h`/`l` move a
    /// day, `j`/`k` a week, `g`/`G` jump to the start or end of the
    /// month (or week), `u` switches month and week.
    pub fn handle(&mut self, intent: Intent) -> (r: ScreenAction)
        requires
            grid_can_handle(old(self)@, intent),
        ensures
            grid_handled(old(self)@, final(self)@, intent, r),
    {
        proof {
            use_type_invariant(&*self);
        }
        self.transient_status = None;
        let c = self.cursor;
        match intent {
            Intent::Quit | Intent::ForceQuit | Intent::Cancel => ScreenAction::Quit,
            Intent::OpenHelp => ScreenAction::OpenHelp,
            Intent::NavLeft => {
                if let Some(d) = prev_day(&c) {
                    self.cursor = d;
                }
                ScreenAction::Continue
            },
            Intent::NavRight => {
                if let Some(d) = next_day(&c) {
                    self.cursor = d;
                }
                ScreenAction::Continue
            },
            Intent::NavUp => {
                if let Some(d) = add_signed_days(&c, -7) {
                    self.cursor = d;
                }
                ScreenAction::Continue
            },
            Intent::NavDown => {
                if let Some(d) = add_signed_days(&c, 7) {
                    self.cursor = d;
                }
                ScreenAction::Continue
            },
            Intent::NavTop => {
                match self.granularity {
                    Granularity::Month => {
                        if let Some(d) = first_of_month(&c) {
                            self.cursor = d;
                        }
                    },
                    Granularity::Week => {
                        if let Some(d) = monday_of(&c) {
                            self.cursor = d;
                        }
                    },
                }
                ScreenAction::Continue
            },
            Intent::NavBottom => {
                match self.granularity {
                    Granularity::Month => {
                        if let Some(d) = last_of_month(&c) {
                            self.cursor = d;
                        }
                    },
                    Granularity::Week => {
                        if let Some(m) = monday_of(&c) {
                            if let Some(d) = m.add_days(6) {
                                self.cursor = d;
                            }
                        }
                    },
                }
                ScreenAction::Continue
            },
            Intent::CycleGranularity => {
                self.granularity = self.granularity.cycle();
                ScreenAction::Continue
            },
            _ => ScreenAction::Continue,
        }
    }
}

/// The first day of the month of `d`.
pub fn first_of_month(d: &Date) -> (r: Option<Date>)
    requires
        d.valid(),
    ensures
        r == Some(first_of_month_spec(*d)),
        first_of_month_spec(*d).valid(),
{
    Date::from_ymd_opt(d.year, d.month, 1)
}

/// The last day of the month of `d`: the day before the first of the
/// next month. `None` only in the last month `chrono` represents.
pub fn last_of_month(d: &Date) -> (r: Option<Date>)
    requires
        d.valid(),
    ensures
        r is Some <==> !(d.year == MAX_YEAR && d.month == 12),
        r matches Some(e) ==> e == last_of_month_spec(*d) && e.valid(),
{
    let next_first = if d.month == 12 {
        if d.year >= MAX_YEAR {
            return None;
        }
        Date::from_ymd_opt(d.year + 1, 1, 1)
    } else {
        Date::from_ymd_opt(d.year, d.month + 1, 1)
    };
    match next_first {
        Some(n) => prev_day(&n),
        None => None,
    }
}

/// The Monday of the week of `d`; `None` when it lies before the first
/// day `chrono` represents.
pub fn monday_of(d: &Date) -> (r: Option<Date>)
    requires
        d.valid(),
    ensures
        r matches Some(m) ==> m.valid() && m.day_number() == d.day_number() - weekday_index(*d),
        in_range(d.day_number() - weekday_index(*d)) ==> r is Some,
{
    let wd = days_from_monday(d);
    d.sub_days(wd as u64)
}

/// The Sunday of the week of `d`.
pub fn sunday_of(d: &Date) -> (r: Option<Date>)
    requires
        d.valid(),
    ensures
        r matches Some(s) ==> s.valid() && s.day_number() == d.day_number() - weekday_index(*d) + 6,
        in_range(d.day_number() - weekday_index(*d)) && in_range(d.day_number() - weekday_index(*d) + 6)
            ==> r is Some,
{
    match monday_of(d) {
        Some(m) => m.add_days(6),
        None => None,
    }
}

} // verus!

verus! {

/// The text of a grid cell: the day of the month right-aligned in two
/// columns, then `•` when an event covers the day (else a space).
pub open spec fn cell_text(d: Date, marked: bool) -> Seq<char> {
    let day = if d.day < 10 {
        seq![' '] + decimal(d.day as nat)
    } else {
        decimal(d.day as nat)
    };
    seq![' '] + day + seq![if marked {
        '•'
    } else {
        ' '
    }, ' ']
}

/// Number of week rows on display.
pub open spec fn week_rows(g: Granularity) -> int {
    match g {
        Granularity::Month => 6,
        Granularity::Week => 1,
    }
}

/// Day number of the first cell: the Monday of the week of the first of
/// the cursor's month, or of the cursor's own week.
pub open spec fn grid_start(v: GridView) -> int {
    let anchor = match v.granularity {
        Granularity::Month => first_of_month_spec(v.cursor),
        Granularity::Week => v.cursor,
    };
    anchor.day_number() - weekday_index(anchor)
}

/// Do all cells on display lie in the calendar `chrono` represents?
pub open spec fn grid_cells_fit(v: GridView) -> bool {
    in_range(grid_start(v)) && in_range(grid_start(v) + 7 * week_rows(v.granularity) - 1)
}

/// One day cell of the grid, as the caller draws it.
pub struct GridCell {
    pub date: Date,
    pub text: String,
    /// Outside the cursor's month (month view only).
    pub dim: bool,
    pub is_cursor: bool,
}

fn cell_text_exec(d: &Date, marked: bool) -> (r: String)
    requires
        1 <= d.day <= 31,
    ensures
        r@ == cell_text(*d, marked),
{
    let mut out: Vec<char> = Vec::new();
    out.push(' ');
    if d.day < 10 {
        out.push(' ');
    }
    let digits = decimal_chars(d.day as u64);
    let mut i: usize = 0;
    let ghost base = out@;
    while i < digits.len()
        invariant
            i <= digits.len(),
            out@ == base + digits@.take(i as int),
        decreases digits.len() - i,
    {
        out.push(digits[i]);
        assert(digits@.take(i + 1) =~= digits@.take(i as int).push(digits@[i as int]));
        i = i + 1;
    }
    assert(digits@.take(i as int) =~= digits@);
    out.push(if marked {
        '•'
    } else {
        ' '
    });
    out.push(' ');
    assert(out@ =~= cell_text(*d, marked));
    string_of(&out)
}

impl GridScreen {
    /// Do all cells on display lie in the calendar `chrono` represents?
    pub fn cells_fit(&self) -> (r: bool)
        ensures
            r == grid_cells_fit(self@),
    {
        proof {
            use_type_invariant(self);
        }
        let anchor = match self.granularity {
            Granularity::Month => Date { year: self.cursor.year, month: self.cursor.month, day: 1 },
            Granularity::Week => self.cursor,
        };
        let first = first_date();
        let span = last_date().days_since(&first);
        let off = anchor.days_since(&first);
        let wd = days_from_monday(&anchor) as i64;
        let rows: i64 = match self.granularity {
            Granularity::Month => 6,
            Granularity::Week => 1,
        };
        off >= wd && off - wd + 7 * rows - 1 <= span
    }

    /// The cells on display, one row per week, Monday first: six weeks
    /// from the Monday of the week of the first of the cursor's month,
    /// or the cursor's week.
    pub fn cells(&self) -> (r: Vec<Vec<GridCell>>)
        requires
            grid_cells_fit(self@),
        ensures
            r@.len() == week_rows(self@.granularity),
            forall|w: int| 0 <= w < r@.len() ==> (#[trigger] r@[w])@.len() == 7,
            forall|w: int, d: int|
                0 <= w < r@.len() && 0 <= d < 7 ==> {
                    let cell = #[trigger] r@[w]@[d];
                    &&& cell.date.valid()
                    &&& cell.date.day_number() == grid_start(self@) + 7 * w + d
                    &&& cell.text@ == cell_text(cell.date, has_event_on(self@.events, cell.date))
                    &&& cell.dim == (self@.granularity is Month && cell.date.month
                        != self@.cursor.month)
                    &&& cell.is_cursor == (cell.date == self@.cursor)
                },
    {
        proof {
            use_type_invariant(self);
        }
        let anchor = match self.granularity {
            Granularity::Month => Date { year: self.cursor.year, month: self.cursor.month, day: 1 },
            Granularity::Week => self.cursor,
        };
        let start = match monday_of(&anchor) {
            Some(m) => m,
            None => {
                return Vec::new();
            },
        };
        let weeks: u64 = match self.granularity {
            Granularity::Month => 6,
            Granularity::Week => 1,
        };
        let mut rows: Vec<Vec<GridCell>> = Vec::new();
        let mut w: u64 = 0;
        while w < weeks
            invariant
                w <= weeks,
                weeks == week_rows(self@.granularity),
                start.valid(),
                start.day_number() == grid_start(self@),
                grid_cells_fit(self@),
                rows@.len() == w,
                forall|i: int| 0 <= i < rows@.len() ==> (#[trigger] rows@[i])@.len() == 7,
                forall|i: int, d: int|
                    0 <= i < rows@.len() && 0 <= d < 7 ==> {
                        let cell = #[trigger] rows@[i]@[d];
                        &&& cell.date.valid()
                        &&& cell.date.day_number() == grid_start(self@) + 7 * i + d
                        &&& cell.text@ == cell_text(cell.date, has_event_on(self@.events, cell.date))
                        &&& cell.dim == (self@.granularity is Month && cell.date.month
                            != self@.cursor.month)
                        &&& cell.is_cursor == (cell.date == self@.cursor)
                    },
            decreases weeks - w,
        {
            let mut row: Vec<GridCell> = Vec::new();
            let mut d: u64 = 0;
            while d < 7
                invariant
                    d <= 7,
                    w < weeks,
                    weeks == week_rows(self@.granularity),
                    start.valid(),
                    start.day_number() == grid_start(self@),
                    grid_cells_fit(self@),
                    row@.len() == d,
                    forall|k: int|
                        0 <= k < row@.len() ==> {
                            let cell = #[trigger] row@[k];
                            &&& cell.date.valid()
                            &&& cell.date.day_number() == grid_start(self@) + 7 * w + k
                            &&& cell.text@ == cell_text(
                                cell.date,
                                has_event_on(self@.events, cell.date),
                            )
                            &&& cell.dim == (self@.granularity is Month && cell.date.month
                                != self@.cursor.month)
                            &&& cell.is_cursor == (cell.date == self@.cursor)
                        },
                decreases 7 - d,
            {
                let date = match start.add_days(7 * w + d) {
                    Some(x) => x,
                    None => {
                        return Vec::new();
                    },
                };
                let marked = self.has_events_on(&date);
                let text = cell_text_exec(&date, marked);
                let dim = match self.granularity {
                    Granularity::Month => date.month != self.cursor.month,
                    Granularity::Week => false,
                };
                let is_cursor = date.same(&self.cursor);
                row.push(GridCell { date, text, dim, is_cursor });
                d = d + 1;
            }
            rows.push(row);
            w = w + 1;
        }
        rows
    }
}

} // verus!

verus! {

/// Stepping a day back and then a day forward returns to the same day.
pub proof fn lemma_next_day_undoes_prev_day(d: Date)
    requires
        d.valid(),
        d != min_date(),
    ensures
        next_day_spec(prev_day_spec(d)) == d,
        prev_day_spec(d).valid(),
{
}

proof fn lemma_week_ends(n: int)
    ensures
        (n - (n + 2) % 7 + 2) % 7 == 0,
        (n - (n + 2) % 7 + 6 + 2) % 7 == 6,
{
    assert((n - (n + 2) % 7 + 2) % 7 == 0) by (nonlinear_arith);
    assert((n - (n + 2) % 7 + 6 + 2) % 7 == 6) by (nonlinear_arith);
}

/// In week view, `g` lands on a Monday and `G` on a Sunday.
pub proof fn lemma_week_jumps_land_on_monday_and_sunday(v: GridView, top: Date, bottom: Date)
    requires
        v.granularity is Week,
        grid_cursor_after(v, Intent::NavTop, top),
        grid_cursor_after(v, Intent::NavBottom, bottom),
    ensures
        weekday_index(top) == 0,
        weekday_index(bottom) == 6,
{
    lemma_week_ends(v.cursor.day_number());
}

} // verus!
