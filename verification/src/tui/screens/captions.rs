//! The texts the screens show: titles, hints, rows and status lines. A
//! one-shot status message, when a screen holds one, takes the place of
//! its status line.

use vstd::prelude::*;
use crate::date::{
    dashed_date_chars, dashed_date_text, decimal, decimal_chars, padded, padded_chars, weekday_index,
    year_chars, year_text, Date,
};
use crate::error::push_chars;
use crate::text::{chars_of, string_of};
use crate::tui::screens::add_form::AddFormView;
use crate::tui::screens::grid::{
    in_range, monday_of, summaries_covering, GridScreen, GridView, Granularity as GridGranularity,
};
use crate::tui::screens::list::{filtered, marked_upto, ListModeView, ListScreen, ListView};
use crate::tui::screens::timeline::{Granularity as TlGranularity, TimelineScreen, TimelineView};
use crate::tui::screens::{AddForm, HelpScreen};

verus! {

fn push_str(out: &mut Vec<char>, s: &str)
    ensures
        final(out)@ == old(out)@ + s@,
{
    push_chars(out, &chars_of(s));
}

fn push_num(out: &mut Vec<char>, n: usize)
    ensures
        final(out)@ == old(out)@ + decimal(n as nat),
{
    push_chars(out, &decimal_chars(n as u64));
}

// ---------------------------------------------------------------------
// List
// ---------------------------------------------------------------------

/// Number of marked rows (none outside Remove mode).
pub open spec fn marked_count(v: ListView) -> nat {
    match v.mode {
        ListModeView::Remove { marks } => marked_upto(marks, marks.len()).len(),
        _ => 0,
    }
}

/// `visible of total`.
pub open spec fn of_total(visible: nat, total: nat) -> Seq<char> {
    decimal(visible) + " of "@ + decimal(total)
}

/// The list's title: the marked count in Remove mode, the live count
/// while searching, the filtered count under a committed filter.
pub open spec fn list_title_spec(v: ListView) -> Seq<char> {
    let visible = filtered(v).len();
    let total = v.items.len();
    match v.mode {
        ListModeView::Remove { .. } => "lazyics — REMOVE ("@ + decimal(marked_count(v))
            + " marked)"@,
        ListModeView::Search { .. } => "lazyics — events  (live: "@ + of_total(visible, total)
            + ")"@,
        ListModeView::Browse => if v.filter is Some {
            "lazyics — events  ("@ + of_total(visible, total) + ")"@
        } else {
            "lazyics — events"@
        },
    }
}

/// What the list shows when no row passes: a hint to add events when
/// there are none, else how many the filter hides.
pub open spec fn list_empty_hint_spec(v: ListView) -> Option<Seq<char>> {
    if filtered(v).len() == 0 {
        if v.items.len() == 0 {
            Some("No events.\n\nUse `icscli add --summary ... --start ...` to create one."@)
        } else {
            Some("No events match the filter ("@ + decimal(v.items.len()) + " total — Esc to clear)."@)
        }
    } else {
        None
    }
}

/// A shown row: in Remove mode prefixed `[x] ` when marked and `[ ] `
/// otherwise, with the mark; else the row as it is, unmarked.
pub open spec fn list_row_spec(v: ListView, row: int) -> (Seq<char>, bool) {
    match v.mode {
        ListModeView::Remove { marks } => if marks[row] {
            ("[x] "@ + v.items[row], true)
        } else {
            ("[ ] "@ + v.items[row], false)
        },
        _ => (v.items[row], false),
    }
}

/// The list's status line.
pub open spec fn list_status_spec(v: ListView) -> Seq<char> {
    let visible = filtered(v).len();
    let total = v.items.len();
    match v.transient_status {
        Some(m) => m,
        None => match v.mode {
            ListModeView::Remove { .. } => "REMOVE  |  "@ + decimal(marked_count(v)) + " marked / "@
                + of_total(visible, total) + "  |  space toggle  Enter confirm  Esc cancel"@,
            ListModeView::Search { .. } => "Search  |  type to filter  Enter commit  Esc cancel"@,
            ListModeView::Browse => match v.filter {
                Some(f) => v.file_label + "  |  [filter: "@ + f + "] "@ + of_total(visible, total)
                    + "  |  / search  Esc-via-/ clear"@,
                None => v.file_label + "  |  "@ + decimal(total)
                    + " event(s)  |  / search  a add  e edit  d remove  ? help"@,
            },
        },
    }
}

fn marked_len(s: &ListScreen) -> (r: usize)
    ensures
        r == marked_count(s@),
{
    s.marked().len()
}

/// The title of the list pane.
pub fn list_title(s: &ListScreen) -> (r: String)
    ensures
        r@ == list_title_spec(s@),
{
    let visible = s.filtered_indices().len();
    let total = s.item_count();
    let mut out: Vec<char> = Vec::new();
    if s.is_remove_mode() {
        push_str(&mut out, "lazyics — REMOVE (");
        push_num(&mut out, marked_len(s));
        push_str(&mut out, " marked)");
    } else if s.is_search_mode() {
        push_str(&mut out, "lazyics — events  (live: ");
        push_num(&mut out, visible);
        push_str(&mut out, " of ");
        push_num(&mut out, total);
        push_str(&mut out, ")");
    } else if s.filter().is_some() {
        push_str(&mut out, "lazyics — events  (");
        push_num(&mut out, visible);
        push_str(&mut out, " of ");
        push_num(&mut out, total);
        push_str(&mut out, ")");
    } else {
        push_str(&mut out, "lazyics — events");
    }
    assert(out@ =~= list_title_spec(s@));
    string_of(&out)
}

/// The hint shown in place of the rows when none passes.
pub fn list_empty_hint(s: &ListScreen) -> (r: Option<String>)
    ensures
        r matches Some(h) ==> list_empty_hint_spec(s@) == Some(h@),
        r is None <==> list_empty_hint_spec(s@) is None,
{
    let visible = s.filtered_indices().len();
    let total = s.item_count();
    if visible > 0 {
        None
    } else if total == 0 {
        Some(string_of(&chars_of("No events.\n\nUse `icscli add --summary ... --start ...` to create one.")))
    } else {
        let mut out: Vec<char> = Vec::new();
        push_str(&mut out, "No events match the filter (");
        push_num(&mut out, total);
        push_str(&mut out, " total — Esc to clear).");
        assert(out@ =~= list_empty_hint_spec(s@)->0);
        Some(string_of(&out))
    }
}

/// The rows shown, in order, each with its mark.
pub fn list_rows(s: &ListScreen) -> (r: Vec<(String, bool)>)
    ensures
        r@.len() == filtered(s@).len(),
        forall|i: int|
            0 <= i < r@.len() ==> (#[trigger] r@[i]).0@ == list_row_spec(s@, filtered(s@)[i] as int).0
                && r@[i].1 == list_row_spec(s@, filtered(s@)[i] as int).1,
{
    s.display_rows()
}

/// The status line of the list.
pub fn list_status(s: &ListScreen) -> (r: String)
    ensures
        r@ == list_status_spec(s@),
{
    match s.transient_status() {
        Some(m) => return string_of(&chars_of(m)),
        None => {},
    }
    let visible = s.filtered_indices().len();
    let total = s.item_count();
    let mut out: Vec<char> = Vec::new();
    if s.is_remove_mode() {
        push_str(&mut out, "REMOVE  |  ");
        push_num(&mut out, marked_len(s));
        push_str(&mut out, " marked / ");
        push_num(&mut out, visible);
        push_str(&mut out, " of ");
        push_num(&mut out, total);
        push_str(&mut out, "  |  space toggle  Enter confirm  Esc cancel");
    } else if s.is_search_mode() {
        push_str(&mut out, "Search  |  type to filter  Enter commit  Esc cancel");
    } else {
        match s.filter() {
            Some(f) => {
                push_str(&mut out, s.file_label());
                push_str(&mut out, "  |  [filter: ");
                push_str(&mut out, f);
                push_str(&mut out, "] ");
                push_num(&mut out, visible);
                push_str(&mut out, " of ");
                push_num(&mut out, total);
                push_str(&mut out, "  |  / search  Esc-via-/ clear");
            },
            None => {
                push_str(&mut out, s.file_label());
                push_str(&mut out, "  |  ");
                push_num(&mut out, total);
                push_str(&mut out, " event(s)  |  / search  a add  e edit  d remove  ? help");
            },
        }
    }
    assert(out@ =~= list_status_spec(s@));
    string_of(&out)
}


// ---------------------------------------------------------------------
// Timeline
// ---------------------------------------------------------------------

/// The name of a timeline unit.
pub open spec fn timeline_unit(g: TlGranularity) -> Seq<char> {
    match g {
        TlGranularity::Month => "month"@,
        TlGranularity::Week => "week"@,
    }
}

/// `lazyics — timeline (unit)`.
pub open spec fn timeline_title_spec(v: TimelineView) -> Seq<char> {
    "lazyics — timeline ("@ + timeline_unit(v.granularity) + ")"@
}

/// The hint shown when there is no event.
pub open spec fn timeline_empty_hint_spec(v: TimelineView) -> Option<Seq<char>> {
    if v.events.len() == 0 {
        Some("No events.\n\nPress 1 for List, 2 Timeline, 3 Grid."@)
    } else {
        None
    }
}

/// The timeline's status line.
pub open spec fn timeline_status_spec(v: TimelineView) -> Seq<char> {
    match v.transient_status {
        Some(m) => m,
        None => v.file_label + "  |  "@ + decimal(v.events.len()) + " event(s)  |  "@
            + timeline_unit(v.granularity) + " unit  |  Tab/1/2/3 view  u unit  q quit"@,
    }
}

/// The title of the timeline pane.
pub fn timeline_title(s: &TimelineScreen) -> (r: String)
    ensures
        r@ == timeline_title_spec(s@),
{
    let mut out: Vec<char> = Vec::new();
    push_str(&mut out, "lazyics — timeline (");
    push_str(&mut out, s.granularity().label());
    push_str(&mut out, ")");
    string_of(&out)
}

/// The hint shown in place of the rows when there is no event.
pub fn timeline_empty_hint(s: &TimelineScreen) -> (r: Option<String>)
    ensures
        r matches Some(h) ==> timeline_empty_hint_spec(s@) == Some(h@),
        r is None <==> timeline_empty_hint_spec(s@) is None,
{
    if s.event_count() == 0 {
        Some(string_of(&chars_of("No events.\n\nPress 1 for List, 2 Timeline, 3 Grid.")))
    } else {
        None
    }
}

/// The status line of the timeline.
pub fn timeline_status(s: &TimelineScreen) -> (r: String)
    ensures
        r@ == timeline_status_spec(s@),
{
    match s.transient_status() {
        Some(m) => return string_of(&chars_of(m)),
        None => {},
    }
    let mut out: Vec<char> = Vec::new();
    push_str(&mut out, s.file_label());
    push_str(&mut out, "  |  ");
    push_num(&mut out, s.event_count());
    push_str(&mut out, " event(s)  |  ");
    push_str(&mut out, s.granularity().label());
    push_str(&mut out, " unit  |  Tab/1/2/3 view  u unit  q quit");
    assert(out@ =~= timeline_status_spec(s@));
    string_of(&out)
}

// ---------------------------------------------------------------------
// Grid
// ---------------------------------------------------------------------

/// The name of a grid unit.
pub open spec fn grid_unit(g: GridGranularity) -> Seq<char> {
    match g {
        GridGranularity::Month => "month"@,
        GridGranularity::Week => "week"@,
    }
}

/// `%Y-%m` of a date.
pub open spec fn year_month_text(d: Date) -> Seq<char> {
    year_text(d.year as int) + seq!['-'] + padded(d.month as nat, 2)
}

/// The grid's title in month view: the cursor's month.
pub open spec fn grid_month_title(d: Date) -> Seq<char> {
    "lazyics — grid ("@ + year_month_text(d) + ")"@
}

/// The grid's title in week view: the Monday of the cursor's week.
pub open spec fn grid_week_title(monday: Date) -> Seq<char> {
    "lazyics — grid (week of "@ + dashed_date_text(monday) + ")"@
}

/// `Events on YYYY-MM-DD`, over the detail panel.
pub open spec fn grid_detail_title_spec(v: GridView) -> Seq<char> {
    "Events on "@ + dashed_date_text(v.cursor)
}

/// Summaries, each as `• summary`, joined by line feeds.
pub open spec fn bullets(ss: Seq<Seq<char>>) -> Seq<char>
    decreases ss.len(),
{
    if ss.len() == 0 {
        seq![]
    } else if ss.len() == 1 {
        "• "@ + ss[0]
    } else {
        bullets(ss.drop_last()) + seq!['\n'] + "• "@ + ss.last()
    }
}

/// The detail panel: the summaries of the events on the cursor's day, or
/// `(no events)`.
pub open spec fn grid_detail_spec(v: GridView) -> Seq<char> {
    let ss = summaries_covering(v.events, v.cursor);
    if ss.len() == 0 {
        "(no events)"@
    } else {
        bullets(ss)
    }
}

/// The grid's status line.
pub open spec fn grid_status_spec(v: GridView) -> Seq<char> {
    match v.transient_status {
        Some(m) => m,
        None => v.file_label + "  |  "@ + grid_unit(v.granularity)
            + " unit  |  Tab/1/2/3 view  h/l day  j/k week  u unit  q quit"@,
    }
}

/// The title of the grid pane. In week view it names the Monday of the
/// cursor's week; should that Monday lie before the first day `chrono`
/// represents, the title has no date.
pub fn grid_title(s: &GridScreen) -> (r: String)
    ensures
        s@.granularity is Month ==> r@ == grid_month_title(s@.cursor),
        s@.granularity is Week ==> (exists|m: Date|
            m.valid() && m.day_number() == s@.cursor.day_number() - weekday_index(s@.cursor)
                && r@ == grid_week_title(m)) || (!in_range(
            s@.cursor.day_number() - weekday_index(s@.cursor),
        ) && r@ == "lazyics — grid"@),
{
    let c = s.cursor();
    let mut out: Vec<char> = Vec::new();
    match s.granularity() {
        GridGranularity::Month => {
            push_str(&mut out, "lazyics — grid (");
            push_chars(&mut out, &year_chars(c.year));
            out.push('-');
            push_chars(&mut out, &padded_chars(c.month as u64, 2));
            push_str(&mut out, ")");
            assert(out@ =~= grid_month_title(c));
        },
        GridGranularity::Week => match monday_of(&c) {
            Some(m) => {
                push_str(&mut out, "lazyics — grid (week of ");
                push_chars(&mut out, &dashed_date_chars(&m));
                push_str(&mut out, ")");
                assert(out@ =~= grid_week_title(m));
            },
            None => {
                push_str(&mut out, "lazyics — grid");
            },
        },
    }
    string_of(&out)
}

/// The title of the detail panel.
pub fn grid_detail_title(s: &GridScreen) -> (r: String)
    ensures
        r@ == grid_detail_title_spec(s@),
{
    let mut out: Vec<char> = Vec::new();
    push_str(&mut out, "Events on ");
    push_chars(&mut out, &dashed_date_chars(&s.cursor()));
    string_of(&out)
}

/// The text of the detail panel.
pub fn grid_detail(s: &GridScreen) -> (r: String)
    ensures
        r@ == grid_detail_spec(s@),
{
    let c = s.cursor();
    let ss = s.summaries_on(&c);
    if ss.len() == 0 {
        return string_of(&chars_of("(no events)"));
    }
    let ghost sv = ss.deep_view();
    let mut out: Vec<char> = Vec::new();
    let mut i: usize = 0;
    while i < ss.len()
        invariant
            i <= ss.len(),
            sv == ss.deep_view(),
            sv.len() > 0,
            i > 0 ==> out@ == bullets(sv.take(i as int)),
            i == 0 ==> out@.len() == 0,
        decreases ss.len() - i,
    {
        let ghost t = sv.take(i + 1);
        if i > 0 {
            out.push('\n');
        }
        push_str(&mut out, "• ");
        push_str(&mut out, ss[i].as_str());
        proof {
            assert(ss[i as int]@ == sv[i as int]);
            if i == 0 {
                assert(t.len() == 1);
                assert(t[0] == sv[0]);
            } else {
                assert(t.drop_last() =~= sv.take(i as int));
                assert(t.last() == sv[i as int]);
            }
        }
        assert(out@ =~= bullets(t));
        i = i + 1;
    }
    assert(sv.take(i as int) =~= sv);
    string_of(&out)
}

/// The status line of the grid.
pub fn grid_status(s: &GridScreen) -> (r: String)
    ensures
        r@ == grid_status_spec(s@),
{
    match s.transient_status() {
        Some(m) => return string_of(&chars_of(m)),
        None => {},
    }
    let mut out: Vec<char> = Vec::new();
    push_str(&mut out, s.file_label());
    push_str(&mut out, "  |  ");
    push_str(&mut out, s.granularity().label());
    push_str(&mut out, " unit  |  Tab/1/2/3 view  h/l day  j/k week  u unit  q quit");
    assert(out@ =~= grid_status_spec(s@));
    string_of(&out)
}

// ---------------------------------------------------------------------
// Add form
// ---------------------------------------------------------------------

/// The label over each field of the form.
pub open spec fn form_field_label_spec(i: nat) -> Seq<char> {
    if i == 0 {
        "Summary (required)"@
    } else if i == 1 {
        "Start date YYYY-MM-DD (required)"@
    } else if i == 2 {
        "End date YYYY-MM-DD (optional)"@
    } else if i == 3 {
        "Busy status"@
    } else if i == 4 {
        "Class"@
    } else if i == 5 {
        "Categories (comma-separated)"@
    } else {
        "Icon (optional)"@
    }
}

/// The label over field `i` of the form.
pub fn form_field_label(i: usize) -> (r: &'static str)
    ensures
        r@ == form_field_label_spec(i as nat),
{
    if i == 0 {
        "Summary (required)"
    } else if i == 1 {
        "Start date YYYY-MM-DD (required)"
    } else if i == 2 {
        "End date YYYY-MM-DD (optional)"
    } else if i == 3 {
        "Busy status"
    } else if i == 4 {
        "Class"
    } else if i == 5 {
        "Categories (comma-separated)"
    } else {
        "Icon (optional)"
    }
}

/// A picker's value: between arrows when focused, padded otherwise.
pub open spec fn picker_text_spec(value: Seq<char>, focused: bool) -> Seq<char> {
    if focused {
        "◀ "@ + value + " ▶"@
    } else {
        "  "@ + value + "  "@
    }
}

/// The text of a picker showing `value`.
pub fn picker_text(value: &str, focused: bool) -> (r: String)
    ensures
        r@ == picker_text_spec(value@, focused),
{
    let mut out: Vec<char> = Vec::new();
    if focused {
        push_str(&mut out, "◀ ");
        push_str(&mut out, value);
        push_str(&mut out, " ▶");
    } else {
        push_str(&mut out, "  ");
        push_str(&mut out, value);
        push_str(&mut out, "  ");
    }
    string_of(&out)
}

/// The error banner of the form, if the last submit failed.
pub open spec fn form_error_line_spec(v: AddFormView) -> Option<Seq<char>> {
    match v.error {
        Some(e) => Some("⚠ "@ + e),
        None => None,
    }
}

/// The form's status line, for the status message the form holds.
pub open spec fn form_status_spec(v: AddFormView, status: Option<Seq<char>>) -> Seq<char> {
    match status {
        Some(m) => m,
        None => v.file_label
            + "  |  Add event  |  Tab/Shift+Tab field  ←/→ cursor/cycle  Ctrl+S or Enter submit  Esc cancel"@,
    }
}

/// The error banner of the form.
pub fn form_error_line(f: &AddForm) -> (r: Option<String>)
    ensures
        r matches Some(l) ==> form_error_line_spec(f@) == Some(l@),
        r is None <==> form_error_line_spec(f@) is None,
{
    match f.error() {
        Some(e) => {
            let mut out: Vec<char> = Vec::new();
            push_str(&mut out, "⚠ ");
            push_str(&mut out, e);
            Some(string_of(&out))
        },
        None => None,
    }
}

/// The status line of the form.
pub fn form_status(f: &AddForm) -> (r: String)
    ensures
        r@ == form_status_spec(f@, f.status()),
{
    match f.transient_status() {
        Some(m) => return string_of(&chars_of(m)),
        None => {},
    }
    let mut out: Vec<char> = Vec::new();
    push_str(&mut out, f.file_label());
    push_str(
        &mut out,
        "  |  Add event  |  Tab/Shift+Tab field  ←/→ cursor/cycle  Ctrl+S or Enter submit  Esc cancel",
    );
    string_of(&out)
}

// ---------------------------------------------------------------------
// Help
// ---------------------------------------------------------------------

/// The help overlay's status line, for the status message it holds.
pub open spec fn help_status_spec(status: Option<Seq<char>>) -> Seq<char> {
    match status {
        Some(m) => m,
        None => "? close help  q quit"@,
    }
}

/// The status line of the help overlay.
pub fn help_status(h: &HelpScreen) -> (r: String)
    ensures
        r@ == help_status_spec(h.status()),
{
    match h.transient_status() {
        Some(m) => string_of(&chars_of(m)),
        None => string_of(&chars_of("? close help  q quit")),
    }
}


/// A line of the help overlay.
#[derive(Debug, Clone, Copy, PartialEq, Eq)]
pub enum HelpLine {
    /// A section heading.
    Header(&'static str),
    /// Keys and what they do.
    Binding(&'static str, &'static str),
    /// A blank line between sections.
    Blank,
}

/// Mathematical model of a help line.
pub enum HelpLineView {
    Header(Seq<char>),
    Binding(Seq<char>, Seq<char>),
    Blank,
}

impl View for HelpLine {
    type V = HelpLineView;

    open spec fn view(&self) -> HelpLineView {
        match *self {
            HelpLine::Header(h) => HelpLineView::Header(h@),
            HelpLine::Binding(k, d) => HelpLineView::Binding(k@, d@),
            HelpLine::Blank => HelpLineView::Blank,
        }
    }
}

/// The help overlay's lines: the key bindings by section.
pub open spec fn help_lines_spec() -> Seq<HelpLineView> {
    seq![
        HelpLineView::Header("Global"@),
        HelpLineView::Binding("q | Ctrl+C"@, "Quit"@),
        HelpLineView::Binding("?"@, "Open / close this help"@),
        HelpLineView::Binding("Esc"@, "Cancel modal state / close help / Quit at top level"@),
        HelpLineView::Blank,
        HelpLineView::Header("View switching"@),
        HelpLineView::Binding("Tab"@, "Cycle List → Timeline → Grid → List"@),
        HelpLineView::Binding("1 / 2 / 3"@, "Jump to List / Timeline / Grid"@),
        HelpLineView::Binding("u"@, "Cycle current view's time unit (month ↔ week)"@),
        HelpLineView::Blank,
        HelpLineView::Header("Movement"@),
        HelpLineView::Binding("j | Down"@, "Down / next row / next week (Grid)"@),
        HelpLineView::Binding("k | Up"@, "Up / previous row / previous week (Grid)"@),
        HelpLineView::Binding("h | Left"@, "Previous day (Grid)"@),
        HelpLineView::Binding("l | Right"@, "Next day (Grid)"@),
        HelpLineView::Binding("g | Home"@, "First event / first of period"@),
        HelpLineView::Binding("G | End"@, "Last event / last of period"@),
        HelpLineView::Blank,
        HelpLineView::Header("List view"@),
        HelpLineView::Binding("a"@, "Open Add form"@),
        HelpLineView::Binding("e"@, "Open Edit form on selected event"@),
        HelpLineView::Binding("d | x"@, "Enter multi-select Remove mode"@),
        HelpLineView::Binding("Space"@, "Toggle mark on selected row (Remove mode)"@),
        HelpLineView::Binding("Enter | Shift+D"@, "Confirm removal of marked events"@),
        HelpLineView::Binding("/"@, "Search-as-you-type filter"@),
        HelpLineView::Blank,
        HelpLineView::Header("Add / Edit form"@),
        HelpLineView::Binding("Tab | Shift+Tab"@, "Next / previous field"@),
        HelpLineView::Binding("Left | Right"@, "Cursor in text fields; cycle prev/next for pickers"@),
        HelpLineView::Binding("Space"@, "Cycle next on busy-status / class pickers"@),
        HelpLineView::Binding("Ctrl+S | Enter"@, "Submit (validates required fields)"@),
        HelpLineView::Binding("Esc"@, "Cancel and return to the previous view"@),
    ]
}

/// The lines of the help overlay.
pub fn help_lines() -> (r: Vec<HelpLine>)
    ensures
        r@.map_values(|l: HelpLine| l@) == help_lines_spec(),
{
    let mut v: Vec<HelpLine> = Vec::new();
    v.push(HelpLine::Header("Global"));
    v.push(HelpLine::Binding("q | Ctrl+C", "Quit"));
    v.push(HelpLine::Binding("?", "Open / close this help"));
    v.push(HelpLine::Binding("Esc", "Cancel modal state / close help / Quit at top level"));
    v.push(HelpLine::Blank);
    v.push(HelpLine::Header("View switching"));
    v.push(HelpLine::Binding("Tab", "Cycle List → Timeline → Grid → List"));
    v.push(HelpLine::Binding("1 / 2 / 3", "Jump to List / Timeline / Grid"));
    v.push(HelpLine::Binding("u", "Cycle current view's time unit (month ↔ week)"));
    v.push(HelpLine::Blank);
    v.push(HelpLine::Header("Movement"));
    v.push(HelpLine::Binding("j | Down", "Down / next row / next week (Grid)"));
    v.push(HelpLine::Binding("k | Up", "Up / previous row / previous week (Grid)"));
    v.push(HelpLine::Binding("h | Left", "Previous day (Grid)"));
    v.push(HelpLine::Binding("l | Right", "Next day (Grid)"));
    v.push(HelpLine::Binding("g | Home", "First event / first of period"));
    v.push(HelpLine::Binding("G | End", "Last event / last of period"));
    v.push(HelpLine::Blank);
    v.push(HelpLine::Header("List view"));
    v.push(HelpLine::Binding("a", "Open Add form"));
    v.push(HelpLine::Binding("e", "Open Edit form on selected event"));
    v.push(HelpLine::Binding("d | x", "Enter multi-select Remove mode"));
    v.push(HelpLine::Binding("Space", "Toggle mark on selected row (Remove mode)"));
    v.push(HelpLine::Binding("Enter | Shift+D", "Confirm removal of marked events"));
    v.push(HelpLine::Binding("/", "Search-as-you-type filter"));
    v.push(HelpLine::Blank);
    v.push(HelpLine::Header("Add / Edit form"));
    v.push(HelpLine::Binding("Tab | Shift+Tab", "Next / previous field"));
    v.push(HelpLine::Binding("Left | Right", "Cursor in text fields; cycle prev/next for pickers"));
    v.push(HelpLine::Binding("Space", "Cycle next on busy-status / class pickers"));
    v.push(HelpLine::Binding("Ctrl+S | Enter", "Submit (validates required fields)"));
    v.push(HelpLine::Binding("Esc", "Cancel and return to the previous view"));
    assert(v@.map_values(|l: HelpLine| l@) =~= help_lines_spec());
    v
}

/// `s` padded with spaces on the right to `w` characters.
pub open spec fn pad_right_spec(s: Seq<char>, w: nat) -> Seq<char> {
    if s.len() < w {
        s + Seq::new((w - s.len()) as nat, |i: int| ' ')
    } else {
        s
    }
}

/// The keys of a binding, padded to the column the descriptions start at.
pub fn binding_keys(keys: &str) -> (r: String)
    ensures
        r@ == pad_right_spec(keys@, 22),
{
    let mut out = chars_of(keys);
    let ghost k = keys@;
    while out.len() < 22
        invariant
            k == keys@,
            out@.len() <= 22 ==> out@ == k + Seq::new((out@.len() - k.len()) as nat, |i: int| ' '),
            out@.len() >= k.len(),
            k.len() < 22 ==> out@.len() <= 22,
            k.len() >= 22 ==> out@ == k,
        decreases 22 - out.len(),
    {
        let ghost before = out@;
        out.push(' ');
        assert(out@ =~= k + Seq::new((out@.len() - k.len()) as nat, |i: int| ' '));
    }
    proof {
        if k.len() < 22 {
            assert(out@.len() == 22);
        }
    }
    string_of(&out)
}

} // verus!
