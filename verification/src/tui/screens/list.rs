//! Event list screen with three modes.
//!
//! Browse: `j`/`k`/`g`/`G` move the selection, `q` quits. `d` or `x`
//! opens Remove mode: space marks and unmarks rows, Enter or `D` confirms
//! (the screen hands the caller the 1-based indices to remove), Esc drops
//! the marks and returns to Browse. `/` opens Search: typing filters the
//! rows live (case-insensitive substring), Enter commits the filter, Esc
//! restores the filter the screen had before.

use vstd::prelude::*;
use crate::cli::display::{event_line, format_event_line, renderable};
use crate::event::VEvent;
use crate::text::{
    chars_of, contains_chars, contains_seq, string_of, to_lowercase, trim_chars, trim_spec,
    unicode_lowercase,
};
use crate::tui::keymap::Intent;
use crate::tui::screens::add_form::{apply_text_op, text_op_spec, TextOp};
use crate::tui::screens::captions::list_row_spec;
use crate::tui::screens::ScreenAction;
use crate::error::push_chars;
use crate::tui::text_input::{backspace_spec, insert_spec, TextInput, TextInputView};
use crate::vcalendar::opt_view;

verus! {

/// The mode of a list screen, as the specification sees it.
pub enum ListModeView {
    Browse,
    /// `marks[i]`: is row `i` (an index into all rows) marked?
    Remove { marks: Seq<bool> },
    /// The filter being typed and the committed filter to restore on Esc.
    Search { draft: TextInputView, previous_filter: Option<Seq<char>> },
}

/// Mathematical model of a list screen.
pub struct ListView {
    /// Every row, filtered or not.
    pub items: Seq<Seq<char>>,
    /// The selected position within the filtered rows.
    pub selected: Option<nat>,
    pub mode: ListModeView,
    /// The committed filter (lower-cased), if any.
    pub filter: Option<Seq<char>>,
    pub file_label: Seq<char>,
    pub transient_status: Option<Seq<char>>,
}

/// What a list screen asks of the caller, as the specification sees it.
pub enum ListActionView {
    Continue,
    Quit,
    /// Remove the rows at these 1-based indices.
    Remove(Seq<usize>),
    OpenAdd,
    /// Edit the row at this 1-based index.
    OpenEdit(nat),
    OpenHelp,
}

/// Does `r` carry the action `a`?
pub open spec fn action_is(r: ScreenAction, a: ListActionView) -> bool {
    match a {
        ListActionView::Continue => r == ScreenAction::Continue,
        ListActionView::Quit => r == ScreenAction::Quit,
        ListActionView::Remove(s) => r matches ScreenAction::RemoveByIndices(ix) && ix@ == s,
        ListActionView::OpenAdd => r == (ScreenAction::OpenAdd { start_hint: None, end_hint: None }),
        ListActionView::OpenEdit(k) => r == (ScreenAction::OpenEdit { event_index: k as usize }),
        ListActionView::OpenHelp => r == ScreenAction::OpenHelp,
    }
}

/// Does a row pass the filter `needle`? (Lower-cased substring match;
/// no filter passes every row.)
pub open spec fn item_matches(item: Seq<char>, needle: Option<Seq<char>>) -> bool {
    match needle {
        None => true,
        Some(n) => contains_seq(unicode_lowercase(item), n),
    }
}

/// Indices, in order, of the first `k` rows that pass `needle`.
pub open spec fn matching_upto(items: Seq<Seq<char>>, needle: Option<Seq<char>>, k: nat) -> Seq<
    usize,
>
    decreases k,
{
    if k == 0 {
        seq![]
    } else {
        let p = matching_upto(items, needle, (k - 1) as nat);
        if item_matches(items[k - 1], needle) {
            p.push((k - 1) as usize)
        } else {
            p
        }
    }
}

/// The indices `matching_upto` picks are strictly increasing and below
/// `k`.
pub proof fn lemma_matching_bounds(items: Seq<Seq<char>>, needle: Option<Seq<char>>, k: nat)
    requires
        k <= usize::MAX,
    ensures
        forall|i: int|
            0 <= i < matching_upto(items, needle, k).len() ==> #[trigger] matching_upto(
                items,
                needle,
                k,
            )[i] < k,
        forall|i: int, j: int|
            0 <= i < j < matching_upto(items, needle, k).len() ==> matching_upto(items, needle, k)[i]
                < matching_upto(items, needle, k)[j],
        matching_upto(items, needle, k).len() <= k,
    decreases k,
{
    if k > 0 {
        lemma_matching_bounds(items, needle, (k - 1) as nat);
    }
}

/// The filter in force: the lower-cased draft while searching, else the
/// committed filter.
pub open spec fn active_needle(v: ListView) -> Option<Seq<char>> {
    match v.mode {
        ListModeView::Search { draft, .. } => Some(unicode_lowercase(draft.text)),
        _ => v.filter,
    }
}

/// Indices into all rows of the rows that pass the filter in force.
pub open spec fn filtered(v: ListView) -> Seq<usize> {
    matching_upto(v.items, active_needle(v), v.items.len())
}

/// The selection pulled back into the filtered rows (none when no row
/// passes).
pub open spec fn clamped(v: ListView) -> ListView {
    let n = filtered(v).len();
    let cur: nat = match v.selected {
        Some(s) => s,
        None => 0,
    };
    ListView {
        selected: if n == 0 {
            None
        } else if cur < n {
            Some(cur)
        } else {
            Some((n - 1) as nat)
        },
        ..v
    }
}

/// The selection moved by `delta` rows, stopping at both ends.
pub open spec fn moved(v: ListView, delta: int) -> ListView {
    let n = filtered(v).len();
    let cur: int = match v.selected {
        Some(s) => s as int,
        None => 0,
    };
    let next = cur + delta;
    ListView {
        selected: if n == 0 {
            None
        } else if next < 0 {
            Some(0)
        } else if next >= n {
            Some((n - 1) as nat)
        } else {
            Some(next as nat)
        },
        ..v
    }
}

/// The index into all rows of the selected row, if any.
pub open spec fn selected_original(v: ListView) -> Option<usize> {
    match v.selected {
        Some(s) => if s < filtered(v).len() {
            Some(filtered(v)[s as int])
        } else {
            None
        },
        None => None,
    }
}

/// 1-based indices, in order, of the marked rows among the first `k`.
pub open spec fn marked_upto(marks: Seq<bool>, k: nat) -> Seq<usize>
    decreases k,
{
    if k == 0 {
        seq![]
    } else {
        let p = marked_upto(marks, (k - 1) as nat);
        if marks[k - 1] {
            p.push(k as usize)
        } else {
            p
        }
    }
}

/// The filter committed from a draft: trimmed and lower-cased, none when
/// that is empty.
pub open spec fn committed_filter(text: Seq<char>) -> Option<Seq<char>> {
    let f = unicode_lowercase(trim_spec(text));
    if f.len() == 0 {
        None
    } else {
        Some(f)
    }
}

/// The screen with `op` applied to the search draft.
pub open spec fn with_draft_op(v: ListView, op: TextOp) -> ListView {
    match v.mode {
        ListModeView::Search { draft, previous_filter } => ListView {
            mode: ListModeView::Search { draft: text_op_spec(draft, op), previous_filter },
            ..v
        },
        _ => v,
    }
}

/// The state after an intent in Search mode.
pub open spec fn search_step(v: ListView, intent: Intent) -> ListView {
    match v.mode {
        ListModeView::Search { draft, previous_filter } => match intent {
            Intent::Cancel => clamped(
                ListView { filter: previous_filter, mode: ListModeView::Browse, ..v },
            ),
            Intent::SubmitForm => clamped(
                ListView {
                    filter: committed_filter(draft.text),
                    mode: ListModeView::Browse,
                    ..v
                },
            ),
            Intent::TypeChar(c) => clamped(with_draft_op(v, TextOp::Insert(c))),
            Intent::Backspace => clamped(with_draft_op(v, TextOp::Backspace)),
            Intent::NavLeft => with_draft_op(v, TextOp::Left),
            Intent::NavRight => with_draft_op(v, TextOp::Right),
            Intent::NavTop => with_draft_op(v, TextOp::Home),
            Intent::NavBottom => with_draft_op(v, TextOp::End),
            _ => v,
        },
        _ => v,
    }
}

/// The action of an intent in Search mode.
pub open spec fn search_action(intent: Intent) -> ListActionView {
    match intent {
        Intent::ForceQuit => ListActionView::Quit,
        Intent::OpenHelp => ListActionView::OpenHelp,
        _ => ListActionView::Continue,
    }
}

/// The state after an intent in Browse or Remove mode.
pub open spec fn browse_step(v: ListView, intent: Intent) -> ListView {
    let n = filtered(v).len();
    match intent {
        Intent::Cancel => match v.mode {
            ListModeView::Remove { .. } => ListView { mode: ListModeView::Browse, ..v },
            _ => v,
        },
        Intent::NavDown => moved(v, 1),
        Intent::NavUp => moved(v, -1),
        Intent::NavTop => if n > 0 {
            ListView { selected: Some(0), ..v }
        } else {
            v
        },
        Intent::NavBottom => if n > 0 {
            ListView { selected: Some((n - 1) as nat), ..v }
        } else {
            v
        },
        Intent::OpenRemove => if n > 0 && v.mode is Browse {
            ListView {
                mode: ListModeView::Remove { marks: Seq::new(v.items.len(), |i: int| false) },
                ..v
            }
        } else {
            v
        },
        Intent::ToggleMark => match (selected_original(v), v.mode) {
            (Some(o), ListModeView::Remove { marks }) => ListView {
                mode: ListModeView::Remove { marks: marks.update(o as int, !marks[o as int]) },
                ..v
            },
            _ => v,
        },
        Intent::OpenSearch => if v.mode is Browse {
            let initial = match v.filter {
                Some(f) => f,
                None => seq![],
            };
            ListView {
                mode: ListModeView::Search {
                    draft: TextInputView { text: initial, cursor: initial.len() },
                    previous_filter: v.filter,
                },
                ..v
            }
        } else {
            v
        },
        _ => v,
    }
}

/// The action of an intent in Browse or Remove mode.
pub open spec fn browse_action(v: ListView, intent: Intent) -> ListActionView {
    match intent {
        Intent::Quit | Intent::ForceQuit => ListActionView::Quit,
        Intent::Confirm => match v.mode {
            ListModeView::Remove { marks } => if marked_upto(marks, marks.len()).len() > 0 {
                ListActionView::Remove(marked_upto(marks, marks.len()))
            } else {
                ListActionView::Continue
            },
            _ => ListActionView::Continue,
        },
        Intent::OpenAdd => if v.mode is Browse {
            ListActionView::OpenAdd
        } else {
            ListActionView::Continue
        },
        Intent::OpenEdit => match (v.mode, selected_original(v)) {
            (ListModeView::Browse, Some(o)) => ListActionView::OpenEdit((o + 1) as nat),
            _ => ListActionView::Continue,
        },
        Intent::OpenHelp => ListActionView::OpenHelp,
        _ => ListActionView::Continue,
    }
}

/// The state after any intent (the one-shot status is always cleared).
pub open spec fn list_step(v: ListView, intent: Intent) -> ListView {
    let w = if v.mode is Search {
        search_step(v, intent)
    } else {
        browse_step(v, intent)
    };
    ListView { transient_status: None, ..w }
}

/// The action of any intent.
pub open spec fn list_action(v: ListView, intent: Intent) -> ListActionView {
    if v.mode is Search {
        search_action(intent)
    } else {
        browse_action(v, intent)
    }
}

/// Can the search draft take one more character?
pub open spec fn list_bounded(v: ListView) -> bool {
    match v.mode {
        ListModeView::Search { draft, .. } => draft.text.len() < usize::MAX,
        _ => true,
    }
}

enum ListMode {
    Browse,
    Remove { marks: Vec<bool> },
    Search { draft: TextInput, previous_filter: Option<String> },
}

/// The event list screen.
pub struct ListScreen {
    items: Vec<String>,
    selected: Option<usize>,
    file_label: String,
    mode: ListMode,
    filter: Option<String>,
    transient_status: Option<String>,
}

impl View for ListScreen {
    type V = ListView;

    closed spec fn view(&self) -> ListView {
        ListView {
            items: self.items.deep_view(),
            selected: match self.selected {
                Some(s) => Some(s as nat),
                None => None,
            },
            mode: match self.mode {
                ListMode::Browse => ListModeView::Browse,
                ListMode::Remove { marks } => ListModeView::Remove { marks: marks@ },
                ListMode::Search { draft, previous_filter } => ListModeView::Search {
                    draft: draft@,
                    previous_filter: opt_view(previous_filter),
                },
            },
            filter: opt_view(self.filter),
            file_label: self.file_label@,
            transient_status: opt_view(self.transient_status),
        }
    }
}

/// Model of an optional character vector.
pub open spec fn chars_opt(o: Option<Vec<char>>) -> Option<Seq<char>> {
    match o {
        Some(v) => Some(v@),
        None => None,
    }
}

fn copy_opt(o: &Option<String>) -> (r: Option<String>)
    ensures
        opt_view(r) == opt_view(*o),
{
    match o {
        Some(s) => Some(string_of(&chars_of(s.as_str()))),
        None => None,
    }
}

impl ListScreen {
    /// Every row count fits an index with room to spare, and Remove mode
    /// has one mark per row.
    #[verifier::type_invariant]
    spec fn well_formed(&self) -> bool {
        &&& self.items.len() < usize::MAX
        &&& match self.mode {
            ListMode::Remove { marks } => marks.len() == self.items.len(),
            _ => true,
        }
    }

    /// A screen in Browse mode showing `items`, the first one selected.
    pub fn with_items(items: Vec<String>, file_label: &str) -> (r: ListScreen)
        requires
            items.len() < usize::MAX,
        ensures
            r@.items == items.deep_view(),
            r@.selected == (if items.len() > 0 {
                Some(0nat)
            } else {
                None
            }),
            r@.mode is Browse,
            r@.filter is None,
            r@.file_label == file_label@,
            r@.transient_status is None,
    {
        let selected = if items.len() > 0 {
            Some(0)
        } else {
            None
        };
        ListScreen {
            items,
            selected,
            file_label: string_of(&chars_of(file_label)),
            mode: ListMode::Browse,
            filter: None,
            transient_status: None,
        }
    }

    /// A screen listing `events`, one line per event as `list` prints it.
    pub fn from_events(events: &[VEvent], file_label: &str) -> (r: ListScreen)
        requires
            events.len() < usize::MAX,
            forall|i: int| 0 <= i < events.len() ==> renderable(#[trigger] events[i]@),
        ensures
            r@.items.len() == events.len(),
            forall|i: int| 0 <= i < events.len() ==> r@.items[i] == event_line(#[trigger] events[i]@),
            r@.selected == (if events.len() > 0 {
                Some(0nat)
            } else {
                None
            }),
            r@.mode is Browse,
            r@.filter is None,
            r@.file_label == file_label@,
            r@.transient_status is None,
    {
        let mut items: Vec<String> = Vec::new();
        let mut i: usize = 0;
        while i < events.len()
            invariant
                i <= events.len(),
                forall|k: int| 0 <= k < events.len() ==> renderable(#[trigger] events[k]@),
                items.len() == i,
                forall|k: int| 0 <= k < i ==> items.deep_view()[k] == event_line(#[trigger] events[k]@),
            decreases events.len() - i,
        {
            items.push(format_event_line(&events[i]));
            i = i + 1;
        }
        ListScreen::with_items(items, file_label)
    }

    /// A screen with three sample rows.
    pub fn placeholder(file_label: &str) -> (r: ListScreen)
        ensures
            r@.items == seq![
                "(placeholder) 2026-01-01 : 元日"@,
                "(placeholder) 2026-02-11 : 建国記念の日"@,
                "(placeholder) 2026-05-03 to 2026-05-06 : 連休"@,
            ],
            r@.selected == Some(0nat),
            r@.mode is Browse,
            r@.filter is None,
            r@.file_label == file_label@,
    {
        let mut items: Vec<String> = Vec::new();
        items.push(string_of(&chars_of("(placeholder) 2026-01-01 : 元日")));
        items.push(string_of(&chars_of("(placeholder) 2026-02-11 : 建国記念の日")));
        items.push(string_of(&chars_of("(placeholder) 2026-05-03 to 2026-05-06 : 連休")));
        assert(items.deep_view() =~= seq![
            "(placeholder) 2026-01-01 : 元日"@,
            "(placeholder) 2026-02-11 : 建国記念の日"@,
            "(placeholder) 2026-05-03 to 2026-05-06 : 連休"@,
        ]);
        ListScreen::with_items(items, file_label)
    }

    /// Every row, filtered or not.
    pub fn items(&self) -> (r: &Vec<String>)
        ensures
            r.deep_view() == self@.items,
    {
        &self.items
    }

    /// Number of rows, filtered or not.
    pub fn item_count(&self) -> (r: usize)
        ensures
            r == self@.items.len(),
    {
        self.items.len()
    }

    /// The selected position within the filtered rows.
    pub fn selected(&self) -> (r: Option<usize>)
        ensures
            r matches Some(s) ==> self@.selected == Some(s as nat),
            r is None <==> self@.selected is None,
    {
        self.selected
    }

    /// The committed filter.
    pub fn filter(&self) -> (r: Option<&str>)
        ensures
            r matches Some(f) ==> self@.filter == Some(f@),
            r is None <==> self@.filter is None,
    {
        match &self.filter {
            Some(f) => Some(f.as_str()),
            None => None,
        }
    }

    /// The label of the file on display.
    pub fn file_label(&self) -> (r: &str)
        ensures
            r@ == self@.file_label,
    {
        self.file_label.as_str()
    }

    /// The one-shot status message, if any.
    pub fn transient_status(&self) -> (r: Option<&str>)
        ensures
            r matches Some(m) ==> self@.transient_status == Some(m@),
            r is None <==> self@.transient_status is None,
    {
        match &self.transient_status {
            Some(m) => Some(m.as_str()),
            None => None,
        }
    }

    /// Show `msg` on the status bar until the next intent.
    pub fn set_transient_status(&mut self, msg: &str)
        ensures
            final(self)@ == (ListView { transient_status: Some(msg@), ..old(self)@ }),
    {
        proof {
            use_type_invariant(&*self);
        }
        self.transient_status = Some(string_of(&chars_of(msg)));
    }

    /// Is the screen in Remove mode?
    pub fn is_remove_mode(&self) -> (r: bool)
        ensures
            r == self@.mode is Remove,
    {
        match self.mode {
            ListMode::Remove { .. } => true,
            _ => false,
        }
    }

    /// Is the screen in Search mode (keys are typed text)?
    pub fn is_search_mode(&self) -> (r: bool)
        ensures
            r == self@.mode is Search,
    {
        match self.mode {
            ListMode::Search { .. } => true,
            _ => false,
        }
    }

    /// Can the search draft take one more character?
    pub fn has_room(&self) -> (r: bool)
        ensures
            r == list_bounded(self@),
    {
        match &self.mode {
            ListMode::Search { draft, .. } => draft.len_chars() < usize::MAX,
            _ => true,
        }
    }

    /// The search draft, when searching.
    pub fn search_draft(&self) -> (r: Option<&TextInput>)
        ensures
            r matches Some(d) ==> self@.mode matches ListModeView::Search { draft, .. } && d@
                == draft,
            r is None <==> !(self@.mode is Search),
    {
        match &self.mode {
            ListMode::Search { draft, .. } => Some(draft),
            _ => None,
        }
    }

    /// The rows on display, as indices into all rows.
    pub fn filtered_indices(&self) -> (r: Vec<usize>)
        ensures
            r@ == filtered(self@),
    {
        let needle: Option<Vec<char>> = match &self.mode {
            ListMode::Search { draft, .. } => {
                let low = to_lowercase(draft.value().as_str());
                Some(chars_of(low.as_str()))
            },
            _ => match &self.filter {
                Some(f) => Some(chars_of(f.as_str())),
                None => None,
            },
        };
        let ghost nv = chars_opt(needle);
        assert(nv == active_needle(self@));
        let ghost items = self.items.deep_view();
        let mut out: Vec<usize> = Vec::new();
        let mut i: usize = 0;
        while i < self.items.len()
            invariant
                i <= self.items.len(),
                items == self.items.deep_view(),
                nv == chars_opt(needle),
                out@ == matching_upto(items, nv, i as nat),
            decreases self.items.len() - i,
        {
            assert(self.items[i as int]@ == items[i as int]);
            let keep = match &needle {
                None => true,
                Some(n) => {
                    let low = to_lowercase(self.items[i].as_str());
                    contains_chars(&chars_of(low.as_str()), n)
                },
            };
            if keep {
                out.push(i);
            }
            i = i + 1;
        }
        out
    }

    /// The rows shown, in order, each with its mark: in Remove mode the
    /// text is prefixed `[x] ` or `[ ] `.
    pub fn display_rows(&self) -> (r: Vec<(String, bool)>)
        ensures
            r@.len() == filtered(self@).len(),
            forall|i: int|
                0 <= i < r@.len() ==> (#[trigger] r@[i]).0@ == list_row_spec(
                    self@,
                    filtered(self@)[i] as int,
                ).0 && r@[i].1 == list_row_spec(self@, filtered(self@)[i] as int).1,
    {
        proof {
            use_type_invariant(self);
            lemma_matching_bounds(self@.items, active_needle(self@), self@.items.len());
        }
        let idx = self.filtered_indices();
        let ghost v = self@;
        let mut out: Vec<(String, bool)> = Vec::new();
        let mut i: usize = 0;
        while i < idx.len()
            invariant
                i <= idx.len(),
                v == self@,
                idx@ == filtered(v),
                forall|k: int| 0 <= k < idx@.len() ==> #[trigger] idx@[k] < v.items.len(),
                v.items.len() == self.items.len(),
                self.mode matches ListMode::Remove { marks } ==> marks.len() == self.items.len(),
                out@.len() == i,
                forall|k: int|
                    0 <= k < i ==> (#[trigger] out@[k]).0@ == list_row_spec(v, idx@[k] as int).0
                        && out@[k].1 == list_row_spec(v, idx@[k] as int).1,
            decreases idx.len() - i,
        {
            let o = idx[i];
            assert(o < v.items.len());
            let text = &self.items[o];
            assert(text@ == v.items[o as int]);
            let row = match &self.mode {
                ListMode::Remove { marks } => {
                    let m = marks[o];
                    let mut t: Vec<char> = if m {
                        chars_of("[x] ")
                    } else {
                        chars_of("[ ] ")
                    };
                    push_chars(&mut t, &chars_of(text.as_str()));
                    (string_of(&t), m)
                },
                _ => (string_of(&chars_of(text.as_str())), false),
            };
            out.push(row);
            i = i + 1;
        }
        out
    }

    /// Marked rows as 0-based indices into all rows; empty outside
    /// Remove mode.
    pub fn marked(&self) -> (r: Vec<usize>)
        ensures
            match self@.mode {
                ListModeView::Remove { marks } => r@.len() == marked_upto(marks, marks.len()).len()
                    && forall|i: int|
                    0 <= i < r@.len() ==> r@[i] + 1 == #[trigger] marked_upto(marks, marks.len())[i],
                _ => r@.len() == 0,
            },
    {
        proof {
            use_type_invariant(self);
        }
        match &self.mode {
            ListMode::Remove { marks } => {
                let one_based = marked_of(marks);
                let mut out: Vec<usize> = Vec::new();
                let mut i: usize = 0;
                while i < one_based.len()
                    invariant
                        i <= one_based.len(),
                        out@.len() == i,
                        one_based@ == marked_upto(marks@, marks@.len()),
                        forall|k: int| 0 <= k < one_based@.len() ==> one_based@[k] >= 1,
                        forall|k: int| 0 <= k < i ==> out@[k] + 1 == one_based@[k],
                    decreases one_based.len() - i,
                {
                    out.push(one_based[i] - 1);
                    i = i + 1;
                }
                out
            },
            _ => Vec::new(),
        }
    }

    fn selected_original_index(&self) -> (r: Option<usize>)
        ensures
            r == selected_original(self@),
            r matches Some(o) ==> o < self@.items.len(),
    {
        proof {
            use_type_invariant(self);
            lemma_matching_bounds(self@.items, active_needle(self@), self@.items.len());
        }
        let f = self.filtered_indices();
        match self.selected {
            Some(s) => if s < f.len() {
                Some(f[s])
            } else {
                None
            },
            None => None,
        }
    }

    fn clamp_selection(&mut self)
        ensures
            final(self)@ == clamped(old(self)@),
    {
        proof {
            use_type_invariant(&*self);
        }
        let n = self.filtered_indices().len();
        if n == 0 {
            self.selected = None;
        } else {
            let cur = match self.selected {
                Some(s) => s,
                None => 0,
            };
            self.selected = if cur < n {
                Some(cur)
            } else {
                Some(n - 1)
            };
        }
    }

    fn move_cursor(&mut self, down: bool)
        ensures
            final(self)@ == moved(old(self)@, if down {
                1
            } else {
                -1
            }),
    {
        proof {
            use_type_invariant(&*self);
        }
        let n = self.filtered_indices().len();
        if n == 0 {
            self.selected = None;
            return ;
        }
        let cur = match self.selected {
            Some(s) => s,
            None => 0,
        };
        self.selected = if down {
            if cur >= n - 1 {
                Some(n - 1)
            } else {
                Some(cur + 1)
            }
        } else {
            if cur == 0 {
                Some(0)
            } else if cur - 1 >= n {
                Some(n - 1)
            } else {
                Some(cur - 1)
            }
        };
    }

    fn draft_op(&mut self, op: TextOp)
        requires
            op is Insert ==> list_bounded(old(self)@),
        ensures
            final(self)@ == with_draft_op(old(self)@, op),
    {
        proof {
            use_type_invariant(&*self);
        }
        let mut mode = ListMode::Browse;
        std::mem::swap(&mut mode, &mut self.mode);
        let new_mode = match mode {
            ListMode::Search { draft, previous_filter } => {
                let mut d = draft;
                apply_text_op(&mut d, op);
                ListMode::Search { draft: d, previous_filter }
            },
            other => other,
        };
        self.mode = new_mode;
    }

    fn handle_search(&mut self, intent: Intent) -> (r: ScreenAction)
        requires
            old(self)@.mode is Search,
            list_bounded(old(self)@),
        ensures
            final(self)@ == search_step(old(self)@, intent),
            action_is(r, search_action(intent)),
    {
        proof {
            use_type_invariant(&*self);
        }
        match intent {
            Intent::ForceQuit => ScreenAction::Quit,
            Intent::Cancel => {
                let prev = match &self.mode {
                    ListMode::Search { previous_filter, .. } => copy_opt(previous_filter),
                    _ => None,
                };
                self.filter = prev;
                self.mode = ListMode::Browse;
                self.clamp_selection();
                ScreenAction::Continue
            },
            Intent::SubmitForm => {
                let committed = match &self.mode {
                    ListMode::Search { draft, .. } => {
                        let trimmed = string_of(&trim_chars(&chars_of(draft.value().as_str())));
                        let low = to_lowercase(trimmed.as_str());
                        if chars_of(low.as_str()).len() == 0 {
                            None
                        } else {
                            Some(low)
                        }
                    },
                    _ => None,
                };
                self.filter = committed;
                self.mode = ListMode::Browse;
                self.clamp_selection();
                ScreenAction::Continue
            },
            Intent::TypeChar(c) => {
                self.draft_op(TextOp::Insert(c));
                self.clamp_selection();
                ScreenAction::Continue
            },
            Intent::Backspace => {
                self.draft_op(TextOp::Backspace);
                self.clamp_selection();
                ScreenAction::Continue
            },
            Intent::NavLeft => {
                self.draft_op(TextOp::Left);
                ScreenAction::Continue
            },
            Intent::NavRight => {
                self.draft_op(TextOp::Right);
                ScreenAction::Continue
            },
            Intent::NavTop => {
                self.draft_op(TextOp::Home);
                ScreenAction::Continue
            },
            Intent::NavBottom => {
                self.draft_op(TextOp::End);
                ScreenAction::Continue
            },
            Intent::OpenHelp => ScreenAction::OpenHelp,
            _ => ScreenAction::Continue,
        }
    }

    fn handle_browse_or_remove(&mut self, intent: Intent) -> (r: ScreenAction)
        requires
            !(old(self)@.mode is Search),
        ensures
            final(self)@ == browse_step(old(self)@, intent),
            action_is(r, browse_action(old(self)@, intent)),
    {
        proof {
            use_type_invariant(&*self);
        }
        match intent {
            Intent::Quit | Intent::ForceQuit => ScreenAction::Quit,
            Intent::Cancel => {
                if let ListMode::Remove { .. } = self.mode {
                    self.mode = ListMode::Browse;
                }
                ScreenAction::Continue
            },
            Intent::NavDown => {
                self.move_cursor(true);
                ScreenAction::Continue
            },
            Intent::NavUp => {
                self.move_cursor(false);
                ScreenAction::Continue
            },
            Intent::NavTop => {
                let n = self.filtered_indices().len();
                if n > 0 {
                    self.selected = Some(0);
                }
                ScreenAction::Continue
            },
            Intent::NavBottom => {
                let n = self.filtered_indices().len();
                if n > 0 {
                    self.selected = Some(n - 1);
                }
                ScreenAction::Continue
            },
            Intent::OpenRemove => {
                let n = self.filtered_indices().len();
                let browsing = match self.mode {
                    ListMode::Browse => true,
                    _ => false,
                };
                if n > 0 && browsing {
                    let mut marks: Vec<bool> = Vec::new();
                    let mut i: usize = 0;
                    while i < self.items.len()
                        invariant
                            i <= self.items.len(),
                            marks@ == Seq::new(i as nat, |k: int| false),
                        decreases self.items.len() - i,
                    {
                        marks.push(false);
                        i = i + 1;
                    }
                    assert(marks@ =~= Seq::new(self.items@.len(), |k: int| false));
                    self.mode = ListMode::Remove { marks };
                }
                ScreenAction::Continue
            },
            Intent::ToggleMark => {
                let sel = self.selected_original_index();
                match sel {
                    Some(o) => {
                        let mut mode = ListMode::Browse;
                        std::mem::swap(&mut mode, &mut self.mode);
                        let new_mode = match mode {
                            ListMode::Remove { marks } => {
                                let mut m = marks;
                                let flipped = !m[o];
                                m.set(o, flipped);
                                ListMode::Remove { marks: m }
                            },
                            other => other,
                        };
                        self.mode = new_mode;
                    },
                    None => {},
                }
                ScreenAction::Continue
            },
            Intent::Confirm => {
                match &self.mode {
                    ListMode::Remove { marks } => {
                        let indices = marked_of(marks);
                        if indices.len() > 0 {
                            ScreenAction::RemoveByIndices(indices)
                        } else {
                            ScreenAction::Continue
                        }
                    },
                    _ => ScreenAction::Continue,
                }
            },
            Intent::OpenAdd => match self.mode {
                ListMode::Browse => ScreenAction::OpenAdd { start_hint: None, end_hint: None },
                _ => ScreenAction::Continue,
            },
            Intent::OpenEdit => {
                let browsing = match self.mode {
                    ListMode::Browse => true,
                    _ => false,
                };
                if browsing {
                    match self.selected_original_index() {
                        Some(o) => ScreenAction::OpenEdit { event_index: o + 1 },
                        None => ScreenAction::Continue,
                    }
                } else {
                    ScreenAction::Continue
                }
            },
            Intent::OpenSearch => {
                let browsing = match self.mode {
                    ListMode::Browse => true,
                    _ => false,
                };
                if browsing {
                    let initial = match &self.filter {
                        Some(f) => string_of(&chars_of(f.as_str())),
                        None => string_of(&Vec::new()),
                    };
                    let draft = TextInput::with_value(initial.as_str());
                    let previous_filter = copy_opt(&self.filter);
                    self.mode = ListMode::Search { draft, previous_filter };
                }
                ScreenAction::Continue
            },
            Intent::OpenHelp => ScreenAction::OpenHelp,
            _ => ScreenAction::Continue,
        }
    }

    /// React to an intent; see the module documentation for the keys of
    /// each mode.
    pub fn handle(&mut self, intent: Intent) -> (r: ScreenAction)
        requires
            list_bounded(old(self)@),
        ensures
            final(self)@ == list_step(old(self)@, intent),
            action_is(r, list_action(old(self)@, intent)),
    {
        proof {
            use_type_invariant(&*self);
        }
        self.transient_status = None;
        let searching = match self.mode {
            ListMode::Search { .. } => true,
            _ => false,
        };
        if searching {
            self.handle_search(intent)
        } else {
            self.handle_browse_or_remove(intent)
        }
    }
}

/// 1-based indices of the marked rows, in order.
fn marked_of(marks: &Vec<bool>) -> (r: Vec<usize>)
    requires
        marks.len() < usize::MAX,
    ensures
        r@ == marked_upto(marks@, marks@.len()),
        forall|k: int| 0 <= k < r@.len() ==> r@[k] >= 1,
{
    let mut out: Vec<usize> = Vec::new();
    let mut i: usize = 0;
    while i < marks.len()
        invariant
            i <= marks.len(),
            marks.len() < usize::MAX,
            out@ == marked_upto(marks@, i as nat),
            forall|k: int| 0 <= k < out@.len() ==> out@[k] >= 1,
        decreases marks.len() - i,
    {
        if marks[i] {
            out.push(i + 1);
        }
        i = i + 1;
    }
    out
}

} // verus!

verus! {

/// The state after a sequence of intents, taken in order.
pub open spec fn list_run(v: ListView, xs: Seq<Intent>) -> ListView
    decreases xs.len(),
{
    if xs.len() == 0 {
        v
    } else {
        list_step(list_run(v, xs.drop_last()), xs.last())
    }
}

/// While searching, no intent but `Cancel` and `SubmitForm` leaves
/// Search mode, and none touches the rows or the filter to restore.
pub proof fn lemma_search_keeps_previous_filter(v: ListView, xs: Seq<Intent>)
    requires
        v.mode is Search,
        forall|i: int| 0 <= i < xs.len() ==> !(#[trigger] xs[i] is Cancel) && !(xs[i] is SubmitForm),
    ensures
        list_run(v, xs).mode is Search,
        list_run(v, xs).items == v.items,
        list_run(v, xs).mode->previous_filter == v.mode->previous_filter,
    decreases xs.len(),
{
    if xs.len() > 0 {
        let ys = xs.drop_last();
        assert forall|i: int| 0 <= i < ys.len() implies !(#[trigger] ys[i] is Cancel) && !(
        ys[i] is SubmitForm) by {
            assert(ys[i] == xs[i]);
        }
        lemma_search_keeps_previous_filter(v, ys);
        assert(xs.last() == xs[xs.len() - 1]);
    }
}

/// Esc in Search restores the filter the screen had when Search was
/// opened, whatever was typed or edited in between, and returns to
/// Browse mode over the same rows.
pub proof fn lemma_search_cancel_restores_filter(v: ListView, xs: Seq<Intent>)
    requires
        v.mode is Browse,
        forall|i: int| 0 <= i < xs.len() ==> !(#[trigger] xs[i] is Cancel) && !(xs[i] is SubmitForm),
    ensures
        ({
            let w = list_step(list_run(list_step(v, Intent::OpenSearch), xs), Intent::Cancel);
            &&& w.filter == v.filter
            &&& w.mode is Browse
            &&& w.items == v.items
        }),
{
    let s = list_step(v, Intent::OpenSearch);
    assert(s.mode is Search);
    assert(s.mode->previous_filter == v.filter);
    lemma_search_keeps_previous_filter(s, xs);
}

/// In Remove mode, marking the selected row twice leaves the marks as
/// they were.
pub proof fn lemma_toggle_mark_twice(v: ListView)
    requires
        v.mode is Remove,
        v.mode->marks.len() == v.items.len(),
        v.items.len() < usize::MAX,
    ensures
        list_step(list_step(v, Intent::ToggleMark), Intent::ToggleMark).mode == v.mode,
        list_step(list_step(v, Intent::ToggleMark), Intent::ToggleMark).selected == v.selected,
{
    let w = list_step(v, Intent::ToggleMark);
    lemma_matching_bounds(v.items, active_needle(v), v.items.len());
    assert(filtered(w) == filtered(v));
    assert(selected_original(w) == selected_original(v));
    match (selected_original(v), v.mode) {
        (Some(o), ListModeView::Remove { marks }) => {
            let m2 = marks.update(o as int, !marks[o as int]);
            assert(m2.update(o as int, !m2[o as int]) =~= marks);
        },
        _ => {},
    }
}

/// The rows handed over for removal are 1-based, strictly increasing and
/// within the row count.
pub proof fn lemma_marked_bounds(marks: Seq<bool>, k: nat)
    requires
        k <= marks.len(),
        marks.len() < usize::MAX,
    ensures
        forall|i: int|
            0 <= i < marked_upto(marks, k).len() ==> 1 <= #[trigger] marked_upto(marks, k)[i] <= k,
        forall|i: int, j: int|
            0 <= i < j < marked_upto(marks, k).len() ==> marked_upto(marks, k)[i] < marked_upto(
                marks,
                k,
            )[j],
        forall|i: int| 0 <= i < k ==> (marks[i] <==> marked_upto(marks, k).contains((i + 1) as usize)),
    decreases k,
{
    if k > 0 {
        lemma_marked_bounds(marks, (k - 1) as nat);
        let p = marked_upto(marks, (k - 1) as nat);
        assert forall|i: int| 0 <= i < k implies (marks[i] <==> marked_upto(marks, k).contains(
            (i + 1) as usize,
        )) by {
            if i < k - 1 {
                if marks[k - 1] {
                    let q = p.push(k as usize);
                    if q.contains((i + 1) as usize) {
                        let j = choose|j: int| 0 <= j < q.len() && #[trigger] q[j] == (i + 1) as usize;
                        if j < p.len() {
                            assert(p[j] == (i + 1) as usize);
                        }
                    }
                    if p.contains((i + 1) as usize) {
                        let j = choose|j: int| 0 <= j < p.len() && #[trigger] p[j] == (i + 1) as usize;
                        assert(q[j] == (i + 1) as usize);
                    }
                }
            } else {
                if marks[k - 1] {
                    assert(marked_upto(marks, k)[p.len() as int] == k as usize);
                } else {
                    if p.contains(k as usize) {
                        let j = choose|j: int| 0 <= j < p.len() && #[trigger] p[j] == k as usize;
                        assert(p[j] <= k - 1);
                    }
                }
            }
        }
    }
}

/// Moving the selection keeps it on a displayed row: it is empty exactly
/// when no row is displayed.
pub proof fn lemma_moved_in_range(v: ListView, delta: int)
    ensures
        moved(v, delta).selected is None <==> filtered(v).len() == 0,
        moved(v, delta).selected matches Some(s) ==> s < filtered(v).len(),
        filtered(moved(v, delta)) == filtered(v),
{
}

} // verus!
