//! The active screen and the decisions of the event loop.
//!
//! The loop itself (drawing, reading keys, touching the calendar file)
//! belongs to the program; what it decides stands here: which surface
//! receives an intent, when view switching is intercepted, which view a
//! dismissed overlay returns to, and the status messages it shows.

use vstd::prelude::*;
use crate::date::{dashed_date_chars, dashed_date_text, decimal, decimal_chars, Date};
use crate::error::push_chars;
use crate::text::{chars_of, string_of};
use crate::tui::keymap::Intent;
use crate::tui::screens::add_form::{fields_bounded, form_handled};
use crate::tui::screens::grid::{grid_can_handle, grid_handled, GridScreen};
use crate::tui::screens::help::help_action;
use crate::tui::screens::list::{action_is, list_action, list_bounded, list_step};
use crate::tui::screens::timeline::{
    timeline_action, timeline_can_handle, timeline_step, TimelineScreen,
};
use crate::cli::use_cases::EditPatch;
use crate::tui::screens::{AddForm, AddRequest, HelpScreen, ListScreen, ScreenAction, ViewKind};

verus! {

/// The surface on display.
pub enum Screen {
    List(ListScreen),
    Timeline(TimelineScreen),
    Grid(GridScreen),
    /// The Add form.
    Form(AddForm),
    /// The help overlay.
    Help(HelpScreen),
}

/// Which top-level view a screen is, if it is one.
pub open spec fn kind_of(s: Screen) -> Option<ViewKind> {
    match s {
        Screen::List(_) => Some(ViewKind::List),
        Screen::Timeline(_) => Some(ViewKind::Timeline),
        Screen::Grid(_) => Some(ViewKind::Grid),
        _ => None,
    }
}

/// The file label a screen shows in its status bar.
pub open spec fn screen_label(s: Screen) -> Seq<char> {
    match s {
        Screen::List(l) => l@.file_label,
        Screen::Timeline(t) => t@.file_label,
        Screen::Grid(g) => g@.file_label,
        Screen::Form(f) => f@.file_label,
        Screen::Help(h) => h.label(),
    }
}

/// The one-shot status message a screen shows.
pub open spec fn screen_status(s: Screen) -> Option<Seq<char>> {
    match s {
        Screen::List(l) => l@.transient_status,
        Screen::Timeline(t) => t@.transient_status,
        Screen::Grid(g) => g@.transient_status,
        Screen::Form(f) => f.status(),
        Screen::Help(h) => h.status(),
    }
}

/// Does the screen take typed text (the Form keymap)?
pub open spec fn modal(s: Screen) -> bool {
    match s {
        Screen::Form(_) => true,
        Screen::List(l) => l@.mode is Search,
        _ => false,
    }
}

/// Can the screen handle `intent` (no buffer is full and no cursor
/// leaves the calendar)?
pub open spec fn screen_can_handle(s: Screen, intent: Intent) -> bool {
    match s {
        Screen::List(l) => list_bounded(l@),
        Screen::Timeline(t) => timeline_can_handle(t@, intent),
        Screen::Grid(g) => grid_can_handle(g@, intent),
        Screen::Form(f) => fields_bounded(f@),
        Screen::Help(_) => true,
    }
}

impl Screen {
    /// `Some` for the top-level views, `None` for the form and the help
    /// overlay, on which view switching is inert.
    pub fn kind(&self) -> (r: Option<ViewKind>)
        ensures
            r == kind_of(*self),
    {
        match self {
            Screen::List(_) => Some(ViewKind::List),
            Screen::Timeline(_) => Some(ViewKind::Timeline),
            Screen::Grid(_) => Some(ViewKind::Grid),
            _ => None,
        }
    }

    /// Does the screen take typed text? The form does, and the list
    /// while its search input is open.
    pub fn is_modal(&self) -> (r: bool)
        ensures
            r == modal(*self),
    {
        match self {
            Screen::Form(_) => true,
            Screen::List(l) => l.is_search_mode(),
            _ => false,
        }
    }

    /// Can `handle(intent)` run on this screen?
    pub fn can_handle(&self, intent: Intent) -> (r: bool)
        ensures
            r == screen_can_handle(*self, intent),
    {
        match self {
            Screen::List(l) => l.has_room(),
            Screen::Timeline(t) => t.can_handle(intent),
            Screen::Grid(g) => g.can_handle(intent),
            Screen::Form(f) => f.has_room(),
            Screen::Help(_) => true,
        }
    }

    /// Hand the intent to the screen on display.
    pub fn handle(&mut self, intent: Intent) -> (r: ScreenAction)
        requires
            screen_can_handle(*old(self), intent),
        ensures
            match (*old(self), *final(self)) {
                (Screen::List(a), Screen::List(b)) => b@ == list_step(a@, intent) && action_is(
                    r,
                    list_action(a@, intent),
                ),
                (Screen::Timeline(a), Screen::Timeline(b)) => b@ == timeline_step(a@, intent) && r
                    == timeline_action(intent),
                (Screen::Grid(a), Screen::Grid(b)) => grid_handled(a@, b@, intent, r),
                (Screen::Form(a), Screen::Form(b)) => form_handled(a@, b@, intent, r),
                (Screen::Help(a), Screen::Help(b)) => r == help_action(intent),
                _ => false,
            },
    {
        match self {
            Screen::List(s) => s.handle(intent),
            Screen::Timeline(s) => s.handle(intent),
            Screen::Grid(s) => s.handle(intent),
            Screen::Form(s) => s.handle(intent),
            Screen::Help(s) => s.handle(intent),
        }
    }

    /// Show `msg` on the screen's status bar until the next intent.
    pub fn set_transient_status(&mut self, msg: &str)
        ensures
            kind_of(*final(self)) == kind_of(*old(self)),
            screen_label(*final(self)) == screen_label(*old(self)),
            screen_status(*final(self)) == Some(msg@),
    {
        match self {
            Screen::List(s) => s.set_transient_status(msg),
            Screen::Timeline(s) => s.set_transient_status(msg),
            Screen::Grid(s) => s.set_transient_status(msg),
            Screen::Form(s) => s.set_transient_status(msg),
            Screen::Help(s) => s.set_transient_status(msg),
        }
    }

    /// The label of the file on display.
    pub fn file_label(&self) -> (r: &str)
        ensures
            r@ == screen_label(*self),
    {
        match self {
            Screen::List(s) => s.file_label(),
            Screen::Timeline(s) => s.file_label(),
            Screen::Grid(s) => s.file_label(),
            Screen::Form(s) => s.file_label(),
            Screen::Help(s) => s.file_label(),
        }
    }
}

/// What the event loop does with an intent before any screen sees it.
#[derive(Debug, Clone, Copy, PartialEq, Eq, Structural)]
pub enum Routing {
    /// Give it to the screen on display.
    Deliver,
    /// Replace the screen with a fresh instance of this view.
    SwitchTo(ViewKind),
    /// Drop it.
    Ignore,
}

/// The routing of `intent` when the screen on display is the view
/// `kind` (`None` for the form and the help overlay).
pub open spec fn routing(kind: Option<ViewKind>, intent: Intent) -> Routing {
    match kind {
        Some(k) => match intent {
            Intent::CycleView => Routing::SwitchTo(k.next_spec()),
            Intent::SwitchView(v) => if v == k {
                Routing::Ignore
            } else {
                Routing::SwitchTo(v)
            },
            _ => Routing::Deliver,
        },
        None => Routing::Deliver,
    }
}

/// Route an intent: on a top-level view, Tab cycles the view and the
/// number keys jump to one (a jump to the view on display is dropped);
/// everything else, and everything on an overlay, goes to the screen.
pub fn route_intent(kind: Option<ViewKind>, intent: Intent) -> (r: Routing)
    ensures
        r == routing(kind, intent),
{
    match kind {
        Some(k) => match intent {
            Intent::CycleView => Routing::SwitchTo(k.next()),
            Intent::SwitchView(v) => if v == k {
                Routing::Ignore
            } else {
                Routing::SwitchTo(v)
            },
            _ => Routing::Deliver,
        },
        None => Routing::Deliver,
    }
}

/// Does the action open an overlay (the form or the help)?
pub open spec fn opens_overlay(a: ScreenAction) -> bool {
    match a {
        ScreenAction::OpenAdd { .. } | ScreenAction::OpenEdit { .. } | ScreenAction::OpenEditByUid {
            ..
        } | ScreenAction::OpenHelp => true,
        _ => false,
    }
}

/// The view to return to after an overlay closes: the view on display
/// when an overlay opens, else the one remembered.
pub fn remember_view(previous: ViewKind, kind: Option<ViewKind>, action: &ScreenAction) -> (r:
    ViewKind)
    ensures
        r == match kind {
            Some(k) => if opens_overlay(*action) {
                k
            } else {
                previous
            },
            None => previous,
        },
{
    let opens = match action {
        ScreenAction::OpenAdd { .. } => true,
        ScreenAction::OpenEdit { .. } => true,
        ScreenAction::OpenEditByUid { .. } => true,
        ScreenAction::OpenHelp => true,
        _ => false,
    };
    match kind {
        Some(k) => if opens {
            k
        } else {
            previous
        },
        None => previous,
    }
}

/// `1,3,4`: the indices joined by commas, as the `remove` use case reads
/// them.
pub open spec fn joined_indices(ix: Seq<usize>) -> Seq<char>
    decreases ix.len(),
{
    if ix.len() == 0 {
        seq![]
    } else if ix.len() == 1 {
        decimal(ix[0] as nat)
    } else {
        joined_indices(ix.drop_last()) + seq![','] + decimal(ix.last() as nat)
    }
}

/// The indices joined by commas.
pub fn join_indices(ix: &Vec<usize>) -> (r: String)
    ensures
        r@ == joined_indices(ix@),
{
    let mut out: Vec<char> = Vec::new();
    let mut i: usize = 0;
    while i < ix.len()
        invariant
            i <= ix.len(),
            out@ == joined_indices(ix@.take(i as int)),
        decreases ix.len() - i,
    {
        let ghost t = ix@.take(i + 1);
        assert(t.drop_last() =~= ix@.take(i as int));
        assert(t.last() == ix@[i as int]);
        if i > 0 {
            out.push(',');
        } else {
            assert(ix@.take(0) =~= Seq::<usize>::empty());
        }
        push_chars(&mut out, &decimal_chars(ix[i] as u64));
        proof {
            if i == 0 {
                assert(out@ =~= joined_indices(t));
            } else {
                assert(out@ =~= joined_indices(t));
            }
        }
        i = i + 1;
    }
    assert(ix@.take(i as int) =~= ix@);
    string_of(&out)
}

/// `Removed {n} event(s).`
pub open spec fn removed_message(n: nat) -> Seq<char> {
    "Removed "@ + decimal(n) + " event(s)."@
}

/// `Added: {summary} on {start}`.
pub open spec fn added_message(summary: Seq<char>, start: Date) -> Seq<char> {
    "Added: "@ + summary + " on "@ + dashed_date_text(start)
}

/// `Edited: {summary}`, or `Edited: event #{n}` when the summary is kept.
pub open spec fn edited_message(summary: Option<Seq<char>>, event_index: nat) -> Seq<char> {
    match summary {
        Some(s) => "Edited: "@ + s,
        None => "Edited: event #"@ + decimal(event_index),
    }
}

/// `{what} failed: {error}`.
pub open spec fn failed_message(what: Seq<char>, error: Seq<char>) -> Seq<char> {
    what + " failed: "@ + error
}

/// The status after removing `n` events.
pub fn removed_status(n: usize) -> (r: String)
    ensures
        r@ == removed_message(n as nat),
{
    let mut out = chars_of("Removed ");
    push_chars(&mut out, &decimal_chars(n as u64));
    push_chars(&mut out, &chars_of(" event(s)."));
    string_of(&out)
}

/// The status after adding an event.
pub fn added_status(summary: &str, start: &Date) -> (r: String)
    ensures
        r@ == added_message(summary@, *start),
{
    let mut out = chars_of("Added: ");
    push_chars(&mut out, &chars_of(summary));
    push_chars(&mut out, &chars_of(" on "));
    push_chars(&mut out, &dashed_date_chars(start));
    string_of(&out)
}

/// The status after editing event `event_index` (1-based).
pub fn edited_status(summary: Option<&str>, event_index: usize) -> (r: String)
    ensures
        r@ == edited_message(
            match summary {
                Some(s) => Some(s@),
                None => None,
            },
            event_index as nat,
        ),
{
    match summary {
        Some(s) => {
            let mut out = chars_of("Edited: ");
            push_chars(&mut out, &chars_of(s));
            string_of(&out)
        },
        None => {
            let mut out = chars_of("Edited: event #");
            push_chars(&mut out, &decimal_chars(event_index as u64));
            string_of(&out)
        },
    }
}

/// The status after a failed operation.
pub fn failed_status(what: &str, error: &str) -> (r: String)
    ensures
        r@ == failed_message(what@, error@),
{
    let mut out = chars_of(what);
    push_chars(&mut out, &chars_of(" failed: "));
    push_chars(&mut out, &chars_of(error));
    string_of(&out)
}


/// A change to the calendar file that the loop makes for a screen.
#[derive(Debug, PartialEq)]
pub enum Change {
    /// Remove the events at these 1-based indices.
    Remove(Vec<usize>),
    /// Add an event.
    Add(AddRequest),
    /// Edit the event at this 1-based index.
    Edit { event_index: usize, patch: EditPatch },
}

/// What the loop does with a screen's answer.
#[derive(Debug, PartialEq)]
pub enum Step {
    /// Keep the screen on display.
    Stay,
    /// End the session.
    Quit,
    /// Show a fresh instance of this view, read again from the file.
    Show(ViewKind),
    /// Show the Add form.
    ShowForm,
    /// Show the help overlay.
    ShowHelp,
    /// Make the change. When it succeeds, show `then` read again from the
    /// file, with the change's status; when it fails, keep the screen
    /// with the failure.
    Apply { change: Change, then: ViewKind },
    /// An edit form was asked for; this program has none, so the loop
    /// only notes it.
    NoEditForm,
}

/// The step for the answer `action` of the screen on display (the view
/// `kind`, or an overlay when `None`), with `previous` the view an
/// overlay returns to: a removal redraws the view on display (the list
/// when on an overlay), a submitted form and a dismissed overlay return
/// to `previous`.
pub open spec fn step_spec(kind: Option<ViewKind>, previous: ViewKind, action: ScreenAction) -> Step {
    match action {
        ScreenAction::Continue => Step::Stay,
        ScreenAction::Quit => Step::Quit,
        ScreenAction::RemoveByIndices(ix) => Step::Apply {
            change: Change::Remove(ix),
            then: match kind {
                Some(k) => k,
                None => ViewKind::List,
            },
        },
        ScreenAction::OpenAdd { .. } => Step::ShowForm,
        ScreenAction::OpenEdit { .. } => Step::NoEditForm,
        ScreenAction::OpenEditByUid { .. } => Step::NoEditForm,
        ScreenAction::SubmitAdd(req) => Step::Apply { change: Change::Add(req), then: previous },
        ScreenAction::SubmitEdit { event_index, patch } => Step::Apply {
            change: Change::Edit { event_index, patch },
            then: previous,
        },
        ScreenAction::DismissForm => Step::Show(previous),
        ScreenAction::OpenHelp => Step::ShowHelp,
        ScreenAction::DismissHelp => Step::Show(previous),
    }
}

/// Decide the loop's next step from the screen's answer.
pub fn step_after(kind: Option<ViewKind>, previous: ViewKind, action: ScreenAction) -> (r: Step)
    ensures
        r == step_spec(kind, previous, action),
{
    match action {
        ScreenAction::Continue => Step::Stay,
        ScreenAction::Quit => Step::Quit,
        ScreenAction::RemoveByIndices(ix) => Step::Apply {
            change: Change::Remove(ix),
            then: match kind {
                Some(k) => k,
                None => ViewKind::List,
            },
        },
        ScreenAction::OpenAdd { .. } => Step::ShowForm,
        ScreenAction::OpenEdit { .. } => Step::NoEditForm,
        ScreenAction::OpenEditByUid { .. } => Step::NoEditForm,
        ScreenAction::SubmitAdd(req) => Step::Apply { change: Change::Add(req), then: previous },
        ScreenAction::SubmitEdit { event_index, patch } => Step::Apply {
            change: Change::Edit { event_index, patch },
            then: previous,
        },
        ScreenAction::DismissForm => Step::Show(previous),
        ScreenAction::OpenHelp => Step::ShowHelp,
        ScreenAction::DismissHelp => Step::Show(previous),
    }
}

/// The name of a change in a failure message.
pub open spec fn change_name_spec(c: Change) -> Seq<char> {
    match c {
        Change::Remove(_) => "Remove"@,
        Change::Add(_) => "Add"@,
        Change::Edit { .. } => "Edit"@,
    }
}

/// The status shown once a change has succeeded.
pub open spec fn change_status_spec(c: Change) -> Seq<char> {
    match c {
        Change::Remove(ix) => removed_message(ix@.len()),
        Change::Add(req) => added_message(req.summary@, req.start),
        Change::Edit { event_index, patch } => edited_message(
            match patch.summary {
                Some(s) => Some(s@),
                None => None,
            },
            event_index as nat,
        ),
    }
}

/// The name of a change, as a failure message gives it.
pub fn change_name(c: &Change) -> (r: &'static str)
    ensures
        r@ == change_name_spec(*c),
{
    match c {
        Change::Remove(_) => "Remove",
        Change::Add(_) => "Add",
        Change::Edit { .. } => "Edit",
    }
}

/// The status shown once the change has succeeded.
pub fn change_status(c: &Change) -> (r: String)
    ensures
        r@ == change_status_spec(*c),
{
    match c {
        Change::Remove(ix) => removed_status(ix.len()),
        Change::Add(req) => added_status(req.summary.as_str(), &req.start),
        Change::Edit { event_index, patch } => match &patch.summary {
            Some(s) => edited_status(Some(s.as_str()), *event_index),
            None => edited_status(None, *event_index),
        },
    }
}

} // verus!
