//! Screens: one module per view. Each screen reacts to an `Intent` by
//! updating its own state and returning a `ScreenAction` for the caller.

pub mod add_form;
pub mod captions;
pub mod grid;
pub mod help;
pub mod list;
pub mod timeline;


pub use add_form::AddForm;
pub use help::HelpScreen;
pub use list::ListScreen;

use vstd::prelude::*;
use crate::cli::use_cases::EditPatch;
use crate::date::Date;
use crate::event::EventClass;
use crate::profile::microsoft::MsBusyStatus;

verus! {

/// Which top-level view is active.
#[derive(Debug, Clone, Copy, PartialEq, Eq, Structural)]
pub enum ViewKind {
    List,
    Timeline,
    Grid,
}

impl ViewKind {
    /// The view after this one in Tab order.
    pub open spec fn next_spec(self) -> ViewKind {
        match self {
            ViewKind::List => ViewKind::Timeline,
            ViewKind::Timeline => ViewKind::Grid,
            ViewKind::Grid => ViewKind::List,
        }
    }

    /// Tab-cycle order: List, Timeline, Grid, List.
    pub fn next(self) -> (r: ViewKind)
        ensures
            r == self.next_spec(),
    {
        match self {
            ViewKind::List => ViewKind::Timeline,
            ViewKind::Timeline => ViewKind::Grid,
            ViewKind::Grid => ViewKind::List,
        }
    }

    /// Number keys: 1 List, 2 Timeline, 3 Grid.
    pub fn from_number(n: u8) -> (r: Option<ViewKind>)
        ensures
            r == if n == 1 {
                Some(ViewKind::List)
            } else if n == 2 {
                Some(ViewKind::Timeline)
            } else if n == 3 {
                Some(ViewKind::Grid)
            } else {
                None
            },
    {
        if n == 1 {
            Some(ViewKind::List)
        } else if n == 2 {
            Some(ViewKind::Timeline)
        } else if n == 3 {
            Some(ViewKind::Grid)
        } else {
            None
        }
    }
}

/// Three Tab presses bring every view back to itself, and no fewer do.
pub proof fn lemma_view_cycle_returns(v: ViewKind)
    ensures
        v.next_spec().next_spec().next_spec() == v,
        v.next_spec() != v,
        v.next_spec().next_spec() != v,
{
}

/// A validated Add request, handed to the caller to run `add`.
#[derive(Debug, Clone, PartialEq)]
pub struct AddRequest {
    pub summary: String,
    pub start: Date,
    pub end: Option<Date>,
    pub busystatus: MsBusyStatus,
    pub class: Option<EventClass>,
    pub categories: Vec<String>,
    pub icon: Option<String>,
}

/// What a screen asks of the caller after handling an intent.
#[derive(Debug, Clone, PartialEq)]
pub enum ScreenAction {
    /// Stay on this screen.
    Continue,
    /// Exit the application.
    Quit,
    /// Remove the events at these 1-based indices.
    RemoveByIndices(Vec<usize>),
    /// Open the Add form, pre-filling the dates when given.
    OpenAdd { start_hint: Option<Date>, end_hint: Option<Date> },
    /// Open the Edit form on the event at this 1-based index.
    OpenEdit { event_index: usize },
    /// Open the Edit form on the event with this UID.
    OpenEditByUid { uid: String },
    /// Run `add` with this request.
    SubmitAdd(AddRequest),
    /// Run `edit` on the event at this 1-based index.
    SubmitEdit { event_index: usize, patch: EditPatch },
    /// Close the form.
    DismissForm,
    /// Open the help overlay.
    OpenHelp,
    /// Close the help overlay.
    DismissHelp,
}

} // verus!
