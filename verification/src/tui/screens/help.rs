//! The help overlay: closed by `?`, `Esc`, or quit.

use vstd::prelude::*;
use crate::text::{chars_of, copy_string, string_of};
use crate::tui::keymap::Intent;
use crate::tui::screens::ScreenAction;

verus! {

/// The action of an intent on the help overlay.
pub open spec fn help_action(intent: Intent) -> ScreenAction {
    match intent {
        Intent::Quit => ScreenAction::Quit,
        Intent::Cancel | Intent::OpenHelp => ScreenAction::DismissHelp,
        _ => ScreenAction::Continue,
    }
}

pub struct HelpScreen {
    file_label: String,
    transient_status: Option<String>,
}

impl HelpScreen {
    pub fn new(file_label: &str) -> (r: HelpScreen)
        ensures
            r.label() == file_label@,
            r.status() is None,
    {
        HelpScreen { file_label: string_of(&chars_of(file_label)), transient_status: None }
    }

    pub closed spec fn label(&self) -> Seq<char> {
        self.file_label@
    }

    /// The one-shot status message shown until the next intent.
    pub closed spec fn status(&self) -> Option<Seq<char>> {
        match self.transient_status {
            Some(m) => Some(m@),
            None => None,
        }
    }

    /// The file label shown in the status bar.
    pub fn file_label(&self) -> (r: &str)
        ensures
            r@ == self.label(),
    {
        self.file_label.as_str()
    }

    /// The one-shot status message, if any.
    pub fn transient_status(&self) -> (r: Option<&str>)
        ensures
            r matches Some(m) ==> self.status() == Some(m@),
            r is None <==> self.status() is None,
    {
        match &self.transient_status {
            Some(m) => Some(m.as_str()),
            None => None,
        }
    }

    /// Show `msg` in the status bar until the next intent.
    pub fn set_transient_status(&mut self, msg: &str)
        ensures
            final(self).label() == old(self).label(),
            final(self).status() == Some(msg@),
    {
        self.transient_status = Some(string_of(&chars_of(msg)));
    }

    /// `Quit` quits; `Esc` and `?` close the overlay; everything else is
    /// ignored.
    pub fn handle(&mut self, intent: Intent) -> (r: ScreenAction)
        ensures
            r == help_action(intent),
            final(self).label() == old(self).label(),
            final(self).status() is None,
    {
        self.transient_status = None;
        match intent {
            Intent::Quit => ScreenAction::Quit,
            Intent::Cancel | Intent::OpenHelp => ScreenAction::DismissHelp,
            _ => ScreenAction::Continue,
        }
    }
}

} // verus!
