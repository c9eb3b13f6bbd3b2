//! Key press to `Intent` mapping. The mapping depends on the mode: in
//! `Browse` (List / Timeline / Grid) keys are navigation and actions; in
//! `Form` (Add / Edit forms) printable characters are typed text and Tab
//! moves between fields.

use vstd::prelude::*;
use crate::tui::screens::ViewKind;

verus! {

/// No modifier held.
pub const MOD_NONE: u8 = 0;
/// Shift held.
pub const MOD_SHIFT: u8 = 1;
/// Control held.
pub const MOD_CONTROL: u8 = 2;

/// The key of a key event.
#[derive(Debug, Clone, Copy, PartialEq, Eq, Structural)]
pub enum KeyCode {
    Char(char),
    Esc,
    Enter,
    Tab,
    BackTab,
    Backspace,
    Up,
    Down,
    Left,
    Right,
    Home,
    End,
    /// Any other key.
    Other,
}

/// Press, auto-repeat or release.
#[derive(Debug, Clone, Copy, PartialEq, Eq, Structural)]
pub enum KeyEventKind {
    Press,
    Repeat,
    Release,
}

/// A key event: the key, the held modifiers as bits (shift 1, control
/// 2, alt 4, super 8, hyper 16, meta 32), and its kind.
#[derive(Debug, Clone, Copy, PartialEq, Eq, Structural)]
pub struct KeyEvent {
    pub code: KeyCode,
    pub modifiers: u8,
    pub kind: KeyEventKind,
}

/// Whether the active screen reads keys as navigation or as text input.
#[derive(Debug, Clone, Copy, PartialEq, Eq, Structural)]
pub enum KeymapMode {
    Browse,
    Form,
}

/// High-level user intent produced by a key press.
#[derive(Debug, Clone, Copy, PartialEq, Eq, Structural)]
pub enum Intent {
    /// Quit the application.
    Quit,
    /// Quit regardless of any modal state.
    ForceQuit,
    /// Back out of the current modal state.
    Cancel,
    NavUp,
    NavDown,
    NavLeft,
    NavRight,
    NavTop,
    NavBottom,
    /// Cycle to the next view: List, Timeline, Grid.
    CycleView,
    /// Jump to a view.
    SwitchView(ViewKind),
    /// Cycle the view's time unit (month / week).
    CycleGranularity,
    /// Enter multi-select Remove mode.
    OpenRemove,
    /// Open the Add form.
    OpenAdd,
    /// Open the Edit form on the selected event.
    OpenEdit,
    /// Open / close the help overlay.
    OpenHelp,
    /// Open the search input.
    OpenSearch,
    /// Open the month picker.
    OpenMonthPicker,
    /// Open the year picker.
    OpenYearPicker,
    /// Toggle range selection.
    ToggleVisualRange,
    /// Toggle the mark on the selected row.
    ToggleMark,
    /// Confirm the current modal action.
    Confirm,
    /// Insert a typed character into the focused field.
    TypeChar(char),
    /// Delete the character before the cursor.
    Backspace,
    /// Move focus to the next field.
    NextField,
    /// Move focus to the previous field.
    PrevField,
    /// Submit the form.
    SubmitForm,
}

/// The intent of a key pressed in Browse mode.
pub open spec fn browse_intent(code: KeyCode, m: u8) -> Option<Intent> {
    match code {
        KeyCode::Char(c) => if c == 'c' && m == MOD_CONTROL {
            Some(Intent::Quit)
        } else if c == '?' {
            Some(Intent::OpenHelp)
        } else if m == MOD_NONE {
            if c == 'q' {
                Some(Intent::Quit)
            } else if c == 'j' {
                Some(Intent::NavDown)
            } else if c == 'k' {
                Some(Intent::NavUp)
            } else if c == 'h' {
                Some(Intent::NavLeft)
            } else if c == 'l' {
                Some(Intent::NavRight)
            } else if c == 'g' {
                Some(Intent::NavTop)
            } else if c == '1' {
                Some(Intent::SwitchView(ViewKind::List))
            } else if c == '2' {
                Some(Intent::SwitchView(ViewKind::Timeline))
            } else if c == '3' {
                Some(Intent::SwitchView(ViewKind::Grid))
            } else if c == 'u' {
                Some(Intent::CycleGranularity)
            } else if c == 'a' {
                Some(Intent::OpenAdd)
            } else if c == 'e' {
                Some(Intent::OpenEdit)
            } else if c == 'd' || c == 'x' {
                Some(Intent::OpenRemove)
            } else if c == ' ' {
                Some(Intent::ToggleMark)
            } else {
                None
            }
        } else if m == MOD_SHIFT {
            if c == 'G' {
                Some(Intent::NavBottom)
            } else if c == 'D' {
                Some(Intent::Confirm)
            } else {
                None
            }
        } else {
            None
        },
        KeyCode::Esc => Some(Intent::Cancel),
        KeyCode::Down => Some(Intent::NavDown),
        KeyCode::Up => Some(Intent::NavUp),
        KeyCode::Left => Some(Intent::NavLeft),
        KeyCode::Right => Some(Intent::NavRight),
        KeyCode::Home => Some(Intent::NavTop),
        KeyCode::End => Some(Intent::NavBottom),
        KeyCode::Tab => Some(Intent::CycleView),
        KeyCode::Enter => Some(Intent::Confirm),
        _ => None,
    }
}

/// Does the modifier set hold control?
pub open spec fn has_control(m: u8) -> bool {
    (m / 2) % 2 == 1
}

/// The intent of a key pressed in Form mode.
pub open spec fn form_intent(code: KeyCode, m: u8) -> Option<Intent> {
    match code {
        KeyCode::Char(c) => if c == 'c' && m == MOD_CONTROL {
            Some(Intent::Quit)
        } else if c == 's' && m == MOD_CONTROL {
            Some(Intent::SubmitForm)
        } else if !has_control(m) {
            Some(Intent::TypeChar(c))
        } else {
            None
        },
        KeyCode::Esc => Some(Intent::Cancel),
        KeyCode::Enter => Some(Intent::SubmitForm),
        KeyCode::Tab => if m == MOD_NONE {
            Some(Intent::NextField)
        } else if m == MOD_SHIFT {
            Some(Intent::PrevField)
        } else {
            None
        },
        KeyCode::BackTab => Some(Intent::PrevField),
        KeyCode::Down => Some(Intent::NextField),
        KeyCode::Up => Some(Intent::PrevField),
        KeyCode::Backspace => Some(Intent::Backspace),
        KeyCode::Left => Some(Intent::NavLeft),
        KeyCode::Right => Some(Intent::NavRight),
        KeyCode::Home => Some(Intent::NavTop),
        KeyCode::End => Some(Intent::NavBottom),
        KeyCode::Other => None,
    }
}

/// The intent of a key event: only presses count.
pub open spec fn intent_of(event: KeyEvent, mode: KeymapMode) -> Option<Intent> {
    if event.kind != KeyEventKind::Press {
        None
    } else {
        match mode {
            KeymapMode::Browse => browse_intent(event.code, event.modifiers),
            KeymapMode::Form => form_intent(event.code, event.modifiers),
        }
    }
}

fn map_browse(event: KeyEvent) -> (r: Option<Intent>)
    ensures
        r == browse_intent(event.code, event.modifiers),
{
    let m = event.modifiers;
    match event.code {
        KeyCode::Char(c) => {
            if c == 'c' && m == MOD_CONTROL {
                Some(Intent::Quit)
            } else if c == '?' {
                Some(Intent::OpenHelp)
            } else if m == MOD_NONE {
                if c == 'q' {
                    Some(Intent::Quit)
                } else if c == 'j' {
                    Some(Intent::NavDown)
                } else if c == 'k' {
                    Some(Intent::NavUp)
                } else if c == 'h' {
                    Some(Intent::NavLeft)
                } else if c == 'l' {
                    Some(Intent::NavRight)
                } else if c == 'g' {
                    Some(Intent::NavTop)
                } else if c == '1' {
                    Some(Intent::SwitchView(ViewKind::List))
                } else if c == '2' {
                    Some(Intent::SwitchView(ViewKind::Timeline))
                } else if c == '3' {
                    Some(Intent::SwitchView(ViewKind::Grid))
                } else if c == 'u' {
                    Some(Intent::CycleGranularity)
                } else if c == 'a' {
                    Some(Intent::OpenAdd)
                } else if c == 'e' {
                    Some(Intent::OpenEdit)
                } else if c == 'd' || c == 'x' {
                    Some(Intent::OpenRemove)
                } else if c == ' ' {
                    Some(Intent::ToggleMark)
                } else {
                    None
                }
            } else if m == MOD_SHIFT {
                if c == 'G' {
                    Some(Intent::NavBottom)
                } else if c == 'D' {
                    Some(Intent::Confirm)
                } else {
                    None
                }
            } else {
                None
            }
        },
        KeyCode::Esc => Some(Intent::Cancel),
        KeyCode::Down => Some(Intent::NavDown),
        KeyCode::Up => Some(Intent::NavUp),
        KeyCode::Left => Some(Intent::NavLeft),
        KeyCode::Right => Some(Intent::NavRight),
        KeyCode::Home => Some(Intent::NavTop),
        KeyCode::End => Some(Intent::NavBottom),
        KeyCode::Tab => Some(Intent::CycleView),
        KeyCode::Enter => Some(Intent::Confirm),
        _ => None,
    }
}

fn map_form(event: KeyEvent) -> (r: Option<Intent>)
    ensures
        r == form_intent(event.code, event.modifiers),
{
    let m = event.modifiers;
    match event.code {
        KeyCode::Char(c) => {
            if c == 'c' && m == MOD_CONTROL {
                Some(Intent::Quit)
            } else if c == 's' && m == MOD_CONTROL {
                Some(Intent::SubmitForm)
            } else if (m / 2) % 2 != 1 {
                Some(Intent::TypeChar(c))
            } else {
                None
            }
        },
        KeyCode::Esc => Some(Intent::Cancel),
        KeyCode::Enter => Some(Intent::SubmitForm),
        KeyCode::Tab => {
            if m == MOD_NONE {
                Some(Intent::NextField)
            } else if m == MOD_SHIFT {
                Some(Intent::PrevField)
            } else {
                None
            }
        },
        KeyCode::BackTab => Some(Intent::PrevField),
        KeyCode::Down => Some(Intent::NextField),
        KeyCode::Up => Some(Intent::PrevField),
        KeyCode::Backspace => Some(Intent::Backspace),
        KeyCode::Left => Some(Intent::NavLeft),
        KeyCode::Right => Some(Intent::NavRight),
        KeyCode::Home => Some(Intent::NavTop),
        KeyCode::End => Some(Intent::NavBottom),
        KeyCode::Other => None,
    }
}

/// Map a single key event to an intent, by mode. Only presses act, so a
/// quick tap does not act twice.
pub fn map(event: KeyEvent, mode: KeymapMode) -> (r: Option<Intent>)
    ensures
        r == intent_of(event, mode),
{
    match event.kind {
        KeyEventKind::Press => {},
        _ => {
            return None;
        },
    }
    match mode {
        KeymapMode::Browse => map_browse(event),
        KeymapMode::Form => map_form(event),
    }
}

} // verus!
