//! Add form: seven fields, focused one at a time (top to bottom):
//! summary, start date, end date, busy status, class, categories, icon.
//! Text fields take typed characters; the busy-status and class pickers
//! cycle with Space and Left / Right. Submitting validates the fields
//! into an `AddRequest`.

use vstd::prelude::*;
use crate::cli::input::{dashed_reading, date_from_input, parse_date};
use crate::date::Date;
use crate::error::push_chars;
use crate::event::EventClass;
use crate::profile::microsoft::MsBusyStatus;
use crate::text::{chars_of, split_chars, split_on, string_of, trim_chars, trim_spec};
use crate::tui::keymap::Intent;
use crate::tui::screens::{AddRequest, ScreenAction};
use crate::tui::text_input::{backspace_spec, insert_spec, TextInput, TextInputView};

verus! {

pub const SUMMARY: usize = 0;
pub const START: usize = 1;
pub const END: usize = 2;
pub const BUSY: usize = 3;
pub const CLASS: usize = 4;
pub const CATEGORIES: usize = 5;
pub const ICON: usize = 6;
pub const FIELD_COUNT: usize = 7;

/// The busy statuses in picker order.
pub open spec fn busy_at(i: int) -> MsBusyStatus {
    if i == 0 {
        MsBusyStatus::Free
    } else if i == 1 {
        MsBusyStatus::Tentative
    } else if i == 2 {
        MsBusyStatus::Busy
    } else if i == 3 {
        MsBusyStatus::Oof
    } else {
        MsBusyStatus::WorkingElsewhere
    }
}

pub open spec fn busy_index(b: MsBusyStatus) -> int {
    match b {
        MsBusyStatus::Free => 0,
        MsBusyStatus::Tentative => 1,
        MsBusyStatus::Busy => 2,
        MsBusyStatus::Oof => 3,
        MsBusyStatus::WorkingElsewhere => 4,
    }
}

/// The class options in picker order; `None` is "(unset)".
pub open spec fn class_at(i: int) -> Option<EventClass> {
    if i == 0 {
        None
    } else if i == 1 {
        Some(EventClass::Public)
    } else if i == 2 {
        Some(EventClass::Private)
    } else {
        Some(EventClass::Confidential)
    }
}

pub open spec fn class_index(c: Option<EventClass>) -> int {
    match c {
        None => 0,
        Some(EventClass::Public) => 1,
        Some(EventClass::Private) => 2,
        Some(EventClass::Confidential) => 3,
    }
}

/// Mathematical model of an `AddForm`.
pub struct AddFormView {
    pub summary: TextInputView,
    pub start: TextInputView,
    pub end: TextInputView,
    pub busystatus: MsBusyStatus,
    pub class: Option<EventClass>,
    pub categories: TextInputView,
    pub icon: TextInputView,
    pub focus: nat,
    pub error: Option<Seq<char>>,
    pub file_label: Seq<char>,
}

/// Mathematical model of an `AddRequest`.
pub struct AddRequestView {
    pub summary: Seq<char>,
    pub start: Date,
    pub end: Option<Date>,
    pub busystatus: MsBusyStatus,
    pub class: Option<EventClass>,
    pub categories: Seq<Seq<char>>,
    pub icon: Option<Seq<char>>,
}

impl View for AddRequest {
    type V = AddRequestView;

    open spec fn view(&self) -> AddRequestView {
        AddRequestView {
            summary: self.summary@,
            start: self.start,
            end: self.end,
            busystatus: self.busystatus,
            class: self.class,
            categories: self.categories.deep_view(),
            icon: match self.icon {
                Some(i) => Some(i@),
                None => None,
            },
        }
    }
}

pub struct AddForm {
    pub summary: TextInput,
    pub start: TextInput,
    pub end: TextInput,
    busystatus: MsBusyStatus,
    class: Option<EventClass>,
    pub categories: TextInput,
    pub icon: TextInput,
    focus: usize,
    /// Error banner of the last failed submit, cleared by editing.
    error: Option<String>,
    file_label: String,
    /// One-shot status message, cleared by the next intent.
    transient_status: Option<String>,
}

impl View for AddForm {
    type V = AddFormView;

    closed spec fn view(&self) -> AddFormView {
        AddFormView {
            summary: self.summary@,
            start: self.start@,
            end: self.end@,
            busystatus: self.busystatus,
            class: self.class,
            categories: self.categories@,
            icon: self.icon@,
            focus: self.focus as nat,
            error: match self.error {
                Some(e) => Some(e@),
                None => None,
            },
            file_label: self.file_label@,
        }
    }
}

/// An editing operation on the focused text field.
#[derive(Debug, Clone, Copy, PartialEq, Eq, Structural)]
pub enum TextOp {
    Insert(char),
    Backspace,
    Left,
    Right,
    Home,
    End,
}

/// What an editing operation does to a text input.
pub open spec fn text_op_spec(t: TextInputView, op: TextOp) -> TextInputView {
    match op {
        TextOp::Insert(c) => insert_spec(t, c),
        TextOp::Backspace => backspace_spec(t),
        TextOp::Left => TextInputView {
            cursor: if t.cursor > 0 {
                (t.cursor - 1) as nat
            } else {
                0
            },
            ..t
        },
        TextOp::Right => TextInputView {
            cursor: if t.cursor < t.text.len() {
                t.cursor + 1
            } else {
                t.cursor
            },
            ..t
        },
        TextOp::Home => TextInputView { cursor: 0, ..t },
        TextOp::End => TextInputView { cursor: t.text.len(), ..t },
    }
}

/// Is `k` a text field?
pub open spec fn is_text_field(k: nat) -> bool {
    k == 0 || k == 1 || k == 2 || k == 5 || k == 6
}

/// The form after applying `op` to text field `k` (no change for the
/// pickers or an unknown focus).
pub open spec fn with_text_op(v: AddFormView, k: nat, op: TextOp) -> AddFormView {
    if k == 0 {
        AddFormView { summary: text_op_spec(v.summary, op), ..v }
    } else if k == 1 {
        AddFormView { start: text_op_spec(v.start, op), ..v }
    } else if k == 2 {
        AddFormView { end: text_op_spec(v.end, op), ..v }
    } else if k == 5 {
        AddFormView { categories: text_op_spec(v.categories, op), ..v }
    } else if k == 6 {
        AddFormView { icon: text_op_spec(v.icon, op), ..v }
    } else {
        v
    }
}

/// The form after cycling the focused picker by `delta` (+1 or -1).
pub open spec fn cycled(v: AddFormView, delta: int) -> AddFormView {
    if v.focus == 3 {
        AddFormView { busystatus: busy_at((busy_index(v.busystatus) + delta) % 5), ..v }
    } else if v.focus == 4 {
        AddFormView { class: class_at((class_index(v.class) + delta) % 4), ..v }
    } else {
        v
    }
}

/// Can every text field take one more character?
pub open spec fn fields_bounded(v: AddFormView) -> bool {
    &&& v.summary.text.len() < usize::MAX
    &&& v.start.text.len() < usize::MAX
    &&& v.end.text.len() < usize::MAX
    &&& v.categories.text.len() < usize::MAX
    &&& v.icon.text.len() < usize::MAX
}

/// The trimmed, non-empty pieces of a comma-separated list.
pub open spec fn category_list(s: Seq<char>) -> Seq<Seq<char>>
    decreases s.len(),
{
    category_pieces(split_on(s, ','))
}

pub open spec fn category_pieces(ps: Seq<Seq<char>>) -> Seq<Seq<char>>
    decreases ps.len(),
{
    if ps.len() == 0 {
        seq![]
    } else if trim_spec(ps.last()).len() > 0 {
        category_pieces(ps.drop_last()).push(trim_spec(ps.last()))
    } else {
        category_pieces(ps.drop_last())
    }
}

/// What validating the form gives: the request, or the error message.
pub open spec fn validate_spec(v: AddFormView) -> Result<AddRequestView, Seq<char>> {
    let summary = trim_spec(v.summary.text);
    let start_text = trim_spec(v.start.text);
    let end_raw = trim_spec(v.end.text);
    let icon_raw = trim_spec(v.icon.text);
    if summary.len() == 0 {
        Err("Summary is required"@)
    } else {
        match date_from_input(start_text, dashed_reading(start_text)) {
            Err(e) => Err("Start date: "@ + e),
            Ok(start) => {
                let end: Result<Option<Date>, Seq<char>> = if end_raw.len() == 0 {
                    Ok(None)
                } else {
                    match date_from_input(end_raw, dashed_reading(end_raw)) {
                        Err(e) => Err("End date: "@ + e),
                        Ok(p) => if p.before(start) {
                            Err("End date must not be before start"@)
                        } else {
                            Ok(Some(p))
                        },
                    }
                };
                match end {
                    Err(e) => Err(e),
                    Ok(end) => Ok(
                        AddRequestView {
                            summary,
                            start,
                            end,
                            busystatus: v.busystatus,
                            class: v.class,
                            categories: category_list(v.categories.text),
                            icon: if icon_raw.len() == 0 {
                                None
                            } else {
                                Some(icon_raw)
                            },
                        },
                    ),
                }
            },
        }
    }
}

/// The form state after handling an intent other than `SubmitForm`.
pub open spec fn handle_spec(v: AddFormView, intent: Intent) -> AddFormView {
    match intent {
        Intent::NextField => AddFormView { focus: ((v.focus + 1) % 7) as nat, error: None, ..v },
        Intent::PrevField => AddFormView { focus: ((v.focus + 6) % 7) as nat, error: None, ..v },
        Intent::TypeChar(c) => if v.focus == 3 || v.focus == 4 {
            if c == ' ' {
                cycled(v, 1)
            } else {
                v
            }
        } else if is_text_field(v.focus) {
            AddFormView { error: None, ..with_text_op(v, v.focus, TextOp::Insert(c)) }
        } else {
            v
        },
        Intent::Backspace => if is_text_field(v.focus) {
            AddFormView { error: None, ..with_text_op(v, v.focus, TextOp::Backspace) }
        } else {
            v
        },
        Intent::NavLeft => if v.focus == 3 || v.focus == 4 {
            cycled(v, -1)
        } else {
            with_text_op(v, v.focus, TextOp::Left)
        },
        Intent::NavRight => if v.focus == 3 || v.focus == 4 {
            cycled(v, 1)
        } else {
            with_text_op(v, v.focus, TextOp::Right)
        },
        Intent::NavTop => with_text_op(v, v.focus, TextOp::Home),
        Intent::NavBottom => with_text_op(v, v.focus, TextOp::End),
        _ => v,
    }
}

/// Does handling `intent` take the form from `v` to `w` with action `r`?
/// `Quit` quits, `Cancel` dismisses the form, `SubmitForm` hands over
/// the validated request or records the validation error, anything else
/// edits the form as `handle_spec` says.
pub open spec fn form_handled(v: AddFormView, w: AddFormView, intent: Intent, r: ScreenAction) -> bool {
    match intent {
        Intent::Quit => r == ScreenAction::Quit && w == v,
        Intent::Cancel => r == ScreenAction::DismissForm && w == v,
        Intent::SubmitForm => match validate_spec(v) {
            Ok(req) => r matches ScreenAction::SubmitAdd(q) && q@ == req && w == v,
            Err(m) => r == ScreenAction::Continue && w == (AddFormView { error: Some(m), ..v }),
        },
        _ => r == ScreenAction::Continue && w == handle_spec(v, intent),
    }
}

fn busy_exec(i: usize) -> (r: MsBusyStatus)
    ensures
        r == busy_at(i as int),
{
    if i == 0 {
        MsBusyStatus::Free
    } else if i == 1 {
        MsBusyStatus::Tentative
    } else if i == 2 {
        MsBusyStatus::Busy
    } else if i == 3 {
        MsBusyStatus::Oof
    } else {
        MsBusyStatus::WorkingElsewhere
    }
}

fn class_exec(i: usize) -> (r: Option<EventClass>)
    ensures
        r == class_at(i as int),
{
    if i == 0 {
        None
    } else if i == 1 {
        Some(EventClass::Public)
    } else if i == 2 {
        Some(EventClass::Private)
    } else {
        Some(EventClass::Confidential)
    }
}

pub(crate) fn apply_text_op(t: &mut TextInput, op: TextOp)
    requires
        op is Insert ==> old(t)@.text.len() < usize::MAX,
    ensures
        final(t)@ == text_op_spec(old(t)@, op),
{
    match op {
        TextOp::Insert(c) => t.insert_char(c),
        TextOp::Backspace => t.backspace(),
        TextOp::Left => t.move_left(),
        TextOp::Right => t.move_right(),
        TextOp::Home => t.move_home(),
        TextOp::End => t.move_end(),
    }
}

/// The pieces of a comma-separated list, trimmed, empty ones dropped.
fn split_categories(s: &str) -> (r: Vec<String>)
    ensures
        r.deep_view() == category_list(s@),
{
    let parts = split_chars(&chars_of(s), ',');
    let ghost ps = parts.deep_view();
    let mut out: Vec<String> = Vec::new();
    let mut i: usize = 0;
    while i < parts.len()
        invariant
            i <= parts.len(),
            ps == parts.deep_view(),
            out.deep_view() == category_pieces(ps.take(i as int)),
        decreases parts.len() - i,
    {
        let ghost t = ps.take(i + 1);
        assert(t.drop_last() =~= ps.take(i as int));
        assert(t.last() == parts[i as int]@);
        let piece = trim_chars(&parts[i]);
        if piece.len() > 0 {
            let ghost before = out.deep_view();
            let s = string_of(&piece);
            out.push(s);
            assert(out.deep_view() =~= before.push(s@));
        }
        i = i + 1;
    }
    assert(ps.take(i as int) =~= ps);
    out
}

impl AddForm {
    /// An empty form focused on the summary, busy status `Free`, no
    /// class.
    /// The one-shot status message shown until the next intent.
    pub closed spec fn status(&self) -> Option<Seq<char>> {
        match self.transient_status {
            Some(m) => Some(m@),
            None => None,
        }
    }

    pub fn new(file_label: &str) -> (r: AddForm)
        ensures
            r.status() is None,
            r@.summary.text.len() == 0 && r@.summary.cursor == 0,
            r@.start.text.len() == 0 && r@.start.cursor == 0,
            r@.end.text.len() == 0 && r@.end.cursor == 0,
            r@.categories.text.len() == 0 && r@.categories.cursor == 0,
            r@.icon.text.len() == 0 && r@.icon.cursor == 0,
            r@.busystatus == MsBusyStatus::Free,
            r@.class is None,
            r@.focus == 0,
            r@.error is None,
            r@.file_label == file_label@,
    {
        AddForm {
            summary: TextInput::new(),
            start: TextInput::new(),
            end: TextInput::new(),
            busystatus: MsBusyStatus::Free,
            class: None,
            categories: TextInput::new(),
            icon: TextInput::new(),
            focus: SUMMARY,
            error: None,
            file_label: string_of(&chars_of(file_label)),
            transient_status: None,
        }
    }

    /// The one-shot status message, if any.
    pub fn transient_status(&self) -> (r: Option<&str>)
        ensures
            r matches Some(m) ==> self.status() == Some(m@),
            r is None <==> self.status() is None,
    {
        match &self.transient_status {
            Some(m) => Some(m.as_str()),
            None => None,
        }
    }

    /// Can every text field take one more character?
    pub fn has_room(&self) -> (r: bool)
        ensures
            r == fields_bounded(self@),
    {
        self.summary.len_chars() < usize::MAX && self.start.len_chars() < usize::MAX
            && self.end.len_chars() < usize::MAX && self.categories.len_chars() < usize::MAX
            && self.icon.len_chars() < usize::MAX
    }

    /// The focused field (0 summary, ..., 6 icon).
    pub fn focus(&self) -> (r: usize)
        ensures
            r == self@.focus,
    {
        self.focus
    }

    pub fn busystatus(&self) -> (r: MsBusyStatus)
        ensures
            r == self@.busystatus,
    {
        self.busystatus
    }

    pub fn class(&self) -> (r: Option<EventClass>)
        ensures
            r == self@.class,
    {
        self.class
    }

    /// The error banner, if any.
    pub fn error(&self) -> (r: Option<&str>)
        ensures
            match self@.error {
                Some(e) => r matches Some(s) && s@ == e,
                None => r is None,
            },
    {
        match &self.error {
            Some(e) => Some(e.as_str()),
            None => None,
        }
    }

    pub fn file_label(&self) -> (r: &str)
        ensures
            r@ == self@.file_label,
    {
        self.file_label.as_str()
    }

    /// Show `msg` in the status bar until the next intent.
    pub fn set_transient_status(&mut self, msg: &str)
        ensures
            final(self)@ == old(self)@,
            final(self).status() == Some(msg@),
    {
        self.transient_status = Some(string_of(&chars_of(msg)));
    }

    fn text_op(&mut self, op: TextOp)
        requires
            op is Insert ==> fields_bounded(old(self)@),
        ensures
            final(self)@ == with_text_op(old(self)@, old(self)@.focus, op),
            final(self).status() == old(self).status(),
    {
        if self.focus == SUMMARY {
            apply_text_op(&mut self.summary, op);
        } else if self.focus == START {
            apply_text_op(&mut self.start, op);
        } else if self.focus == END {
            apply_text_op(&mut self.end, op);
        } else if self.focus == CATEGORIES {
            apply_text_op(&mut self.categories, op);
        } else if self.focus == ICON {
            apply_text_op(&mut self.icon, op);
        }
    }

    fn cycle_picker(&mut self, forward: bool)
        ensures
            final(self)@ == cycled(old(self)@, if forward {
                1
            } else {
                -1
            }),
            final(self).status() == old(self).status(),
    {
        if self.focus == BUSY {
            let idx: usize = match self.busystatus {
                MsBusyStatus::Free => 0,
                MsBusyStatus::Tentative => 1,
                MsBusyStatus::Busy => 2,
                MsBusyStatus::Oof => 3,
                MsBusyStatus::WorkingElsewhere => 4,
            };
            let new_idx = if forward {
                (idx + 1) % 5
            } else {
                (idx + 4) % 5
            };
            assert(forward ==> new_idx == (idx + 1) % 5);
            assert(!forward ==> new_idx as int == (idx - 1) % 5);
            self.busystatus = busy_exec(new_idx);
        } else if self.focus == CLASS {
            let idx: usize = match self.class {
                None => 0,
                Some(EventClass::Public) => 1,
                Some(EventClass::Private) => 2,
                Some(EventClass::Confidential) => 3,
            };
            let new_idx = if forward {
                (idx + 1) % 4
            } else {
                (idx + 3) % 4
            };
            assert(!forward ==> new_idx as int == (idx - 1) % 4);
            self.class = class_exec(new_idx);
        }
    }

    /// Validate the form into an Add request, or the error message.
    pub fn validate(&self) -> (r: Result<AddRequest, String>)
        ensures
            match validate_spec(self@) {
                Ok(req) => r matches Ok(q) && q@ == req,
                Err(m) => r matches Err(e) && e@ == m,
            },
    {
        let summary = trim_chars(&chars_of(self.summary.value().as_str()));
        if summary.len() == 0 {
            return Err(string_of(&chars_of("Summary is required")));
        }
        let start_text = string_of(&trim_chars(&chars_of(self.start.value().as_str())));
        let start = match parse_date(start_text.as_str()) {
            Ok(d) => d,
            Err(e) => {
                let mut msg = chars_of("Start date: ");
                push_chars(&mut msg, &chars_of(e.as_str()));
                return Err(string_of(&msg));
            },
        };
        let end_raw = trim_chars(&chars_of(self.end.value().as_str()));
        let end = if end_raw.len() == 0 {
            None
        } else {
            let end_text = string_of(&end_raw);
            let parsed = match parse_date(end_text.as_str()) {
                Ok(d) => d,
                Err(e) => {
                    let mut msg = chars_of("End date: ");
                    push_chars(&mut msg, &chars_of(e.as_str()));
                    return Err(string_of(&msg));
                },
            };
            if parsed.lt(&start) {
                return Err(string_of(&chars_of("End date must not be before start")));
            }
            Some(parsed)
        };
        let categories = split_categories(self.categories.value().as_str());
        let icon_raw = trim_chars(&chars_of(self.icon.value().as_str()));
        let icon = if icon_raw.len() == 0 {
            None
        } else {
            Some(string_of(&icon_raw))
        };
        Ok(
            AddRequest {
                summary: string_of(&summary),
                start,
                end,
                busystatus: self.busystatus,
                class: self.class,
                categories,
                icon,
            },
        )
    }

    /// React to an intent: `Quit` quits, `Cancel` dismisses the form,
    /// field navigation moves the focus, editing goes to the focused
    /// field, and `SubmitForm` hands over the validated request or shows
    /// the validation error.
    pub fn handle(&mut self, intent: Intent) -> (r: ScreenAction)
        requires
            fields_bounded(old(self)@),
        ensures
            form_handled(old(self)@, final(self)@, intent, r),
            final(self).status() is None,
    {
        self.transient_status = None;
        match intent {
            Intent::Quit => ScreenAction::Quit,
            Intent::Cancel => ScreenAction::DismissForm,
            Intent::NextField => {
                self.focus = (self.focus % 7 + 1) % 7;
                self.error = None;
                ScreenAction::Continue
            },
            Intent::PrevField => {
                self.focus = (self.focus % 7 + 6) % 7;
                self.error = None;
                ScreenAction::Continue
            },
            Intent::SubmitForm => match self.validate() {
                Ok(req) => ScreenAction::SubmitAdd(req),
                Err(e) => {
                    self.error = Some(e);
                    ScreenAction::Continue
                },
            },
            Intent::TypeChar(c) => {
                if self.focus == BUSY || self.focus == CLASS {
                    if c == ' ' {
                        self.cycle_picker(true);
                    }
                } else if self.focus == SUMMARY || self.focus == START || self.focus == END
                    || self.focus == CATEGORIES || self.focus == ICON {
                    self.text_op(TextOp::Insert(c));
                    self.error = None;
                }
                ScreenAction::Continue
            },
            Intent::Backspace => {
                if self.focus == SUMMARY || self.focus == START || self.focus == END || self.focus
                    == CATEGORIES || self.focus == ICON {
                    self.text_op(TextOp::Backspace);
                    self.error = None;
                }
                ScreenAction::Continue
            },
            Intent::NavLeft => {
                if self.focus == BUSY || self.focus == CLASS {
                    self.cycle_picker(false);
                } else {
                    self.text_op(TextOp::Left);
                }
                ScreenAction::Continue
            },
            Intent::NavRight => {
                if self.focus == BUSY || self.focus == CLASS {
                    self.cycle_picker(true);
                } else {
                    self.text_op(TextOp::Right);
                }
                ScreenAction::Continue
            },
            Intent::NavTop => {
                self.text_op(TextOp::Home);
                ScreenAction::Continue
            },
            Intent::NavBottom => {
                self.text_op(TextOp::End);
                ScreenAction::Continue
            },
            _ => ScreenAction::Continue,
        }
    }
}

/// The label of a busy status in the picker.
pub fn busystatus_label(b: MsBusyStatus) -> (r: &'static str)
    ensures
        r@ == match b {
            MsBusyStatus::Free => "free"@,
            MsBusyStatus::Tentative => "tentative"@,
            MsBusyStatus::Busy => "busy"@,
            MsBusyStatus::Oof => "oof"@,
            MsBusyStatus::WorkingElsewhere => "working"@,
        },
{
    match b {
        MsBusyStatus::Free => "free",
        MsBusyStatus::Tentative => "tentative",
        MsBusyStatus::Busy => "busy",
        MsBusyStatus::Oof => "oof",
        MsBusyStatus::WorkingElsewhere => "working",
    }
}

/// The label of a class option in the picker.
pub fn class_label(c: Option<EventClass>) -> (r: &'static str)
    ensures
        r@ == match c {
            None => "(unset)"@,
            Some(EventClass::Public) => "public"@,
            Some(EventClass::Private) => "private"@,
            Some(EventClass::Confidential) => "confidential"@,
        },
{
    match c {
        None => "(unset)",
        Some(EventClass::Public) => "public",
        Some(EventClass::Private) => "private",
        Some(EventClass::Confidential) => "confidential",
    }
}

} // verus!
