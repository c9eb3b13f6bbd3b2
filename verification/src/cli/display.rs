//! One-line rendering of an event, used by `list` and by the status
//! messages of `add`, `edit` and `remove`:
//!
//! `2026-01-01 : 元日`, `2026-12-29 to 2027-01-03 : 年末年始`,
//! `2026-06-15 : 出張 [airplane]`.

use vstd::prelude::*;
use crate::cli::icons::{icon_of, read_icon};
use crate::date::{dashed_date_chars, dashed_date_text, min_date, prev_day, prev_day_spec, Date};
use crate::error::push_chars;
use crate::event::{VEvent, VEventView};
use crate::text::{chars_of, string_of};

verus! {

/// The line of an event: its inclusive date span (one date when it lasts
/// one day; `DTEND` is exclusive), ` : `, the summary, and ` [icon]` when
/// it has an icon.
pub open spec fn event_line(e: VEventView) -> Seq<char> {
    let start = e.dtstart;
    let end = prev_day_spec(e.dtend);
    let date_part = if start == end {
        dashed_date_text(start)
    } else {
        dashed_date_text(start) + " to "@ + dashed_date_text(end)
    };
    let icon_part = match icon_of(e.unknown) {
        Some(i) => " ["@ + i + "]"@,
        None => seq![],
    };
    date_part + " : "@ + e.summary + icon_part
}

/// Can the line of an event be rendered? Its end date must have a
/// previous day.
pub open spec fn renderable(e: VEventView) -> bool {
    e.dtend.valid() && e.dtend != min_date()
}

/// Format `event` as a single human-readable line.
pub fn format_event_line(event: &VEvent) -> (r: String)
    requires
        renderable(event@),
    ensures
        r@ == event_line(event@),
{
    let start = event.dtstart;
    let end = match prev_day(&event.dtend) {
        Some(d) => d,
        None => {
            return string_of(&Vec::new());
        },
    };
    let mut out = dashed_date_chars(&start);
    if !start.same(&end) {
        push_chars(&mut out, &chars_of(" to "));
        push_chars(&mut out, &dashed_date_chars(&end));
    }
    push_chars(&mut out, &chars_of(" : "));
    push_chars(&mut out, &chars_of(event.summary.as_str()));
    match read_icon(event) {
        Some(i) => {
            push_chars(&mut out, &chars_of(" ["));
            push_chars(&mut out, &chars_of(i));
            push_chars(&mut out, &chars_of("]"));
        },
        None => {},
    }
    string_of(&out)
}

} // verus!
