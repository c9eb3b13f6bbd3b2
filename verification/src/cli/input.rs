//! Date input: `YYYY-MM-DD` (read by `chrono`), else `YYYY/M/D` (three
//! decimal numbers that make a valid date).

use vstd::prelude::*;
use crate::date::{chrono_dashed_date, parse_dashed_date, valid_ymd, Date};
use crate::error::push_chars;
use crate::number::{i32_value, parse_i32, parse_u32, u32_value};
use crate::text::{chars_of, split_chars, split_on, string_of};

verus! {

/// The date `s` denotes in `YYYY/M/D` form, if any.
pub open spec fn slash_date(s: Seq<char>) -> Option<Date> {
    let parts = split_on(s, '/');
    if parts.len() == 3 {
        match (i32_value(parts[0]), u32_value(parts[1]), u32_value(parts[2])) {
            (Some(y), Some(m), Some(d)) => if valid_ymd(y as int, m as int, d as int) {
                Some(Date { year: y, month: m, day: d })
            } else {
                None
            },
            _ => None,
        }
    } else {
        None
    }
}

/// The message for input that is no date.
pub open spec fn date_input_error(s: Seq<char>) -> Seq<char> {
    "invalid date '"@ + s + "' (expected YYYY-MM-DD or YYYY/M/D)"@
}

/// The date `s` denotes, given what `chrono` read from it in
/// `%Y-%m-%d` form.
pub open spec fn date_from_input(s: Seq<char>, dashed: Option<Date>) -> Result<Date, Seq<char>> {
    match dashed {
        Some(d) => Ok(d),
        None => match slash_date(s) {
            Some(d) => Ok(d),
            None => Err(date_input_error(s)),
        },
    }
}

/// What `chrono` reads from `s` in `%Y-%m-%d` form.
pub open spec fn dashed_reading(s: Seq<char>) -> Option<Date> {
    match chrono_dashed_date(s) {
        Ok(t) => Some(Date { year: t.0, month: t.1, day: t.2 }),
        Err(_) => None,
    }
}

/// The `YYYY/M/D` reading of `s`.
pub fn parse_slash_date(s: &str) -> (r: Option<Date>)
    ensures
        r == slash_date(s@),
{
    let parts = split_chars(&chars_of(s), '/');
    if parts.len() != 3 {
        return None;
    }
    assert(parts.deep_view()[0] == parts[0]@);
    assert(parts.deep_view()[1] == parts[1]@);
    assert(parts.deep_view()[2] == parts[2]@);
    let y = parse_i32(&parts[0]);
    let m = parse_u32(&parts[1]);
    let d = parse_u32(&parts[2]);
    match (y, m, d) {
        (Some(y), Some(m), Some(d)) => Date::from_ymd_opt(y, m, d),
        _ => None,
    }
}

/// The date `s` denotes, given `dashed`, what `chrono` read from it in
/// `%Y-%m-%d` form (`None` when it read nothing).
pub fn date_from_reading(s: &str, dashed: Option<Date>) -> (r: Result<Date, String>)
    ensures
        match date_from_input(s@, dashed) {
            Ok(d) => r == Ok::<Date, String>(d),
            Err(m) => r matches Err(e) && e@ == m,
        },
{
    match dashed {
        Some(d) => Ok(d),
        None => match parse_slash_date(s) {
            Some(d) => Ok(d),
            None => {
                let mut msg = chars_of("invalid date '");
                push_chars(&mut msg, &chars_of(s));
                push_chars(&mut msg, &chars_of("' (expected YYYY-MM-DD or YYYY/M/D)"));
                Err(string_of(&msg))
            },
        },
    }
}

/// Parse a date in `YYYY-MM-DD` or `YYYY/M/D` form.
pub fn parse_date(s: &str) -> (r: Result<Date, String>)
    ensures
        match date_from_input(s@, dashed_reading(s@)) {
            Ok(d) => r == Ok::<Date, String>(d),
            Err(m) => r matches Err(e) && e@ == m,
        },
        r matches Ok(d) ==> d.valid(),
{
    let dashed = match parse_dashed_date(s) {
        Ok(d) => Some(d),
        Err(_) => None,
    };
    date_from_reading(s, dashed)
}

} // verus!
