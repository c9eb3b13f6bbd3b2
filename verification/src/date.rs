//! Calendar dates and UTC timestamps, as plain values.
//!
//! `Date` is a proleptic Gregorian calendar date and `DateTime` a date with
//! a wall-clock time. Construction, parsing and day arithmetic go through
//! `chrono`; comparisons and the fixed `%Y%m%d`-style renderings are stated
//! and proved here.

use vstd::prelude::*;
use chrono::{Datelike, Timelike};
use crate::number::{all_digits, digits_value};
use crate::text::string_of;

verus! {

/// Smallest year `chrono` represents.
pub const MIN_YEAR: i32 = -262143;

/// Largest year `chrono` represents.
pub const MAX_YEAR: i32 = 262142;

/// A calendar date.
#[derive(Clone, Copy, Debug, PartialEq, Eq, Hash, Structural)]
pub struct Date {
    pub year: i32,
    pub month: u32,
    pub day: u32,
}

/// A date with a time of day (UTC).
#[derive(Clone, Copy, Debug, PartialEq, Eq, Hash, Structural)]
pub struct DateTime {
    pub date: Date,
    pub hour: u32,
    pub minute: u32,
    pub second: u32,
    /// Fraction of the second; values of one second or more denote a
    /// leap second.
    pub nanosecond: u32,
}

pub open spec fn is_leap_year(y: int) -> bool {
    (y % 4 == 0 && y % 100 != 0) || y % 400 == 0
}

pub open spec fn days_in_month(y: int, m: int) -> int {
    if m == 2 {
        if is_leap_year(y) {
            29
        } else {
            28
        }
    } else if m == 4 || m == 6 || m == 9 || m == 11 {
        30
    } else {
        31
    }
}

/// A day that exists in `chrono`'s calendar.
pub open spec fn valid_ymd(y: int, m: int, d: int) -> bool {
    &&& MIN_YEAR <= y <= MAX_YEAR
    &&& 1 <= m <= 12
    &&& 1 <= d <= days_in_month(y, m)
}

/// Number of days since 0000-03-01 (negative before it); consecutive days
/// have consecutive numbers.
pub open spec fn day_number_ymd(y: int, m: int, d: int) -> int {
    let yy = if m <= 2 {
        y - 1
    } else {
        y
    };
    let mp = (m + 9) % 12;
    365 * yy + yy / 4 - yy / 100 + yy / 400 + (153 * mp + 2) / 5 + d - 1
}

impl Date {
    pub open spec fn valid(self) -> bool {
        valid_ymd(self.year as int, self.month as int, self.day as int)
    }

    pub open spec fn day_number(self) -> int {
        day_number_ymd(self.year as int, self.month as int, self.day as int)
    }

    /// Chronological order, which on valid dates is the lexicographic order
    /// of `(year, month, day)`.
    pub open spec fn before(self, other: Date) -> bool {
        ||| self.year < other.year
        ||| (self.year == other.year && self.month < other.month)
        ||| (self.year == other.year && self.month == other.month && self.day < other.day)
    }

    /// `NaiveDate::from_ymd_opt`: `Some` exactly for a valid proleptic
    /// Gregorian date in chrono's range, carrying the same fields.
    #[verifier::external_body]
    fn chrono_from_ymd(year: i32, month: u32, day: u32) -> (r: Option<Date>)
        ensures
            r is Some <==> valid_ymd(year as int, month as int, day as int),
            r matches Some(d) ==> d == (Date { year, month, day }),
    {
        chrono::NaiveDate::from_ymd_opt(year, month, day).map(|_| Date { year, month, day })
    }

    /// The date `year-month-day`, if it exists.
    pub fn from_ymd_opt(year: i32, month: u32, day: u32) -> (r: Option<Date>)
        ensures
            r is Some <==> valid_ymd(year as int, month as int, day as int),
            r matches Some(d) ==> d == (Date { year, month, day }),
    {
        Date::chrono_from_ymd(year, month, day)
    }

    /// `self < other`.
    pub fn lt(&self, other: &Date) -> (r: bool)
        ensures
            r == self.before(*other),
    {
        self.year < other.year || (self.year == other.year && self.month < other.month) || (
        self.year == other.year && self.month == other.month && self.day < other.day)
    }

    /// `self <= other`.
    pub fn le(&self, other: &Date) -> (r: bool)
        ensures
            r == (self.before(*other) || *self == *other),
    {
        self.lt(other) || (self.year == other.year && self.month == other.month && self.day
            == other.day)
    }

    /// `self == other`.
    pub fn same(&self, other: &Date) -> (r: bool)
        ensures
            r == (*self == *other),
    {
        self.year == other.year && self.month == other.month && self.day == other.day
    }

    /// The date `n` days later (`NaiveDate::checked_add_days`); `None` when
    /// it lies beyond `chrono`'s range or `n` exceeds `i32::MAX`.
    #[verifier::external_body]
    pub(crate) fn add_days(&self, n: u64) -> (r: Option<Date>)
        requires
            self.valid(),
        ensures
            r matches Some(e) ==> e.valid() && e.day_number() == self.day_number() + n,
            (n <= i32::MAX && self.day_number() + n <= max_date().day_number()) ==> r is Some,
    {
        let d = chrono::NaiveDate::from_ymd_opt(self.year, self.month, self.day).unwrap();
        d.checked_add_days(chrono::Days::new(n)).map(
            |e| Date { year: e.year(), month: e.month(), day: e.day() },
        )
    }

    /// The date `n` days earlier (`NaiveDate::checked_sub_days`); `None`
    /// when it lies before `chrono`'s range or `n` exceeds `i32::MAX`.
    #[verifier::external_body]
    pub(crate) fn sub_days(&self, n: u64) -> (r: Option<Date>)
        requires
            self.valid(),
        ensures
            r matches Some(e) ==> e.valid() && e.day_number() == self.day_number() - n,
            (n <= i32::MAX && self.day_number() - n >= min_date().day_number()) ==> r is Some,
    {
        let d = chrono::NaiveDate::from_ymd_opt(self.year, self.month, self.day).unwrap();
        d.checked_sub_days(chrono::Days::new(n)).map(
            |e| Date { year: e.year(), month: e.month(), day: e.day() },
        )
    }

    /// Signed number of days from `other` to `self`
    /// (`signed_duration_since(..).num_days()`).
    #[verifier::external_body]
    pub(crate) fn days_since(&self, other: &Date) -> (r: i64)
        requires
            self.valid(),
            other.valid(),
        ensures
            r == self.day_number() - other.day_number(),
    {
        let a = chrono::NaiveDate::from_ymd_opt(self.year, self.month, self.day).unwrap();
        let b = chrono::NaiveDate::from_ymd_opt(other.year, other.month, other.day).unwrap();
        a.signed_duration_since(b).num_days()
    }
}

/// The part of `day_number_ymd` that counts the whole March-based years
/// before year `yy`.
pub open spec fn year_base(yy: int) -> int {
    365 * yy + yy / 4 - yy / 100 + yy / 400
}

/// Days from the first of March to the first of the `mp`-th month after it.
pub open spec fn month_base(mp: int) -> int {
    (153 * mp + 2) / 5
}

proof fn lemma_year_base_step(yy: int)
    ensures
        year_base(yy + 1) - year_base(yy) == if is_leap_year(yy + 1) {
            366int
        } else {
            365int
        },
{
    assert((yy + 1) / 4 - yy / 4 == if (yy + 1) % 4 == 0 { 1int } else { 0int });
    assert((yy + 1) / 100 - yy / 100 == if (yy + 1) % 100 == 0 { 1int } else { 0int });
    assert((yy + 1) / 400 - yy / 400 == if (yy + 1) % 400 == 0 { 1int } else { 0int });
    if (yy + 1) % 400 == 0 {
        assert((yy + 1) % 100 == 0);
        assert((yy + 1) % 4 == 0);
    } else if (yy + 1) % 100 == 0 {
        assert((yy + 1) % 4 == 0);
    }
}

proof fn lemma_year_base_grows(x: int, y: int)
    requires
        x <= y,
    ensures
        year_base(x) + 365 * (y - x) <= year_base(y),
    decreases y - x,
{
    if x < y {
        lemma_year_base_grows(x, y - 1);
        lemma_year_base_step(y - 1);
    }
}

/// The year, month index from March and day that `day_number_ymd` counts.
proof fn lemma_day_number_parts(d: Date) -> (r: (int, int))
    requires
        d.valid(),
    ensures
        d.day_number() == year_base(r.0) + month_base(r.1) + d.day - 1,
        0 <= r.1 <= 11,
        r.1 < 11 ==> d.day <= month_base(r.1 + 1) - month_base(r.1),
        month_base(r.1) + d.day <= year_base(r.0 + 1) - year_base(r.0),
        d.month <= 2 ==> r.0 == d.year - 1 && r.1 == d.month + 9,
        d.month > 2 ==> r.0 == d.year && r.1 == d.month - 3,
{
    let y = d.year as int;
    let m = d.month as int;
    let yy = if m <= 2 { y - 1 } else { y };
    let mp = (m + 9) % 12;
    lemma_year_base_step(yy);
    if m <= 2 {
        assert(mp == m + 9);
    } else {
        assert(mp == m - 3);
    }
    assert(month_base(0) == 0 && month_base(1) == 31 && month_base(2) == 61 && month_base(3) == 92);
    assert(month_base(4) == 122 && month_base(5) == 153 && month_base(6) == 184 && month_base(7) == 214);
    assert(month_base(8) == 245 && month_base(9) == 275 && month_base(10) == 306 && month_base(11) == 337);
    (yy, mp)
}

proof fn lemma_month_base_grows(a: int, b: int)
    requires
        0 <= a <= b <= 11,
    ensures
        month_base(a) <= month_base(b),
{
    assert(month_base(0) == 0 && month_base(1) == 31 && month_base(2) == 61 && month_base(3) == 92);
    assert(month_base(4) == 122 && month_base(5) == 153 && month_base(6) == 184 && month_base(7) == 214);
    assert(month_base(8) == 245 && month_base(9) == 275 && month_base(10) == 306 && month_base(11) == 337);
}

/// The day after a valid date other than the last one is valid and has
/// the next day number.
pub proof fn lemma_next_day_number(d: Date)
    requires
        d.valid(),
        d != max_date(),
    ensures
        next_day_spec(d).valid(),
        next_day_spec(d).day_number() == d.day_number() + 1,
{
    let n = next_day_spec(d);
    let y = d.year as int;
    lemma_year_base_step(y - 1);
    assert(month_base(0) == 0 && month_base(1) == 31 && month_base(2) == 61 && month_base(3) == 92);
    assert(month_base(4) == 122 && month_base(5) == 153 && month_base(6) == 184 && month_base(7) == 214);
    assert(month_base(8) == 245 && month_base(9) == 275 && month_base(10) == 306 && month_base(11) == 337);
    assert(d.day_number() == day_number_ymd(y, d.month as int, d.day as int));
    if d.month == 1 {
        assert(d.day_number() == year_base(y - 1) + month_base(10) + d.day - 1);
    } else if d.month == 2 {
        assert(d.day_number() == year_base(y - 1) + month_base(11) + d.day - 1);
    } else {
        assert(d.day_number() == year_base(y) + month_base(d.month - 3) + d.day - 1);
    }
    if (d.day as int) < days_in_month(y, d.month as int) {
    } else if d.month < 12 {
        if d.month == 1 {
            assert(n.day_number() == year_base(y - 1) + month_base(11));
        } else if d.month == 2 {
            assert(n.day_number() == year_base(y) + month_base(0));
        } else {
            assert(n.day_number() == year_base(y) + month_base(d.month - 2));
        }
    } else {
        assert(y < MAX_YEAR);
        assert(n.day_number() == year_base(y) + month_base(10));
    }
}

/// On valid dates the day number follows the chronological order.
pub proof fn lemma_day_number_order(a: Date, b: Date)
    requires
        a.valid(),
        b.valid(),
        a.before(b),
    ensures
        a.day_number() < b.day_number(),
{
    let (ya, ma) = lemma_day_number_parts(a);
    let (yb, mb) = lemma_day_number_parts(b);
    if ya < yb {
        lemma_year_base_grows(ya + 1, yb);
    } else {
        assert(ya == yb);
        if ma < mb {
            lemma_month_base_grows(ma + 1, mb);
        } else {
            assert(ma == mb);
        }
    }
}

/// Valid dates with the same day number are the same date.
pub proof fn lemma_day_number_injective(a: Date, b: Date)
    requires
        a.valid(),
        b.valid(),
        a.day_number() == b.day_number(),
    ensures
        a == b,
{
    if a.before(b) {
        lemma_day_number_order(a, b);
    } else if b.before(a) {
        lemma_day_number_order(b, a);
    }
}

/// The first day `chrono` represents.
pub open spec fn min_date() -> Date {
    Date { year: MIN_YEAR, month: 1, day: 1 }
}

/// The last day `chrono` represents.
pub open spec fn max_date() -> Date {
    Date { year: MAX_YEAR, month: 12, day: 31 }
}

/// The date `n` days after `d` (`n` may be negative); `None` when outside
/// `chrono`'s range.
pub fn add_signed_days(d: &Date, n: i64) -> (r: Option<Date>)
    requires
        d.valid(),
    ensures
        r matches Some(e) ==> e.valid() && e.day_number() == d.day_number() + n,
        (0 <= n <= i32::MAX && d.day_number() + n <= max_date().day_number()) ==> r is Some,
        (-i32::MAX <= n < 0 && d.day_number() + n >= min_date().day_number()) ==> r is Some,
{
    if n >= 0 {
        d.add_days(n as u64)
    } else if n == i64::MIN {
        None
    } else {
        d.sub_days((-n) as u64)
    }
}

/// The calendar day after `d`.
pub open spec fn next_day_spec(d: Date) -> Date {
    if (d.day as int) < days_in_month(d.year as int, d.month as int) {
        Date { day: (d.day + 1) as u32, ..d }
    } else if d.month < 12 {
        Date { month: (d.month + 1) as u32, day: 1, ..d }
    } else {
        Date { year: (d.year + 1) as i32, month: 1, day: 1 }
    }
}

/// The calendar day before `d`.
pub open spec fn prev_day_spec(d: Date) -> Date {
    if d.day > 1 {
        Date { day: (d.day - 1) as u32, ..d }
    } else if d.month > 1 {
        Date {
            month: (d.month - 1) as u32,
            day: days_in_month(d.year as int, d.month - 1) as u32,
            ..d
        }
    } else {
        Date { year: (d.year - 1) as i32, month: 12, day: 31 }
    }
}

#[verifier::spinoff_prover]
#[verifier::rlimit(40)]
fn days_in_month_exec(y: i32, m: u32) -> (r: u32)
    ensures
        r == days_in_month(y as int, m as int),
{
    if m == 2 {
        if (y % 4 == 0 && y % 100 != 0) || y % 400 == 0 {
            29
        } else {
            28
        }
    } else if m == 4 || m == 6 || m == 9 || m == 11 {
        30
    } else {
        31
    }
}

/// `d + Days::new(1)`: the next day, `None` past the last day `chrono`
/// represents.
pub fn next_day(d: &Date) -> (r: Option<Date>)
    requires
        d.valid(),
    ensures
        r is Some <==> *d != max_date(),
        r matches Some(e) ==> e == next_day_spec(*d) && e.valid(),
{
    if d.day < days_in_month_exec(d.year, d.month) {
        Some(Date { year: d.year, month: d.month, day: d.day + 1 })
    } else if d.month < 12 {
        Some(Date { year: d.year, month: d.month + 1, day: 1 })
    } else if d.year < 262142 {
        Some(Date { year: d.year + 1, month: 1, day: 1 })
    } else {
        None
    }
}

/// `d - Days::new(1)`: the previous day, `None` before the first day
/// `chrono` represents.
pub fn prev_day(d: &Date) -> (r: Option<Date>)
    requires
        d.valid(),
    ensures
        r is Some <==> *d != min_date(),
        r matches Some(e) ==> e == prev_day_spec(*d) && e.valid(),
{
    if d.day > 1 {
        Some(Date { year: d.year, month: d.month, day: d.day - 1 })
    } else if d.month > 1 {
        Some(Date { year: d.year, month: d.month - 1, day: days_in_month_exec(d.year, d.month - 1) })
    } else if d.year > -262143 {
        Some(Date { year: d.year - 1, month: 12, day: 31 })
    } else {
        None
    }
}

impl DateTime {
    pub open spec fn valid(self) -> bool {
        &&& self.date.valid()
        &&& self.hour < 24
        &&& self.minute < 60
        &&& self.second < 60
        &&& self.nanosecond < 2_000_000_000
    }
}

/// The current UTC time (`chrono::Utc::now`). Nothing is stated of the
/// value beyond its being a valid timestamp.
#[verifier::external_body]
pub(crate) fn now_utc() -> (r: DateTime)
    ensures
        r.valid(),
{
    let now = chrono::Utc::now().naive_utc();
    DateTime {
        date: Date { year: now.year(), month: now.month(), day: now.day() },
        hour: now.hour(),
        minute: now.minute(),
        second: now.second(),
        nanosecond: now.nanosecond(),
    }
}

/// Today's date in the local time zone (`chrono::Local::now`). Nothing
/// is stated of the value beyond its being a valid date.
#[verifier::external_body]
pub(crate) fn today_local() -> (r: Date)
    ensures
        r.valid(),
{
    let today = chrono::Local::now().date_naive();
    Date { year: today.year(), month: today.month(), day: today.day() }
}

/// The weekday of a date counted from Monday (`Monday` 0, ...,
/// `Sunday` 6).
pub open spec fn weekday_index(d: Date) -> int {
    (d.day_number() + 2) % 7
}

/// `NaiveDate::weekday().num_days_from_monday()`: days since the Monday
/// of the date's week. The contract states it through the day number:
/// 0000-03-01, day number 0, was a Wednesday.
#[verifier::external_body]
pub(crate) fn days_from_monday(d: &Date) -> (r: u32)
    requires
        d.valid(),
    ensures
        r == weekday_index(*d),
{
    chrono::NaiveDate::from_ymd_opt(d.year, d.month, d.day).unwrap().weekday().num_days_from_monday()
}

/// The first day `chrono` represents, as a value.
pub fn first_date() -> (r: Date)
    ensures
        r == min_date(),
{
    Date { year: MIN_YEAR, month: 1, day: 1 }
}

/// The last day `chrono` represents, as a value.
pub fn last_date() -> (r: Date)
    ensures
        r == max_date(),
{
    Date { year: MAX_YEAR, month: 12, day: 31 }
}

/// `s` is eight ASCII digits `YYYYMMDD` naming a valid date.
pub open spec fn compact_date_digits(s: Seq<char>) -> bool {
    &&& s.len() == 8
    &&& all_digits(s)
    &&& valid_ymd(
        digits_value(s.take(4)) as int,
        digits_value(s.subrange(4, 6)) as int,
        digits_value(s.subrange(6, 8)) as int,
    )
}

/// The `(year, month, day)` that the digits `YYYYMMDD` spell.
pub open spec fn ymd_of_digits(s: Seq<char>) -> (i32, u32, u32) {
    (
        digits_value(s.take(4)) as i32,
        digits_value(s.subrange(4, 6)) as u32,
        digits_value(s.subrange(6, 8)) as u32,
    )
}

/// What `NaiveDate::parse_from_str(s, "%Y%m%d")` yields on a string that
/// is not eight digits naming a valid date.
pub uninterp spec fn chrono_compact_date_rest(s: Seq<char>) -> Result<(i32, u32, u32), Seq<char>>;

/// What `NaiveDate::parse_from_str(s, "%Y%m%d")` yields on `s`: the date as
/// `(year, month, day)`, or the text of the parse error. Eight digits
/// naming a valid date are read as `YYYYMMDD` (an unsigned `%Y` takes
/// four digits, `%m` and `%d` two each).
#[verifier::opaque]
pub open spec fn chrono_compact_date(s: Seq<char>) -> Result<(i32, u32, u32), Seq<char>> {
    if compact_date_digits(s) {
        Ok(ymd_of_digits(s))
    } else {
        chrono_compact_date_rest(s)
    }
}

/// What `NaiveDate::parse_from_str(s, "%Y-%m-%d")` yields on `s`.
pub uninterp spec fn chrono_dashed_date(s: Seq<char>) -> Result<(i32, u32, u32), Seq<char>>;

/// `s` is `YYYYMMDDTHHMMSSZ` in ASCII digits, naming a valid date and a
/// time of day with a second below 60.
pub open spec fn compact_stamp_digits(s: Seq<char>) -> bool {
    &&& s.len() == 16
    &&& compact_date_digits(s.take(8))
    &&& s[8] == 'T'
    &&& all_digits(s.subrange(9, 15))
    &&& s[15] == 'Z'
    &&& digits_value(s.subrange(9, 11)) < 24
    &&& digits_value(s.subrange(11, 13)) < 60
    &&& digits_value(s.subrange(13, 15)) < 60
}

/// The timestamp that the digits `YYYYMMDDTHHMMSSZ` spell, with no
/// fraction of a second.
pub open spec fn stamp_of_digits(s: Seq<char>) -> (i32, u32, u32, u32, u32, u32, u32) {
    let d = ymd_of_digits(s.take(8));
    (
        d.0,
        d.1,
        d.2,
        digits_value(s.subrange(9, 11)) as u32,
        digits_value(s.subrange(11, 13)) as u32,
        digits_value(s.subrange(13, 15)) as u32,
        0,
    )
}

/// What `NaiveDateTime::parse_from_str(s, "%Y%m%dT%H%M%SZ")` yields on a
/// string not of the form `compact_stamp_digits` describes.
pub uninterp spec fn chrono_compact_stamp_rest(s: Seq<char>) -> Result<
    (i32, u32, u32, u32, u32, u32, u32),
    Seq<char>,
>;

/// What `NaiveDateTime::parse_from_str(s, "%Y%m%dT%H%M%SZ")` yields on `s`:
/// the timestamp as `(year, month, day, hour, minute, second, nanosecond)`,
/// or the text of the parse error. Digits in that shape naming a valid
/// date and time are read field by field, with no fraction of a second.
#[verifier::opaque]
pub open spec fn chrono_compact_stamp(s: Seq<char>) -> Result<
    (i32, u32, u32, u32, u32, u32, u32),
    Seq<char>,
> {
    if compact_stamp_digits(s) {
        Ok(stamp_of_digits(s))
    } else {
        chrono_compact_stamp_rest(s)
    }
}

/// Calls `NaiveDate::parse_from_str(s, "%Y%m%d")`. Eight ASCII digits
/// naming a valid date are read as `YYYYMMDD`, as chrono's parser reads an
/// unsigned `%Y` as four digits and `%m`, `%d` as two; any other outcome is
/// named by `chrono_compact_date_rest`. A parsed date is a valid one.
#[verifier::external_body]
pub(crate) fn parse_compact_date(s: &str) -> (r: Result<Date, String>)
    ensures
        compact_date_digits(s@) ==> match r {
            Ok(d) => (d.year, d.month, d.day) == ymd_of_digits(s@),
            Err(_) => false,
        },
        !compact_date_digits(s@) ==> match r {
            Ok(d) => chrono_compact_date_rest(s@) == Ok::<(i32, u32, u32), Seq<char>>(
                (d.year, d.month, d.day),
            ),
            Err(m) => chrono_compact_date_rest(s@) == Err::<(i32, u32, u32), Seq<char>>(m@),
        },
        match r {
            Ok(d) => d.valid() && chrono_compact_date(s@) == Ok::<
                (i32, u32, u32),
                Seq<char>,
            >((d.year, d.month, d.day)),
            Err(m) => chrono_compact_date(s@) == Err::<(i32, u32, u32), Seq<char>>(m@),
        },
{
    match chrono::NaiveDate::parse_from_str(s, "%Y%m%d") {
        Ok(d) => Ok(Date { year: d.year(), month: d.month(), day: d.day() }),
        Err(e) => Err(e.to_string()),
    }
}

/// Calls `NaiveDate::parse_from_str(s, "%Y-%m-%d")`. The outcome is named
/// by `chrono_dashed_date`; a parsed date is a valid one.
#[verifier::external_body]
pub(crate) fn parse_dashed_date(s: &str) -> (r: Result<Date, String>)
    ensures
        match r {
            Ok(d) => d.valid() && chrono_dashed_date(s@) == Ok::<
                (i32, u32, u32),
                Seq<char>,
            >((d.year, d.month, d.day)),
            Err(m) => chrono_dashed_date(s@) == Err::<(i32, u32, u32), Seq<char>>(m@),
        },
{
    match chrono::NaiveDate::parse_from_str(s, "%Y-%m-%d") {
        Ok(d) => Ok(Date { year: d.year(), month: d.month(), day: d.day() }),
        Err(e) => Err(e.to_string()),
    }
}

/// Calls `NaiveDateTime::parse_from_str(s, "%Y%m%dT%H%M%SZ")`. Digits in
/// that shape naming a valid date and a time with a second below 60 are
/// read field by field with no fraction of a second; any other outcome is
/// named by `chrono_compact_stamp_rest`. A parsed timestamp is a valid one.
#[verifier::external_body]
pub(crate) fn parse_compact_stamp(s: &str) -> (r: Result<DateTime, String>)
    ensures
        compact_stamp_digits(s@) ==> match r {
            Ok(t) => (t.date.year, t.date.month, t.date.day, t.hour, t.minute, t.second, t.nanosecond)
                == stamp_of_digits(s@),
            Err(_) => false,
        },
        !compact_stamp_digits(s@) ==> match r {
            Ok(t) => chrono_compact_stamp_rest(s@) == Ok::<
                (i32, u32, u32, u32, u32, u32, u32),
                Seq<char>,
            >((t.date.year, t.date.month, t.date.day, t.hour, t.minute, t.second, t.nanosecond)),
            Err(m) => chrono_compact_stamp_rest(s@) == Err::<
                (i32, u32, u32, u32, u32, u32, u32),
                Seq<char>,
            >(m@),
        },
        match r {
            Ok(t) => t.valid() && chrono_compact_stamp(s@) == Ok::<
                (i32, u32, u32, u32, u32, u32, u32),
                Seq<char>,
            >(
                (
                    t.date.year,
                    t.date.month,
                    t.date.day,
                    t.hour,
                    t.minute,
                    t.second,
                    t.nanosecond,
                ),
            ),
            Err(m) => chrono_compact_stamp(s@) == Err::<
                (i32, u32, u32, u32, u32, u32, u32),
                Seq<char>,
            >(m@),
        },
{
    match chrono::NaiveDateTime::parse_from_str(s, "%Y%m%dT%H%M%SZ") {
        Ok(t) => Ok(
            DateTime {
                date: Date { year: t.year(), month: t.month(), day: t.day() },
                hour: t.hour(),
                minute: t.minute(),
                second: t.second(),
                nanosecond: t.nanosecond(),
            },
        ),
        Err(e) => Err(e.to_string()),
    }
}

// ---------------------------------------------------------------------
// Rendering
// ---------------------------------------------------------------------

/// The ASCII digit for `n < 10`.
pub open spec fn digit_char(n: int) -> char {
    if n == 0 {
        '0'
    } else if n == 1 {
        '1'
    } else if n == 2 {
        '2'
    } else if n == 3 {
        '3'
    } else if n == 4 {
        '4'
    } else if n == 5 {
        '5'
    } else if n == 6 {
        '6'
    } else if n == 7 {
        '7'
    } else if n == 8 {
        '8'
    } else {
        '9'
    }
}

/// Decimal digits of `n`, without leading zeros.
pub open spec fn decimal(n: nat) -> Seq<char>
    decreases n,
{
    if n < 10 {
        seq![digit_char(n as int)]
    } else {
        decimal(n / 10).push(digit_char((n % 10) as int))
    }
}

/// `k` copies of `'0'`.
pub open spec fn zeros(k: int) -> Seq<char> {
    Seq::new(if k > 0 {
        k as nat
    } else {
        0
    }, |i: int| '0')
}

/// Decimal digits of `n`, left-padded with zeros to at least `w` digits.
pub open spec fn padded(n: nat, w: int) -> Seq<char> {
    zeros(w - decimal(n).len()) + decimal(n)
}

/// `%Y`: four zero-padded digits for years 0 to 9999, otherwise a sign and
/// at least four digits.
pub open spec fn year_text(y: int) -> Seq<char> {
    if 0 <= y <= 9999 {
        padded(y as nat, 4)
    } else if y < 0 {
        seq!['-'] + padded((-y) as nat, 4)
    } else {
        seq!['+'] + padded(y as nat, 4)
    }
}

/// `%Y%m%d`.
pub open spec fn compact_date_text(d: Date) -> Seq<char> {
    year_text(d.year as int) + padded(d.month as nat, 2) + padded(d.day as nat, 2)
}

/// `%Y-%m-%d`.
pub open spec fn dashed_date_text(d: Date) -> Seq<char> {
    year_text(d.year as int) + seq!['-'] + padded(d.month as nat, 2) + seq!['-'] + padded(
        d.day as nat,
        2,
    )
}

/// `%H%M%S` with a leap second rendered as 60.
pub open spec fn second_of(t: DateTime) -> nat {
    if t.nanosecond >= 1_000_000_000 {
        (t.second + 1) as nat
    } else {
        t.second as nat
    }
}

/// `%Y%m%dT%H%M%SZ`.
pub open spec fn compact_stamp_text(t: DateTime) -> Seq<char> {
    compact_date_text(t.date) + seq!['T'] + padded(t.hour as nat, 2) + padded(t.minute as nat, 2)
        + padded(second_of(t), 2) + seq!['Z']
}

/// `%Y-%m-%dT%H:%M:%SZ`.
pub open spec fn dashed_stamp_text(t: DateTime) -> Seq<char> {
    dashed_date_text(t.date) + seq!['T'] + padded(t.hour as nat, 2) + seq![':'] + padded(
        t.minute as nat,
        2,
    ) + seq![':'] + padded(second_of(t), 2) + seq!['Z']
}

fn digit_of(n: u64) -> (c: char)
    requires
        n < 10,
    ensures
        c == digit_char(n as int),
{
    if n == 0 {
        '0'
    } else if n == 1 {
        '1'
    } else if n == 2 {
        '2'
    } else if n == 3 {
        '3'
    } else if n == 4 {
        '4'
    } else if n == 5 {
        '5'
    } else if n == 6 {
        '6'
    } else if n == 7 {
        '7'
    } else if n == 8 {
        '8'
    } else {
        '9'
    }
}

/// Decimal digits of `n`.
pub fn decimal_chars(n: u64) -> (r: Vec<char>)
    ensures
        r@ == decimal(n as nat),
    decreases n,
{
    if n < 10 {
        let mut v = Vec::new();
        v.push(digit_of(n));
        assert(v@ =~= seq![digit_char(n as int)]);
        v
    } else {
        let mut v = decimal_chars(n / 10);
        v.push(digit_of(n % 10));
        v
    }
}

/// Decimal digits of `n` padded with zeros to at least `w` digits.
pub fn padded_chars(n: u64, w: usize) -> (r: Vec<char>)
    ensures
        r@ == padded(n as nat, w as int),
{
    let d = decimal_chars(n);
    let mut out: Vec<char> = Vec::new();
    let mut k: usize = 0;
    let pad: usize = if w > d.len() {
        w - d.len()
    } else {
        0
    };
    while k < pad
        invariant
            k <= pad,
            out@ == zeros(k as int),
        decreases pad - k,
    {
        out.push('0');
        assert(out@ =~= zeros(k + 1));
        k = k + 1;
    }
    assert(zeros(pad as int) =~= zeros(w - decimal(n as nat).len()));
    let mut i: usize = 0;
    while i < d.len()
        invariant
            i <= d.len(),
            out@ == zeros(pad as int) + d@.take(i as int),
        decreases d.len() - i,
    {
        out.push(d[i]);
        assert(zeros(pad as int) + d@.take(i as int).push(d@[i as int]) =~= zeros(pad as int)
            + d@.take(i + 1));
        i = i + 1;
    }
    assert(d@.take(i as int) =~= d@);
    out
}

fn append(out: &mut Vec<char>, s: &Vec<char>)
    ensures
        final(out)@ == old(out)@ + s@,
{
    let mut i: usize = 0;
    let ghost start = out@;
    while i < s.len()
        invariant
            i <= s.len(),
            out@ == start + s@.take(i as int),
        decreases s.len() - i,
    {
        out.push(s[i]);
        assert(start + s@.take(i as int).push(s@[i as int]) =~= start + s@.take(i + 1));
        i = i + 1;
    }
    assert(s@.take(i as int) =~= s@);
}

/// `%Y` of `y`.
pub fn year_chars(y: i32) -> (r: Vec<char>)
    ensures
        r@ == year_text(y as int),
{
    if 0 <= y && y <= 9999 {
        padded_chars(y as u64, 4)
    } else if y < 0 {
        let mut out: Vec<char> = Vec::new();
        out.push('-');
        let a: i64 = -(y as i64);
        let p = padded_chars(a as u64, 4);
        append(&mut out, &p);
        assert(out@ =~= seq!['-'] + padded((-y) as nat, 4));
        out
    } else {
        let mut out: Vec<char> = Vec::new();
        out.push('+');
        let p = padded_chars(y as u64, 4);
        append(&mut out, &p);
        assert(out@ =~= seq!['+'] + padded(y as nat, 4));
        out
    }
}

/// Renders `d` as `%Y%m%d`.
pub fn compact_date_chars(d: &Date) -> (r: Vec<char>)
    ensures
        r@ == compact_date_text(*d),
{
    let mut out = year_chars(d.year);
    let m = padded_chars(d.month as u64, 2);
    append(&mut out, &m);
    let dd = padded_chars(d.day as u64, 2);
    append(&mut out, &dd);
    out
}

/// Renders `d` as `%Y-%m-%d`.
pub fn dashed_date_chars(d: &Date) -> (r: Vec<char>)
    ensures
        r@ == dashed_date_text(*d),
{
    let mut out = year_chars(d.year);
    out.push('-');
    let m = padded_chars(d.month as u64, 2);
    append(&mut out, &m);
    out.push('-');
    let dd = padded_chars(d.day as u64, 2);
    append(&mut out, &dd);
    out
}

fn second_value(t: &DateTime) -> (r: u64)
    ensures
        r == second_of(*t),
{
    if t.nanosecond >= 1_000_000_000 {
        t.second as u64 + 1
    } else {
        t.second as u64
    }
}

/// Renders `t` as `%Y%m%dT%H%M%SZ`.
pub fn compact_stamp_chars(t: &DateTime) -> (r: Vec<char>)
    ensures
        r@ == compact_stamp_text(*t),
{
    let mut out = compact_date_chars(&t.date);
    out.push('T');
    let h = padded_chars(t.hour as u64, 2);
    append(&mut out, &h);
    let m = padded_chars(t.minute as u64, 2);
    append(&mut out, &m);
    let s = padded_chars(second_value(t), 2);
    append(&mut out, &s);
    out.push('Z');
    out
}

/// Renders `t` as `%Y-%m-%dT%H:%M:%SZ`.
pub fn dashed_stamp_chars(t: &DateTime) -> (r: Vec<char>)
    ensures
        r@ == dashed_stamp_text(*t),
{
    let mut out = dashed_date_chars(&t.date);
    out.push('T');
    let h = padded_chars(t.hour as u64, 2);
    append(&mut out, &h);
    out.push(':');
    let m = padded_chars(t.minute as u64, 2);
    append(&mut out, &m);
    out.push(':');
    let s = padded_chars(second_value(t), 2);
    append(&mut out, &s);
    out.push('Z');
    out
}

impl Date {
    /// `%Y-%m-%d` rendering (the `Display` form of a date).
    pub fn to_string(&self) -> (r: String)
        ensures
            r@ == dashed_date_text(*self),
    {
        let v = dashed_date_chars(self);
        string_of(&v)
    }
}

} // verus!
