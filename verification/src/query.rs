//! Queries over a calendar's events: sorting, removal and date-range
//! selection. Every operation returns new values and keeps the
//! calendar-level fields and unrecognized components as they were.

use vstd::prelude::*;
use crate::date::{decimal, decimal_chars, Date};
use crate::error::{push_chars, Error, ErrorView};
use crate::event::{events_view, VEvent, VEventView};
use crate::text::{chars_of, string_of};
use crate::vcalendar::{VCalendar, VCalendarView};

verus! {

/// A field events can be ordered by.
#[derive(Debug, Clone, Copy, PartialEq, Eq, Structural)]
pub enum SortKey {
    Start,
    End,
    Summary,
}

/// Three-way comparison of dates in chronological order: -1, 0 or 1.
pub open spec fn compare_dates(a: Date, b: Date) -> int {
    if a.before(b) {
        -1
    } else if a == b {
        0
    } else {
        1
    }
}

/// Three-way lexicographic comparison of texts by code point, which is
/// the order of their UTF-8 bytes.
pub open spec fn compare_text(a: Seq<char>, b: Seq<char>) -> int
    decreases a.len(),
{
    if a.len() == 0 {
        if b.len() == 0 {
            0
        } else {
            -1
        }
    } else if b.len() == 0 {
        1
    } else if (a[0] as u32) < (b[0] as u32) {
        -1
    } else if (a[0] as u32) > (b[0] as u32) {
        1
    } else {
        compare_text(a.skip(1), b.skip(1))
    }
}

/// Comparison of two events on one key.
pub open spec fn compare_by_key(a: VEventView, b: VEventView, k: SortKey) -> int {
    match k {
        SortKey::Start => compare_dates(a.dtstart, b.dtstart),
        SortKey::End => compare_dates(a.dtend, b.dtend),
        SortKey::Summary => compare_text(a.summary, b.summary),
    }
}

/// Comparison on the keys in turn: the first key on which the events
/// differ decides; equal on all keys gives 0.
pub open spec fn compare_by_keys(a: VEventView, b: VEventView, keys: Seq<SortKey>) -> int
    decreases keys.len(),
{
    if keys.len() == 0 {
        0
    } else {
        let o = compare_by_key(a, b, keys[0]);
        if o != 0 {
            o
        } else {
            compare_by_keys(a, b, keys.skip(1))
        }
    }
}

/// The order used by `sort_events`: the key comparison, reversed when
/// `descending`.
pub open spec fn event_order(a: VEventView, b: VEventView, keys: Seq<SortKey>, descending: bool) -> int {
    if descending {
        -compare_by_keys(a, b, keys)
    } else {
        compare_by_keys(a, b, keys)
    }
}

/// `sorted` with `x` placed after every element that does not order after
/// it.
pub open spec fn insert_event(
    sorted: Seq<VEventView>,
    x: VEventView,
    keys: Seq<SortKey>,
    descending: bool,
) -> Seq<VEventView>
    decreases sorted.len(),
{
    if sorted.len() == 0 {
        seq![x]
    } else if event_order(sorted.last(), x, keys, descending) <= 0 {
        sorted.push(x)
    } else {
        insert_event(sorted.drop_last(), x, keys, descending).push(sorted.last())
    }
}

/// Stable sort of `es` by `event_order`: events that compare equal keep
/// their input order.
pub open spec fn sort_events_spec(es: Seq<VEventView>, keys: Seq<SortKey>, descending: bool) -> Seq<
    VEventView,
>
    decreases es.len(),
{
    if es.len() == 0 {
        seq![]
    } else {
        insert_event(sort_events_spec(es.drop_last(), keys, descending), es.last(), keys, descending)
    }
}

proof fn lemma_insert_event_multiset(
    sorted: Seq<VEventView>,
    x: VEventView,
    keys: Seq<SortKey>,
    descending: bool,
)
    ensures
        insert_event(sorted, x, keys, descending).to_multiset() =~= sorted.to_multiset().insert(x),
    decreases sorted.len(),
{
    broadcast use vstd::seq_lib::group_to_multiset_ensures;

    if sorted.len() > 0 && event_order(sorted.last(), x, keys, descending) > 0 {
        lemma_insert_event_multiset(sorted.drop_last(), x, keys, descending);
        assert(sorted.drop_last().push(sorted.last()) =~= sorted);
    }
}

/// Sorting only reorders: the sorted list holds the same events, each as
/// many times as the input does.
pub proof fn lemma_sort_events_permutation(es: Seq<VEventView>, keys: Seq<SortKey>, descending: bool)
    ensures
        sort_events_spec(es, keys, descending).to_multiset() =~= es.to_multiset(),
        sort_events_spec(es, keys, descending).len() == es.len(),
        forall|x: VEventView| sort_events_spec(es, keys, descending).contains(x) <==> es.contains(x),
    decreases es.len(),
{
    broadcast use vstd::seq_lib::group_to_multiset_ensures;

    if es.len() > 0 {
        lemma_sort_events_permutation(es.drop_last(), keys, descending);
        lemma_insert_event_multiset(sort_events_spec(es.drop_last(), keys, descending), es.last(), keys, descending);
        assert(es.drop_last().push(es.last()) =~= es);
    }
    let r = sort_events_spec(es, keys, descending);
    assert(r.len() == r.to_multiset().len());
    assert forall|x: VEventView| r.contains(x) <==> es.contains(x) by {
        assert(r.contains(x) <==> r.to_multiset().count(x) > 0);
        assert(es.contains(x) <==> es.to_multiset().count(x) > 0);
    }
}

fn compare_dates_exec(a: &Date, b: &Date) -> (r: i8)
    ensures
        r as int == compare_dates(*a, *b),
        -1 <= r <= 1,
{
    if a.lt(b) {
        -1
    } else if a.same(b) {
        0
    } else {
        1
    }
}

fn compare_text_exec(a: &Vec<char>, b: &Vec<char>) -> (r: i8)
    ensures
        r as int == compare_text(a@, b@),
        -1 <= r <= 1,
{
    let mut i: usize = 0;
    assert(a@.skip(0) =~= a@);
    assert(b@.skip(0) =~= b@);
    while i < a.len() && i < b.len() && (a[i] as u32) == (b[i] as u32)
        invariant
            i <= a.len(),
            i <= b.len(),
            compare_text(a@, b@) == compare_text(a@.skip(i as int), b@.skip(i as int)),
        decreases a.len() - i,
    {
        let ghost sa = a@.skip(i as int);
        let ghost sb = b@.skip(i as int);
        assert(sa[0] == a@[i as int]);
        assert(sb[0] == b@[i as int]);
        assert(sa.skip(1) =~= a@.skip(i + 1));
        assert(sb.skip(1) =~= b@.skip(i + 1));
        i = i + 1;
    }
    let ghost sa = a@.skip(i as int);
    let ghost sb = b@.skip(i as int);
    if i == a.len() {
        assert(sa.len() == 0);
        if i == b.len() {
            0
        } else {
            -1
        }
    } else if i == b.len() {
        assert(sb.len() == 0);
        1
    } else {
        assert(sa[0] == a@[i as int]);
        assert(sb[0] == b@[i as int]);
        if (a[i] as u32) < (b[i] as u32) {
            -1
        } else {
            1
        }
    }
}

fn compare_by_key_exec(a: &VEvent, b: &VEvent, k: SortKey) -> (r: i8)
    ensures
        r as int == compare_by_key(a@, b@, k),
        -1 <= r <= 1,
{
    match k {
        SortKey::Start => compare_dates_exec(&a.dtstart, &b.dtstart),
        SortKey::End => compare_dates_exec(&a.dtend, &b.dtend),
        SortKey::Summary => compare_text_exec(&chars_of(a.summary.as_str()), &chars_of(b.summary.as_str())),
    }
}

fn event_order_exec(a: &VEvent, b: &VEvent, keys: &[SortKey], descending: bool) -> (r: i8)
    ensures
        r as int == event_order(a@, b@, keys@, descending),
{
    let mut i: usize = 0;
    let mut o: i8 = 0;
    assert(keys@.skip(0) =~= keys@);
    while i < keys.len() && o == 0
        invariant
            i <= keys.len(),
            -1 <= o <= 1,
            o == 0 ==> compare_by_keys(a@, b@, keys@) == compare_by_keys(a@, b@, keys@.skip(i as int)),
            o != 0 ==> compare_by_keys(a@, b@, keys@) == o,
        decreases keys.len() - i,
    {
        let ghost rest = keys@.skip(i as int);
        assert(rest[0] == keys@[i as int]);
        assert(rest.skip(1) =~= keys@.skip(i + 1));
        o = compare_by_key_exec(a, b, keys[i]);
        i = i + 1;
    }
    if o == 0 {
        assert(keys@.skip(i as int).len() == 0);
    }
    if descending {
        -o
    } else {
        o
    }
}

/// Insert `x` into `v` after every element that does not order after it.
fn insert_event_exec(v: &mut Vec<VEvent>, x: VEvent, keys: &[SortKey], descending: bool)
    ensures
        events_view(final(v)@) == insert_event(events_view(old(v)@), x@, keys@, descending),
{
    let ghost o = events_view(v@);
    let ghost xv = x@;
    let mut pos = v.len();
    assert(o.take(pos as int) =~= o);
    assert(o.skip(pos as int) =~= seq![]);
    assert(insert_event(o, xv, keys@, descending) =~= insert_event(o.take(pos as int), xv, keys@, descending) + o.skip(pos as int));
    while pos > 0 && event_order_exec(&v[pos - 1], &x, keys, descending) > 0
        invariant
            pos <= v.len(),
            o == events_view(v@),
            xv == x@,
            insert_event(o, xv, keys@, descending) == insert_event(o.take(pos as int), xv, keys@, descending)
                + o.skip(pos as int),
        decreases pos,
    {
        let ghost t = o.take(pos as int);
        assert(t.last() == o[pos - 1]);
        assert(t.drop_last() =~= o.take(pos - 1));
        assert(insert_event(t, xv, keys@, descending) == insert_event(o.take(pos - 1), xv, keys@, descending).push(o[pos - 1]));
        assert(insert_event(o.take(pos - 1), xv, keys@, descending).push(o[pos - 1]) + o.skip(pos as int)
            =~= insert_event(o.take(pos - 1), xv, keys@, descending) + o.skip(pos - 1));
        pos = pos - 1;
    }
    let ghost t = o.take(pos as int);
    proof {
        if pos == 0 {
            assert(insert_event(t, xv, keys@, descending) =~= seq![xv]);
        } else {
            assert(t.last() == o[pos - 1]);
            assert(insert_event(t, xv, keys@, descending) == t.push(xv));
        }
    }
    v.insert(pos, x);
    assert(events_view(v@) =~= o.insert(pos as int, xv));
    assert(o.insert(pos as int, xv) =~= t.push(xv) + o.skip(pos as int));
}

/// The events sorted stably by `keys` in turn (the first key on which two
/// events differ decides), in descending order when `descending`.
pub fn sort_events(events: &[VEvent], keys: &[SortKey], descending: bool) -> (r: Vec<VEvent>)
    ensures
        events_view(r@) == sort_events_spec(events_view(events@), keys@, descending),
{
    let mut out: Vec<VEvent> = Vec::new();
    let mut i: usize = 0;
    assert(events_view(out@) =~= sort_events_spec(events_view(events@).take(0), keys@, descending));
    while i < events.len()
        invariant
            i <= events.len(),
            events_view(out@) == sort_events_spec(events_view(events@).take(i as int), keys@, descending),
        decreases events.len() - i,
    {
        let ghost t = events_view(events@).take(i + 1);
        assert(t.drop_last() =~= events_view(events@).take(i as int));
        assert(t.last() == events@[i as int]@);
        insert_event_exec(&mut out, events[i].copy(), keys, descending);
        i = i + 1;
    }
    assert(events_view(events@).take(i as int) =~= events_view(events@));
    out
}


/// The events of `es` that satisfy `keep`, in input order.
pub open spec fn keep_events(es: Seq<VEventView>, keep: spec_fn(VEventView) -> bool) -> Seq<VEventView>
    decreases es.len(),
{
    if es.len() == 0 {
        seq![]
    } else if keep(es.last()) {
        keep_events(es.drop_last(), keep).push(es.last())
    } else {
        keep_events(es.drop_last(), keep)
    }
}

/// `keep_events` keeps every event exactly when all of them satisfy `keep`.
pub proof fn lemma_keep_events_len(es: Seq<VEventView>, keep: spec_fn(VEventView) -> bool)
    ensures
        keep_events(es, keep).len() <= es.len(),
        keep_events(es, keep).len() == es.len() <==> forall|i: int| 0 <= i < es.len() ==> #[trigger] keep(es[i]),
    decreases es.len(),
{
    if es.len() > 0 {
        lemma_keep_events_len(es.drop_last(), keep);
        if keep_events(es, keep).len() == es.len() {
            assert forall|i: int| 0 <= i < es.len() implies #[trigger] keep(es[i]) by {
                if i < es.len() - 1 {
                    assert(es.drop_last()[i] == es[i]);
                }
            }
        }
        if forall|i: int| 0 <= i < es.len() ==> #[trigger] keep(es[i]) {
            assert(keep(es[es.len() - 1]));
            assert forall|i: int| 0 <= i < es.drop_last().len() implies #[trigger] keep(es.drop_last()[i]) by {
                assert(es.drop_last()[i] == es[i]);
            }
        }
    }
}

/// Every event `keep_events` keeps is an event of `es` that satisfies
/// `keep`.
pub proof fn lemma_keep_events_elements(es: Seq<VEventView>, keep: spec_fn(VEventView) -> bool)
    ensures
        forall|i: int|
            0 <= i < keep_events(es, keep).len() ==> keep(#[trigger] keep_events(es, keep)[i])
                && es.contains(keep_events(es, keep)[i]),
    decreases es.len(),
{
    if es.len() > 0 {
        lemma_keep_events_elements(es.drop_last(), keep);
        let k = keep_events(es, keep);
        let k0 = keep_events(es.drop_last(), keep);
        assert forall|i: int| 0 <= i < k.len() implies keep(#[trigger] k[i]) && es.contains(k[i]) by {
            if i < k0.len() {
                assert(k[i] == k0[i]);
                assert(es.drop_last().contains(k0[i]));
                let j = choose|j: int| 0 <= j < es.drop_last().len() && es.drop_last()[j] == k0[i];
                assert(es[j] == k0[i]);
            } else {
                assert(k[i] == es.last());
                assert(es[es.len() - 1] == es.last());
            }
        }
    }
}

/// Does the event not carry the given summary?
pub open spec fn summary_differs(s: Seq<char>) -> spec_fn(VEventView) -> bool {
    |e: VEventView| e.summary != s
}

/// Does the event overlap the closed range `[from, to]`? The event's
/// `DTEND` is exclusive: it overlaps iff `dtend > from` and
/// `dtstart <= to`, each check skipped where its bound is absent.
pub open spec fn overlaps(from: Option<Date>, to: Option<Date>) -> spec_fn(VEventView) -> bool {
    |e: VEventView|
        (match from {
            Some(f) => f.before(e.dtend),
            None => true,
        }) && (match to {
            Some(t) => e.dtstart.before(t) || e.dtstart == t,
            None => true,
        })
}

/// The message of the error for a summary that no event carries.
pub open spec fn no_summary_message(s: Seq<char>) -> Seq<char> {
    "No event found with summary: "@ + s
}

fn summary_differs_exec(e: &VEvent, s: &Vec<char>) -> (r: bool)
    ensures
        r == summary_differs(s@)(e@),
{
    !crate::text::chars_eq(&chars_of(e.summary.as_str()), s)
}

fn overlaps_exec(e: &VEvent, from: Option<Date>, to: Option<Date>) -> (r: bool)
    ensures
        r == overlaps(from, to)(e@),
{
    let lower = match from {
        Some(f) => f.lt(&e.dtend),
        None => true,
    };
    let upper = match to {
        Some(t) => e.dtstart.le(&t),
        None => true,
    };
    lower && upper
}

/// Drop the events whose summary is `summary`. Fails with a `Parse`
/// error when no event carries that summary.
pub fn remove_event_by_summary(cal: &VCalendar, summary: &str) -> (r: Result<VCalendar, Error>)
    ensures
        r is Err <==> forall|i: int| 0 <= i < cal@.events.len() ==> cal@.events[i].summary != summary@,
        r matches Ok(c) ==> c@ == (VCalendarView {
            events: keep_events(cal@.events, summary_differs(summary@)),
            ..cal@
        }),
        r matches Err(e) ==> e@ == (ErrorView {
            message: no_summary_message(summary@),
            line: None,
            property: None,
        }),
{
    let s = chars_of(summary);
    let ghost es = events_view(cal.events@);
    let ghost keep = summary_differs(summary@);
    let mut remaining: Vec<VEvent> = Vec::new();
    let mut i: usize = 0;
    while i < cal.events.len()
        invariant
            i <= cal.events.len(),
            s@ == summary@,
            es == events_view(cal.events@),
            keep == summary_differs(summary@),
            events_view(remaining@) == keep_events(es.take(i as int), keep),
        decreases cal.events.len() - i,
    {
        let ghost t = es.take(i + 1);
        assert(t.drop_last() =~= es.take(i as int));
        assert(t.last() == cal.events[i as int]@);
        if summary_differs_exec(&cal.events[i], &s) {
            let e = cal.events[i].copy();
            let ghost before = remaining@;
            remaining.push(e);
            assert(events_view(remaining@) =~= events_view(before).push(e@));
        }
        i = i + 1;
    }
    assert(es.take(i as int) =~= es);
    proof {
        lemma_keep_events_len(es, keep);
        assert(es.len() == cal@.events.len());
        assert forall|i: int| 0 <= i < es.len() implies #[trigger] keep(es[i]) == (cal@.events[i].summary != summary@) by {}
    }
    if remaining.len() == cal.events.len() {
        assert forall|i: int| 0 <= i < cal@.events.len() implies cal@.events[i].summary != summary@ by {
            assert(keep(es[i]));
        }
        let mut msg: Vec<char> = chars_of("No event found with summary: ");
        push_chars(&mut msg, &s);
        return Err(Error::parse(string_of(&msg).as_str()));
    }
    Ok(cal.with_events(remaining))
}

/// Is `idx` a valid 1-based position among `n` events?
pub open spec fn index_in_range(idx: usize, n: nat) -> bool {
    idx != 0 && idx <= n
}

/// The position in `indices` of the first index that is out of range.
pub open spec fn first_bad_index(indices: Seq<usize>, n: nat) -> Option<int> {
    if exists|k: int| 0 <= k < indices.len() && !index_in_range(indices[k], n) {
        Some(choose|k: int| 0 <= k < indices.len() && !index_in_range(indices[k], n)
            && forall|j: int| 0 <= j < k ==> index_in_range(indices[j], n))
    } else {
        None
    }
}

proof fn lemma_first_bad_index(indices: Seq<usize>, n: nat, k: int)
    requires
        0 <= k < indices.len(),
        !index_in_range(indices[k], n),
        forall|j: int| 0 <= j < k ==> index_in_range(indices[j], n),
    ensures
        first_bad_index(indices, n) == Some(k),
{
    let c = first_bad_index(indices, n)->0;
    if c < k {
        assert(index_in_range(indices[c], n));
    } else if c > k {
        assert(index_in_range(indices[k], n));
    }
}

/// The events of `es` whose 1-based position is not in `indices`.
pub open spec fn drop_positions(es: Seq<VEventView>, indices: Seq<usize>) -> Seq<VEventView>
    decreases es.len(),
{
    if es.len() == 0 {
        seq![]
    } else if indices.contains(es.len() as usize) {
        drop_positions(es.drop_last(), indices)
    } else {
        drop_positions(es.drop_last(), indices).push(es.last())
    }
}

/// The message of the error for an out-of-range index.
pub open spec fn bad_index_message(idx: usize, n: nat) -> Seq<char> {
    "Index "@ + decimal(idx as nat) + " out of range (1-"@ + decimal(n) + ")"@
}

fn contains_index(indices: &[usize], x: usize) -> (r: bool)
    ensures
        r == indices@.contains(x),
{
    let mut i: usize = 0;
    while i < indices.len()
        invariant
            i <= indices.len(),
            forall|j: int| 0 <= j < i ==> indices@[j] != x,
        decreases indices.len() - i,
    {
        if indices[i] == x {
            return true;
        }
        i = i + 1;
    }
    false
}

/// Drop the events at the given 1-based positions. Fails with a `Parse`
/// error naming the first index, in input order, that is 0 or past the
/// last event.
pub fn remove_events_by_indices(cal: &VCalendar, indices: &[usize]) -> (r: Result<VCalendar, Error>)
    ensures
        r is Err <==> first_bad_index(indices@, cal@.events.len()) is Some,
        r matches Ok(c) ==> c@ == (VCalendarView {
            events: drop_positions(cal@.events, indices@),
            ..cal@
        }),
        r matches Err(e) ==> e@ == (ErrorView {
            message: bad_index_message(
                indices@[first_bad_index(indices@, cal@.events.len())->0],
                cal@.events.len(),
            ),
            line: None,
            property: None,
        }),
{
    let n = cal.events.len();
    let ghost nn = cal@.events.len();
    assert(nn == n);
    let mut k: usize = 0;
    while k < indices.len()
        invariant
            k <= indices.len(),
            n == nn,
            nn == cal@.events.len(),
            forall|j: int| 0 <= j < k ==> index_in_range(indices@[j], nn),
        decreases indices.len() - k,
    {
        let idx = indices[k];
        if idx == 0 || idx > n {
            proof {
                lemma_first_bad_index(indices@, nn, k as int);
            }
            let mut msg: Vec<char> = chars_of("Index ");
            push_chars(&mut msg, &decimal_chars(idx as u64));
            push_chars(&mut msg, &chars_of(" out of range (1-"));
            push_chars(&mut msg, &decimal_chars(n as u64));
            push_chars(&mut msg, &chars_of(")"));
            return Err(Error::parse(string_of(&msg).as_str()));
        }
        k = k + 1;
    }
    assert(first_bad_index(indices@, nn) is None);
    let ghost es = events_view(cal.events@);
    let mut remaining: Vec<VEvent> = Vec::new();
    let mut i: usize = 0;
    while i < n
        invariant
            i <= n,
            n == cal.events.len(),
            es == events_view(cal.events@),
            events_view(remaining@) == drop_positions(es.take(i as int), indices@),
        decreases n - i,
    {
        let ghost t = es.take(i + 1);
        assert(t.drop_last() =~= es.take(i as int));
        assert(t.last() == cal.events[i as int]@);
        assert(t.len() == i + 1);
        if !contains_index(indices, i + 1) {
            let e = cal.events[i].copy();
            let ghost before = remaining@;
            remaining.push(e);
            assert(events_view(remaining@) =~= events_view(before).push(e@));
        }
        i = i + 1;
    }
    assert(es.take(i as int) =~= es);
    Ok(cal.with_events(remaining))
}

/// The calendar with only the events that overlap `[from, to]`; a missing
/// bound leaves that side open. `from > to` selects nothing.
pub fn split_by_date_range(cal: &VCalendar, from: Option<Date>, to: Option<Date>) -> (r: VCalendar)
    ensures
        r@ == (VCalendarView { events: keep_events(cal@.events, overlaps(from, to)), ..cal@ }),
{
    let ghost es = events_view(cal.events@);
    let ghost keep = overlaps(from, to);
    let mut matched: Vec<VEvent> = Vec::new();
    let mut i: usize = 0;
    while i < cal.events.len()
        invariant
            i <= cal.events.len(),
            es == events_view(cal.events@),
            keep == overlaps(from, to),
            events_view(matched@) == keep_events(es.take(i as int), keep),
        decreases cal.events.len() - i,
    {
        let ghost t = es.take(i + 1);
        assert(t.drop_last() =~= es.take(i as int));
        assert(t.last() == cal.events[i as int]@);
        if overlaps_exec(&cal.events[i], from, to) {
            let e = cal.events[i].copy();
            let ghost before = matched@;
            matched.push(e);
            assert(events_view(matched@) =~= events_view(before).push(e@));
        }
        i = i + 1;
    }
    assert(es.take(i as int) =~= es);
    cal.with_events(matched)
}

} // verus!

verus! {

// ---------------------------------------------------------------------
// Sorting puts the events in order
// ---------------------------------------------------------------------

proof fn lemma_compare_dates_order(a: Date, b: Date, c: Date)
    ensures
        compare_dates(a, b) == -compare_dates(b, a),
        -1 <= compare_dates(a, b) <= 1,
        compare_dates(a, b) <= 0 && compare_dates(b, c) <= 0 ==> compare_dates(a, c) <= 0,
        compare_dates(a, b) == 0 && compare_dates(b, c) == 0 ==> compare_dates(a, c) == 0,
        compare_dates(a, b) < 0 && compare_dates(b, c) <= 0 ==> compare_dates(a, c) < 0,
        compare_dates(a, b) <= 0 && compare_dates(b, c) < 0 ==> compare_dates(a, c) < 0,
{
}

proof fn lemma_compare_text_antisymmetric(a: Seq<char>, b: Seq<char>)
    ensures
        compare_text(a, b) == -compare_text(b, a),
        -1 <= compare_text(a, b) <= 1,
    decreases a.len(),
{
    if a.len() > 0 && b.len() > 0 && (a[0] as u32) == (b[0] as u32) {
        lemma_compare_text_antisymmetric(a.skip(1), b.skip(1));
    }
}

proof fn lemma_compare_text_transitive(a: Seq<char>, b: Seq<char>, c: Seq<char>)
    ensures
        compare_text(a, b) <= 0 && compare_text(b, c) <= 0 ==> compare_text(a, c) <= 0,
        compare_text(a, b) == 0 && compare_text(b, c) == 0 ==> compare_text(a, c) == 0,
        compare_text(a, b) < 0 && compare_text(b, c) <= 0 ==> compare_text(a, c) < 0,
        compare_text(a, b) <= 0 && compare_text(b, c) < 0 ==> compare_text(a, c) < 0,
    decreases a.len(),
{
    lemma_compare_text_antisymmetric(a, b);
    lemma_compare_text_antisymmetric(b, c);
    lemma_compare_text_antisymmetric(a, c);
    if a.len() > 0 && b.len() > 0 && c.len() > 0 {
        let x = a[0] as u32;
        let y = b[0] as u32;
        let z = c[0] as u32;
        if x == y && y == z {
            lemma_compare_text_transitive(a.skip(1), b.skip(1), c.skip(1));
        }
    }
}

proof fn lemma_compare_key_order(a: VEventView, b: VEventView, c: VEventView, k: SortKey)
    ensures
        compare_by_key(a, b, k) == -compare_by_key(b, a, k),
        -1 <= compare_by_key(a, b, k) <= 1,
        compare_by_key(a, b, k) <= 0 && compare_by_key(b, c, k) <= 0 ==> compare_by_key(a, c, k)
            <= 0,
        compare_by_key(a, b, k) == 0 && compare_by_key(b, c, k) == 0 ==> compare_by_key(a, c, k)
            == 0,
        compare_by_key(a, b, k) < 0 && compare_by_key(b, c, k) <= 0 ==> compare_by_key(a, c, k) < 0,
        compare_by_key(a, b, k) <= 0 && compare_by_key(b, c, k) < 0 ==> compare_by_key(a, c, k) < 0,
{
    match k {
        SortKey::Start => lemma_compare_dates_order(a.dtstart, b.dtstart, c.dtstart),
        SortKey::End => lemma_compare_dates_order(a.dtend, b.dtend, c.dtend),
        SortKey::Summary => {
            lemma_compare_text_antisymmetric(a.summary, b.summary);
            lemma_compare_text_antisymmetric(b.summary, c.summary);
            lemma_compare_text_transitive(a.summary, b.summary, c.summary);
        },
    }
}

proof fn lemma_compare_keys_order(a: VEventView, b: VEventView, c: VEventView, keys: Seq<SortKey>)
    ensures
        compare_by_keys(a, b, keys) == -compare_by_keys(b, a, keys),
        compare_by_keys(a, b, keys) <= 0 && compare_by_keys(b, c, keys) <= 0 ==> compare_by_keys(
            a,
            c,
            keys,
        ) <= 0,
    decreases keys.len(),
{
    if keys.len() > 0 {
        lemma_compare_key_order(a, b, c, keys[0]);
        lemma_compare_key_order(b, a, c, keys[0]);
        lemma_compare_key_order(a, c, b, keys[0]);
        lemma_compare_keys_order(a, b, c, keys.skip(1));
    }
}

/// `event_order` is antisymmetric and transitive on "not after".
proof fn lemma_event_order(a: VEventView, b: VEventView, c: VEventView, keys: Seq<SortKey>, descending: bool)
    ensures
        event_order(a, b, keys, descending) == -event_order(b, a, keys, descending),
        event_order(a, b, keys, descending) <= 0 && event_order(b, c, keys, descending) <= 0
            ==> event_order(a, c, keys, descending) <= 0,
{
    lemma_compare_keys_order(a, b, c, keys);
    lemma_compare_keys_order(c, b, a, keys);
    lemma_compare_keys_order(b, a, c, keys);
    lemma_compare_keys_order(a, c, b, keys);
    lemma_compare_keys_order(c, a, b, keys);
}

/// No event of `s` comes after a later one.
pub open spec fn events_sorted(s: Seq<VEventView>, keys: Seq<SortKey>, descending: bool) -> bool {
    forall|i: int, j: int| 0 <= i < j < s.len() ==> event_order(s[i], s[j], keys, descending) <= 0
}

proof fn lemma_insert_event_sorted(sorted: Seq<VEventView>, x: VEventView, keys: Seq<SortKey>, descending: bool)
    requires
        events_sorted(sorted, keys, descending),
    ensures
        events_sorted(insert_event(sorted, x, keys, descending), keys, descending),
    decreases sorted.len(),
{
    broadcast use vstd::seq_lib::group_to_multiset_ensures;

    let r = insert_event(sorted, x, keys, descending);
    if sorted.len() == 0 {
    } else if event_order(sorted.last(), x, keys, descending) <= 0 {
        assert forall|i: int, j: int| 0 <= i < j < r.len() implies event_order(r[i], r[j], keys, descending) <= 0 by {
            if j == r.len() - 1 {
                if i < sorted.len() - 1 {
                    lemma_event_order(sorted[i], sorted.last(), x, keys, descending);
                }
            }
        }
    } else {
        let d = sorted.drop_last();
        let last = sorted.last();
        assert(events_sorted(d, keys, descending));
        lemma_insert_event_sorted(d, x, keys, descending);
        lemma_insert_event_multiset(d, x, keys, descending);
        let t = insert_event(d, x, keys, descending);
        lemma_event_order(last, x, x, keys, descending);
        assert forall|i: int| 0 <= i < t.len() implies event_order(t[i], last, keys, descending) <= 0 by {
            assert(t.to_multiset().count(t[i]) > 0);
            assert(t.to_multiset() =~= d.to_multiset().insert(x));
            if t[i] != x {
                assert(d.to_multiset().count(t[i]) > 0);
                assert(d.contains(t[i]));
                let k = choose|k: int| 0 <= k < d.len() && d[k] == t[i];
                assert(sorted[k] == d[k]);
                assert(event_order(sorted[k], sorted[sorted.len() - 1], keys, descending) <= 0);
            }
        }
        assert forall|i: int, j: int| 0 <= i < j < r.len() implies event_order(r[i], r[j], keys, descending) <= 0 by {
            if j == r.len() - 1 {
                assert(r[i] == t[i]);
            } else {
                assert(r[i] == t[i] && r[j] == t[j]);
            }
        }
    }
}

/// `sort_events` puts the events in order: no event comes after a later
/// one by the sort keys (reversed when descending), and the events are
/// those of the input, each as many times.
pub proof fn lemma_sort_events_sorted(es: Seq<VEventView>, keys: Seq<SortKey>, descending: bool)
    ensures
        events_sorted(sort_events_spec(es, keys, descending), keys, descending),
        sort_events_spec(es, keys, descending).to_multiset() =~= es.to_multiset(),
    decreases es.len(),
{
    lemma_sort_events_permutation(es, keys, descending);
    if es.len() > 0 {
        lemma_sort_events_sorted(es.drop_last(), keys, descending);
        lemma_insert_event_sorted(sort_events_spec(es.drop_last(), keys, descending), es.last(), keys, descending);
    }
}


/// The events of `es` that compare equal to `x`, in order.
pub open spec fn ties_of(es: Seq<VEventView>, x: VEventView, keys: Seq<SortKey>, descending: bool) -> Seq<
    VEventView,
>
    decreases es.len(),
{
    if es.len() == 0 {
        seq![]
    } else if event_order(es.last(), x, keys, descending) == 0 {
        ties_of(es.drop_last(), x, keys, descending).push(es.last())
    } else {
        ties_of(es.drop_last(), x, keys, descending)
    }
}

proof fn lemma_ties_insert(
    t: Seq<VEventView>,
    l: VEventView,
    x: VEventView,
    keys: Seq<SortKey>,
    descending: bool,
)
    requires
        events_sorted(t, keys, descending),
    ensures
        ties_of(insert_event(t, l, keys, descending), x, keys, descending) == (if event_order(
            l,
            x,
            keys,
            descending,
        ) == 0 {
            ties_of(t, x, keys, descending).push(l)
        } else {
            ties_of(t, x, keys, descending)
        }),
    decreases t.len(),
{
    let ins = insert_event(t, l, keys, descending);
    if t.len() == 0 {
        assert(ins == seq![l]);
        assert(ins.drop_last() =~= Seq::<VEventView>::empty());
        assert(ties_of(Seq::<VEventView>::empty(), x, keys, descending) == Seq::<VEventView>::empty());
        assert(Seq::<VEventView>::empty().push(l) =~= seq![l]);
    } else if event_order(t.last(), l, keys, descending) <= 0 {
        assert(ins == t.push(l));
        assert(ins.drop_last() =~= t);
    } else {
        let dl = t.drop_last();
        let last = t.last();
        assert(events_sorted(dl, keys, descending)) by {
            assert forall|i: int, j: int| 0 <= i < j < dl.len() implies event_order(
                dl[i],
                dl[j],
                keys,
                descending,
            ) <= 0 by {
                assert(dl[i] == t[i] && dl[j] == t[j]);
            }
        }
        lemma_ties_insert(dl, l, x, keys, descending);
        assert(ins == insert_event(dl, l, keys, descending).push(last));
        assert(ins.drop_last() =~= insert_event(dl, l, keys, descending));
        assert(ins.last() == last);
        assert(t.drop_last() =~= dl);
        if event_order(l, x, keys, descending) == 0 && event_order(last, x, keys, descending) == 0 {
            lemma_event_order(last, x, l, keys, descending);
            lemma_event_order(l, x, last, keys, descending);
            assert(false);
        }
    }
}

/// Sorting is stable: the events that compare equal to any given event
/// come out in the order they went in.
pub proof fn lemma_sort_events_stable(
    es: Seq<VEventView>,
    x: VEventView,
    keys: Seq<SortKey>,
    descending: bool,
)
    ensures
        ties_of(sort_events_spec(es, keys, descending), x, keys, descending) == ties_of(
            es,
            x,
            keys,
            descending,
        ),
    decreases es.len(),
{
    if es.len() > 0 {
        let dl = es.drop_last();
        lemma_sort_events_stable(dl, x, keys, descending);
        lemma_sort_events_sorted(dl, keys, descending);
        lemma_ties_insert(sort_events_spec(dl, keys, descending), es.last(), x, keys, descending);
    } else {
        assert(sort_events_spec(es, keys, descending) == Seq::<VEventView>::empty());
    }
}

} // verus!
