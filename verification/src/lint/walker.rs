//! Raw `VEVENT` block walker.
//!
//! Some rules need the raw property sequence of each `VEVENT` block, before
//! the typed parser collapses duplicates or rejects missing required
//! fields. The walker unfolds the source, trims every logical line, and
//! collects each `VEVENT`'s property lines in source order. Nested
//! `BEGIN:`/`END:` blocks (e.g. `VALARM`) inside an event are skipped, so
//! their properties do not show as event properties. It never fails:
//! malformed input gives a best-effort scan.

use vstd::prelude::*;
use crate::line::{parse_logical_line_chars, parse_logical_line_spec};
use crate::parser::{document_lines, trimmed_lines};
use crate::text::{chars_eq, chars_of, starts_with, str_eq, string_of};

verus! {

/// One property occurrence inside a `VEVENT` block.
#[derive(Debug, Clone, PartialEq, Eq)]
pub struct RawProperty {
    /// 1-based logical-line number after unfolding.
    pub line: u32,
    /// Property name, upper case.
    pub name: String,
    /// Raw value, escapes intact.
    pub value: String,
}

/// Mathematical model of a walker `RawProperty`.
pub struct ScanPropertyView {
    pub line: u32,
    pub name: Seq<char>,
    pub value: Seq<char>,
}

impl View for RawProperty {
    type V = ScanPropertyView;

    open spec fn view(&self) -> ScanPropertyView {
        ScanPropertyView { line: self.line, name: self.name@, value: self.value@ }
    }
}

/// Property sequence of one `VEVENT` block, in source order.
#[derive(Debug, Clone, PartialEq, Eq)]
pub struct RawVEventScan {
    /// 1-based logical line of the `BEGIN:VEVENT` marker.
    pub begin_line: u32,
    pub properties: Vec<RawProperty>,
}

/// Mathematical model of a `RawVEventScan`.
pub struct RawVEventScanView {
    pub begin_line: u32,
    pub properties: Seq<ScanPropertyView>,
}

/// Models of a sequence of walker properties.
pub open spec fn scan_props_view(ps: Seq<RawProperty>) -> Seq<ScanPropertyView> {
    ps.map_values(|p: RawProperty| p@)
}

impl View for RawVEventScan {
    type V = RawVEventScanView;

    open spec fn view(&self) -> RawVEventScanView {
        RawVEventScanView { begin_line: self.begin_line, properties: scan_props_view(self.properties@) }
    }
}

/// Models of a sequence of scans.
pub open spec fn scans_view(ss: Seq<RawVEventScan>) -> Seq<RawVEventScanView> {
    ss.map_values(|s: RawVEventScan| s@)
}

/// The 1-based line number of the logical line at index `i`.
pub open spec fn line_number(i: int) -> u32 {
    (i + 1) as u32
}

/// Lines on which properties named `name` appear, in source order.
pub open spec fn lines_of_spec(ps: Seq<ScanPropertyView>, name: Seq<char>) -> Seq<u32>
    decreases ps.len(),
{
    if ps.len() == 0 {
        seq![]
    } else if ps.last().name == name {
        lines_of_spec(ps.drop_last(), name).push(ps.last().line)
    } else {
        lines_of_spec(ps.drop_last(), name)
    }
}

/// Does some property carry `name`?
pub open spec fn has_spec(ps: Seq<ScanPropertyView>, name: Seq<char>) -> bool {
    exists|i: int| 0 <= i < ps.len() && #[trigger] ps[i].name == name
}

/// The index just after the first line from `i` on equal to `end`, or the
/// end of input.
pub open spec fn skip_block_spec(lines: Seq<Seq<char>>, i: int, end: Seq<char>) -> int
    decreases lines.len() - i,
{
    if i < 0 || i >= lines.len() {
        i
    } else if lines[i] == end {
        i + 1
    } else {
        skip_block_spec(lines, i + 1, end)
    }
}

pub proof fn lemma_skip_block_advances(lines: Seq<Seq<char>>, i: int, end: Seq<char>)
    ensures
        skip_block_spec(lines, i, end) >= i,
        0 <= i <= lines.len() ==> skip_block_spec(lines, i, end) <= lines.len(),
    decreases lines.len() - i,
{
    if 0 <= i < lines.len() && lines[i] != end {
        lemma_skip_block_advances(lines, i + 1, end);
    }
}

/// The properties of an event body starting at `i`, and the index just
/// after it: `END:VEVENT` ends the body and is consumed; a nested
/// `BEGIN:NAME` block is skipped through its `END:NAME`; lines that do not
/// tokenize are ignored.
pub open spec fn scan_body_spec(lines: Seq<Seq<char>>, i: int) -> (Seq<ScanPropertyView>, int)
    decreases lines.len() - i,
{
    if i < 0 || i >= lines.len() {
        (seq![], i)
    } else {
        let line = lines[i];
        if line == "END:VEVENT"@ {
            (seq![], i + 1)
        } else if starts_with(line, "BEGIN:"@) {
            let next = skip_block_spec(lines, i + 1, "END:"@ + line.skip(6));
            proof {
                lemma_skip_block_advances(lines, i + 1, "END:"@ + line.skip(6));
            }
            scan_body_spec(lines, next)
        } else {
            let rest = scan_body_spec(lines, i + 1);
            match parse_logical_line_spec(line) {
                Some(ll) => (
                    seq![ScanPropertyView { line: line_number(i), name: ll.name, value: ll.value }]
                        + rest.0,
                    rest.1,
                ),
                None => rest,
            }
        }
    }
}

pub proof fn lemma_scan_body_advances(lines: Seq<Seq<char>>, i: int)
    ensures
        scan_body_spec(lines, i).1 >= i,
        0 <= i <= lines.len() ==> scan_body_spec(lines, i).1 <= lines.len(),
    decreases lines.len() - i,
{
    if 0 <= i < lines.len() {
        let line = lines[i];
        if line == "END:VEVENT"@ {
        } else if starts_with(line, "BEGIN:"@) {
            let next = skip_block_spec(lines, i + 1, "END:"@ + line.skip(6));
            lemma_skip_block_advances(lines, i + 1, "END:"@ + line.skip(6));
            lemma_scan_body_advances(lines, next);
        } else {
            lemma_scan_body_advances(lines, i + 1);
        }
    }
}

/// The scans of every `VEVENT` block from line `i` on.
pub open spec fn walk_spec(lines: Seq<Seq<char>>, i: int) -> Seq<RawVEventScanView>
    decreases lines.len() - i,
{
    if i < 0 || i >= lines.len() {
        seq![]
    } else if lines[i] == "BEGIN:VEVENT"@ {
        let body = scan_body_spec(lines, i + 1);
        proof {
            lemma_scan_body_advances(lines, i + 1);
        }
        seq![RawVEventScanView { begin_line: line_number(i), properties: body.0 }] + walk_spec(
            lines,
            body.1,
        )
    } else {
        walk_spec(lines, i + 1)
    }
}

/// The scans of a whole source.
pub open spec fn walk_vevents_spec(source: Seq<char>) -> Seq<RawVEventScanView> {
    walk_spec(document_lines(source), 0)
}

/// The property lines lie in `(lo, hi]` and strictly increase.
pub open spec fn lines_within(ps: Seq<ScanPropertyView>, lo: int, hi: int) -> bool {
    &&& forall|a: int| 0 <= a < ps.len() ==> lo < #[trigger] ps[a].line <= hi
    &&& forall|a: int, b: int| 0 <= a < b < ps.len() ==> #[trigger] ps[a].line < #[trigger] ps[b].line
}

/// Logical line `l` (1-based) of `lines` tokenizes as a property named
/// `name`.
pub open spec fn names_line(lines: Seq<Seq<char>>, l: int, name: Seq<char>) -> bool {
    &&& 1 <= l <= lines.len()
    &&& parse_logical_line_spec(lines[l - 1]) matches Some(ll) && ll.name == name
}

/// Each property's line tokenizes as a property of its name.
pub open spec fn props_named(lines: Seq<Seq<char>>, ps: Seq<ScanPropertyView>) -> bool {
    forall|a: int| 0 <= a < ps.len() ==> names_line(lines, (#[trigger] ps[a]).line as int, ps[a].name)
}

proof fn lemma_scan_body_lines(lines: Seq<Seq<char>>, i: int)
    requires
        0 <= i,
        lines.len() <= u32::MAX,
    ensures
        lines_within(scan_body_spec(lines, i).0, i, lines.len() as int),
        props_named(lines, scan_body_spec(lines, i).0),
    decreases lines.len() - i,
{
    if i < lines.len() {
        let line = lines[i];
        if line == "END:VEVENT"@ {
        } else if starts_with(line, "BEGIN:"@) {
            let next = skip_block_spec(lines, i + 1, "END:"@ + line.skip(6));
            lemma_skip_block_advances(lines, i + 1, "END:"@ + line.skip(6));
            lemma_scan_body_lines(lines, next);
        } else {
            lemma_scan_body_lines(lines, i + 1);
            let rest = scan_body_spec(lines, i + 1).0;
            match parse_logical_line_spec(line) {
                Some(ll) => {
                    let head = ScanPropertyView { line: line_number(i), name: ll.name, value: ll.value };
                    let ps = seq![head] + rest;
                    assert(line_number(i) == i + 1);
                    assert forall|a: int| 0 <= a < ps.len() implies i < #[trigger] ps[a].line <= lines.len() by {
                        if a > 0 {
                            assert(ps[a] == rest[a - 1]);
                        }
                    }
                    assert forall|a: int, b: int| 0 <= a < b < ps.len() implies #[trigger] ps[a].line
                        < #[trigger] ps[b].line by {
                        assert(ps[b] == rest[b - 1]);
                        if a > 0 {
                            assert(ps[a] == rest[a - 1]);
                        }
                    }
                    assert forall|a: int| 0 <= a < ps.len() implies names_line(
                        lines,
                        (#[trigger] ps[a]).line as int,
                        ps[a].name,
                    ) by {
                        if a > 0 {
                            assert(ps[a] == rest[a - 1]);
                        }
                    }
                },
                None => {},
            }
        }
    }
}

proof fn lemma_walk_lines(lines: Seq<Seq<char>>, i: int, k: int)
    requires
        0 <= i,
        lines.len() <= u32::MAX,
        0 <= k < walk_spec(lines, i).len(),
    ensures
        lines_within(walk_spec(lines, i)[k].properties, walk_spec(lines, i)[k].begin_line as int, lines.len() as int),
        props_named(lines, walk_spec(lines, i)[k].properties),
    decreases lines.len() - i,
{
    if i < lines.len() {
        if lines[i] == "BEGIN:VEVENT"@ {
            let body = scan_body_spec(lines, i + 1);
            lemma_scan_body_advances(lines, i + 1);
            if k == 0 {
                lemma_scan_body_lines(lines, i + 1);
                assert(line_number(i) == i + 1);
            } else {
                lemma_walk_lines(lines, body.1, k - 1);
            }
        } else {
            lemma_walk_lines(lines, i + 1, k);
        }
    }
}

proof fn lemma_lines_of_within(
    lines: Seq<Seq<char>>,
    ps: Seq<ScanPropertyView>,
    name: Seq<char>,
    lo: int,
    hi: int,
)
    requires
        lines_within(ps, lo, hi),
        props_named(lines, ps),
    ensures
        forall|a: int|
            0 <= a < lines_of_spec(ps, name).len() ==> names_line(
                lines,
                #[trigger] lines_of_spec(ps, name)[a] as int,
                name,
            ),
        forall|a: int| 0 <= a < lines_of_spec(ps, name).len() ==> lo < #[trigger] lines_of_spec(ps, name)[a] <= hi,
        forall|a: int, b: int|
            0 <= a < b < lines_of_spec(ps, name).len() ==> #[trigger] lines_of_spec(ps, name)[a]
                < #[trigger] lines_of_spec(ps, name)[b],
        ps.len() > 0 ==> forall|a: int|
            0 <= a < lines_of_spec(ps, name).len() ==> #[trigger] lines_of_spec(ps, name)[a] <= ps.last().line,
    decreases ps.len(),
{
    if ps.len() > 0 {
        let init = ps.drop_last();
        assert forall|a: int| 0 <= a < init.len() implies lo < #[trigger] init[a].line <= hi by {
            assert(init[a] == ps[a]);
        }
        assert forall|a: int, b: int| 0 <= a < b < init.len() implies #[trigger] init[a].line
            < #[trigger] init[b].line by {
            assert(init[a] == ps[a] && init[b] == ps[b]);
        }
        assert forall|a: int| 0 <= a < init.len() implies names_line(
            lines,
            (#[trigger] init[a]).line as int,
            init[a].name,
        ) by {
            assert(init[a] == ps[a]);
        }
        lemma_lines_of_within(lines, init, name, lo, hi);
        if init.len() > 0 {
            assert(init.last() == ps[ps.len() - 2]);
            assert(ps[ps.len() - 2].line < ps[ps.len() - 1].line);
        }
        assert(ps.last() == ps[ps.len() - 1]);
        let prev = lines_of_spec(init, name);
        let ls = lines_of_spec(ps, name);
        if ps.last().name == name {
            assert(ls == prev.push(ps.last().line));
            assert forall|a: int| 0 <= a < ls.len() implies lo < #[trigger] ls[a] <= hi by {
                if a < prev.len() {
                    assert(ls[a] == prev[a]);
                }
            }
            assert forall|a: int| 0 <= a < ls.len() implies names_line(lines, #[trigger] ls[a] as int, name) by {
                if a < prev.len() {
                    assert(ls[a] == prev[a]);
                } else {
                    assert(ps[ps.len() - 1] == ps.last());
                }
            }
            assert forall|a: int, b: int| 0 <= a < b < ls.len() implies #[trigger] ls[a] < #[trigger] ls[b] by {
                assert(ls[a] == prev[a]);
                if b < prev.len() {
                    assert(ls[b] == prev[b]);
                }
            }
        } else {
            assert(ls == prev);
        }
    }
}

/// In every scan of a source whose logical lines are numbered within
/// `u32`, the lines on which a property appears strictly increase, all
/// come after the `BEGIN:VEVENT` line, and each is a logical line that
/// tokenizes as a property of that name.
pub proof fn lemma_walk_vevents_lines_increase(source: Seq<char>, k: int, name: Seq<char>)
    requires
        document_lines(source).len() <= u32::MAX,
        0 <= k < walk_vevents_spec(source).len(),
    ensures
        ({
            let scan = walk_vevents_spec(source)[k];
            let ls = lines_of_spec(scan.properties, name);
            &&& forall|a: int| 0 <= a < ls.len() ==> #[trigger] ls[a] > scan.begin_line
            &&& forall|a: int, b: int| 0 <= a < b < ls.len() ==> #[trigger] ls[a] < #[trigger] ls[b]
            &&& forall|a: int|
                0 <= a < ls.len() ==> names_line(document_lines(source), #[trigger] ls[a] as int, name)
        }),
{
    let lines = document_lines(source);
    lemma_walk_lines(lines, 0, k);
    let scan = walk_spec(lines, 0)[k];
    lemma_lines_of_within(lines, scan.properties, name, scan.begin_line as int, lines.len() as int);
}

impl RawVEventScan {
    /// Number of properties named `name`.
    pub fn count(&self, name: &str) -> (r: usize)
        ensures
            r == lines_of_spec(self@.properties, name@).len(),
    {
        let lines = self.lines_of(name);
        lines.len()
    }

    /// Does some property carry `name`?
    pub fn has(&self, name: &str) -> (r: bool)
        ensures
            r == has_spec(self@.properties, name@),
    {
        let ghost ps = self@.properties;
        let mut i: usize = 0;
        while i < self.properties.len()
            invariant
                i <= self.properties.len(),
                ps == self@.properties,
                forall|j: int| 0 <= j < i ==> ps[j].name != name@,
            decreases self.properties.len() - i,
        {
            if str_eq(self.properties[i].name.as_str(), name) {
                assert(ps[i as int].name == name@);
                return true;
            }
            i = i + 1;
        }
        false
    }

    /// Lines on which properties named `name` appear, in source order.
    pub fn lines_of(&self, name: &str) -> (r: Vec<u32>)
        ensures
            r@ == lines_of_spec(self@.properties, name@),
    {
        let ghost ps = self@.properties;
        let mut out: Vec<u32> = Vec::new();
        let mut i: usize = 0;
        while i < self.properties.len()
            invariant
                i <= self.properties.len(),
                ps == self@.properties,
                out@ == lines_of_spec(ps.take(i as int), name@),
            decreases self.properties.len() - i,
        {
            let ghost t = ps.take(i + 1);
            assert(t.drop_last() =~= ps.take(i as int));
            assert(t.last() == self.properties[i as int]@);
            if str_eq(self.properties[i].name.as_str(), name) {
                out.push(self.properties[i].line);
            }
            i = i + 1;
        }
        assert(ps.take(i as int) =~= ps);
        out
    }
}

fn skip_block_body(logical: &Vec<Vec<char>>, start: usize, end_marker: &Vec<char>) -> (r: usize)
    ensures
        r as int == skip_block_spec(logical.deep_view(), start as int, end_marker@),
{
    let ghost lines = logical.deep_view();
    let mut i = start;
    while i < logical.len()
        invariant
            start <= i,
            lines == logical.deep_view(),
            skip_block_spec(lines, start as int, end_marker@) == skip_block_spec(lines, i as int, end_marker@),
        decreases logical.len() - i,
    {
        assert(lines[i as int] == logical[i as int]@);
        if chars_eq(&logical[i], end_marker) {
            return i + 1;
        }
        i = i + 1;
    }
    i
}

fn scan_vevent_body(logical: &Vec<Vec<char>>, start: usize) -> (r: (Vec<RawProperty>, usize))
    ensures
        scan_props_view(r.0@) == scan_body_spec(logical.deep_view(), start as int).0,
        r.1 as int == scan_body_spec(logical.deep_view(), start as int).1,
{
    let ghost lines = logical.deep_view();
    let mut props: Vec<RawProperty> = Vec::new();
    let mut i = start;
    let end_vevent = chars_of("END:VEVENT");
    let begin = chars_of("BEGIN:");
    while i < logical.len()
        invariant
            lines == logical.deep_view(),
            end_vevent@ == "END:VEVENT"@,
            begin@ == "BEGIN:"@,
            scan_body_spec(lines, start as int).0 == scan_props_view(props@) + scan_body_spec(lines, i as int).0,
            scan_body_spec(lines, start as int).1 == scan_body_spec(lines, i as int).1,
        decreases logical.len() - i,
    {
        let line = &logical[i];
        assert(lines[i as int] == line@);
        if chars_eq(line, &end_vevent) {
            assert(scan_props_view(props@) + seq![] =~= scan_props_view(props@));
            return (props, i + 1);
        }
        if crate::text::has_prefix(line, &begin) {
            proof {
                reveal_strlit("BEGIN:");
            }
            let mut end_marker = chars_of("END:");
            let mut k: usize = 6;
            let ghost head = end_marker@;
            while k < line.len()
                invariant
                    6 <= k <= line.len(),
                    end_marker@ == head + line@.subrange(6, k as int),
                decreases line.len() - k,
            {
                end_marker.push(line[k]);
                assert(end_marker@ =~= head + line@.subrange(6, k + 1));
                k = k + 1;
            }
            assert(line@.subrange(6, line.len() as int) =~= line@.skip(6));
            let next = skip_block_body(logical, i + 1, &end_marker);
            proof {
                lemma_skip_block_advances(lines, i + 1, end_marker@);
            }
            i = next;
        } else {
            match parse_logical_line_chars(line) {
                Some(ll) => {
                    let p = RawProperty { line: #[verifier::truncate] ((i + 1) as u32), name: ll.name, value: ll.value };
                    let ghost before = props@;
                    props.push(p);
                    assert(scan_props_view(props@) =~= scan_props_view(before).push(p@));
                    assert(scan_props_view(before) + (seq![p@] + scan_body_spec(lines, i + 1).0)
                        =~= scan_props_view(props@) + scan_body_spec(lines, i + 1).0);
                },
                None => {},
            }
            i = i + 1;
        }
    }
    assert(scan_props_view(props@) + seq![] =~= scan_props_view(props@));
    (props, i)
}

/// Walk `source` and return one scan per `VEVENT` block.
pub fn walk_vevents(source: &str) -> (r: Vec<RawVEventScan>)
    ensures
        scans_view(r@) == walk_vevents_spec(source@),
{
    let logical = trimmed_lines(source);
    let ghost lines = logical.deep_view();
    let begin_vevent = chars_of("BEGIN:VEVENT");
    let mut scans: Vec<RawVEventScan> = Vec::new();
    let mut i: usize = 0;
    while i < logical.len()
        invariant
            lines == logical.deep_view(),
            lines == document_lines(source@),
            begin_vevent@ == "BEGIN:VEVENT"@,
            walk_spec(lines, 0) == scans_view(scans@) + walk_spec(lines, i as int),
        decreases logical.len() - i,
    {
        assert(lines[i as int] == logical[i as int]@);
        if chars_eq(&logical[i], &begin_vevent) {
            let (props, next) = scan_vevent_body(&logical, i + 1);
            proof {
                lemma_scan_body_advances(lines, i + 1);
            }
            let scan = RawVEventScan { begin_line: #[verifier::truncate] ((i + 1) as u32), properties: props };
            let ghost before = scans@;
            scans.push(scan);
            assert(scans_view(scans@) =~= scans_view(before).push(scan@));
            assert(scans_view(before) + (seq![scan@] + walk_spec(lines, next as int))
                =~= scans_view(scans@) + walk_spec(lines, next as int));
            i = next;
        } else {
            i = i + 1;
        }
    }
    assert(scans_view(scans@) + seq![] =~= scans_view(scans@));
    scans
}

} // verus!
