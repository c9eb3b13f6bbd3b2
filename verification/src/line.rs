//! Logical line tokenization per RFC 5545.
//!
//! After unfolding, each logical line has the shape
//! `NAME[;PARAM=VALUE...]:VALUE`. The line is split at its first `:`; the
//! part before it is split at `;`, the first piece being the name (upper
//! cased) and every later piece holding a `=` becoming a parameter (key
//! upper cased, value with surrounding `"` removed). Pieces without `=` are
//! dropped. The value keeps its escapes.

use vstd::prelude::*;
use crate::raw::{RawProperty, RawPropertyView};
use crate::text::{
    chars_of, copy_string, find_char, first_index, split_chars, split_on, split_on_acc, string_of,
    string_of_range, to_uppercase, trim_matches_range, trim_matches_spec, unicode_uppercase,
};

verus! {

/// Tokenized property line.
pub struct LogicalLine {
    /// Property name, upper case.
    pub name: String,
    /// `(KEY, value)` pairs; keys upper case, values with surrounding `"`
    /// stripped; input order.
    pub params: Vec<(String, String)>,
    /// Text after the first `:`, escapes intact.
    pub value: String,
}

/// Mathematical model of a `LogicalLine`.
pub struct LogicalLineView {
    pub name: Seq<char>,
    pub params: Seq<(Seq<char>, Seq<char>)>,
    pub value: Seq<char>,
}

impl View for LogicalLine {
    type V = LogicalLineView;

    open spec fn view(&self) -> LogicalLineView {
        LogicalLineView { name: self.name@, params: self.params.deep_view(), value: self.value@ }
    }
}

/// The parameter a `KEY=value` piece denotes, if it holds a `=`.
pub open spec fn param_of(piece: Seq<char>) -> Option<(Seq<char>, Seq<char>)> {
    match first_index(piece, '=') {
        Some(e) => Some(
            (unicode_uppercase(piece.take(e)), trim_matches_spec(piece.skip(e + 1), '"')),
        ),
        None => None,
    }
}

/// Parameters denoted by the pieces after the name.
pub open spec fn params_spec(pieces: Seq<Seq<char>>) -> Seq<(Seq<char>, Seq<char>)>
    decreases pieces.len(),
{
    if pieces.len() == 0 {
        seq![]
    } else {
        let head = match param_of(pieces[0]) {
            Some(p) => seq![p],
            None => seq![],
        };
        head + params_spec(pieces.skip(1))
    }
}

/// The token a logical line denotes; `None` when the line has no `:` or
/// an empty name.
pub open spec fn parse_logical_line_spec(line: Seq<char>) -> Option<LogicalLineView> {
    match first_index(line, ':') {
        None => None,
        Some(colon) => {
            let parts = split_on(line.take(colon), ';');
            if parts[0].len() == 0 {
                None
            } else {
                Some(
                    LogicalLineView {
                        name: unicode_uppercase(parts[0]),
                        params: params_spec(parts.skip(1)),
                        value: line.skip(colon + 1),
                    },
                )
            }
        },
    }
}

/// Every piece list `split_on` yields is non-empty.
pub proof fn lemma_split_on_nonempty(s: Seq<char>, sep: char, cur: Seq<char>)
    ensures
        split_on_acc(s, sep, cur).len() >= 1,
    decreases s.len(),
{
    if s.len() > 0 {
        if s[0] == sep {
            lemma_split_on_nonempty(s.skip(1), sep, seq![]);
        } else {
            lemma_split_on_nonempty(s.skip(1), sep, cur.push(s[0]));
        }
    }
}

/// The parameter denoted by one piece.
fn param_of_chars(piece: &Vec<char>) -> (r: Option<(String, String)>)
    ensures
        match r {
            Some(p) => param_of(piece@) == Some((p.0@, p.1@)),
            None => param_of(piece@) is None,
        },
{
    match find_char(piece, '=') {
        None => None,
        Some(e) => {
            let k = string_of_range(piece, 0, e);
            let key = to_uppercase(k.as_str());
            assert(piece@.subrange(0, e as int) =~= piece@.take(e as int));
            let v = trim_matches_range(piece, e + 1, piece.len(), '"');
            assert(piece@.subrange(e + 1, piece@.len() as int) =~= piece@.skip(e + 1));
            Some((key, v))
        },
    }
}

/// Tokenize one logical line held as characters.
pub fn parse_logical_line_chars(line: &Vec<char>) -> (r: Option<LogicalLine>)
    ensures
        match r {
            Some(ll) => parse_logical_line_spec(line@) == Some(ll@),
            None => parse_logical_line_spec(line@) is None,
        },
{
    let colon = match find_char(line, ':') {
        None => return None,
        Some(c) => c,
    };
    let mut prefix: Vec<char> = Vec::new();
    let mut i: usize = 0;
    while i < colon
        invariant
            colon < line.len(),
            i <= colon,
            prefix@ == line@.take(i as int),
        decreases colon - i,
    {
        prefix.push(line[i]);
        assert(line@.take(i as int).push(line@[i as int]) =~= line@.take(i + 1));
        i = i + 1;
    }
    let parts = split_chars(&prefix, ';');
    let ghost ps = parts.deep_view();
    proof {
        lemma_split_on_nonempty(prefix@, ';', seq![]);
    }
    assert(parts[0].deep_view() =~= parts[0]@);
    if parts[0].len() == 0 {
        return None;
    }
    let raw_name = string_of(&parts[0]);
    let name = to_uppercase(raw_name.as_str());
    let mut params: Vec<(String, String)> = Vec::new();
    let mut j: usize = 1;
    assert(params.deep_view() + params_spec(ps.skip(1)) =~= params_spec(ps.skip(1)));
    while j < parts.len()
        invariant
            1 <= j <= parts.len(),
            ps == parts.deep_view(),
            params_spec(ps.skip(1)) == params.deep_view() + params_spec(ps.skip(j as int)),
        decreases parts.len() - j,
    {
        let ghost rest = ps.skip(j as int);
        let ghost before = params.deep_view();
        assert(rest.skip(1) =~= ps.skip(j + 1));
        assert(parts[j as int].deep_view() =~= parts[j as int]@);
        assert(rest[0] == parts[j as int]@);
        match param_of_chars(&parts[j]) {
            Some(p) => {
                let ghost pv = (p.0@, p.1@);
                params.push(p);
                assert(params.deep_view() =~= before.push(pv));
                assert(before + (seq![pv] + params_spec(rest.skip(1))) =~= params.deep_view()
                    + params_spec(rest.skip(1)));
            },
            None => {
                assert(seq![] + params_spec(rest.skip(1)) =~= params_spec(rest.skip(1)));
            },
        }
        j = j + 1;
    }
    assert(ps.skip(j as int) =~= seq![]);
    assert(params.deep_view() + params_spec(ps.skip(j as int)) =~= params.deep_view());
    let value = string_of_range(line, colon + 1, line.len());
    assert(line@.subrange(colon + 1, line@.len() as int) =~= line@.skip(colon + 1));
    Some(LogicalLine { name, params, value })
}

/// Parse one logical line into a `LogicalLine`. Returns `None` when the
/// line is malformed (no colon, or no name).
pub fn parse_logical_line(line: &str) -> (r: Option<LogicalLine>)
    ensures
        match r {
            Some(ll) => parse_logical_line_spec(line@) == Some(ll@),
            None => parse_logical_line_spec(line@) is None,
        },
{
    let v = chars_of(line);
    parse_logical_line_chars(&v)
}

impl LogicalLine {
    /// Build a `RawProperty` with the given input position.
    pub fn to_raw_property(&self, source_index: u32) -> (r: RawProperty)
        ensures
            r@ == (RawPropertyView {
                name: self.name@,
                params: self.params.deep_view(),
                value: self.value@,
                source_index,
            }),
    {
        RawProperty {
            name: copy_string(&self.name),
            params: crate::raw::copy_params(&self.params),
            value: copy_string(&self.value),
            source_index,
        }
    }
}

/// Parse a property line into a `RawProperty` with the given input
/// position; `None` when the line is malformed.
pub fn parse_raw_property(line: &str, source_index: u32) -> (r: Option<RawProperty>)
    ensures
        match parse_logical_line_spec(line@) {
            Some(ll) => r is Some && r->0@ == (RawPropertyView {
                name: ll.name,
                params: ll.params,
                value: ll.value,
                source_index,
            }),
            None => r is None,
        },
{
    match parse_logical_line(line) {
        Some(ll) => Some(ll.to_raw_property(source_index)),
        None => None,
    }
}

} // verus!
