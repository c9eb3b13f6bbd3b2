//! What the reader gives back of what the writer wrote.
//!
//! A property line written by the calendar formatter is tokenized by the
//! line parser into the same name, parameters and value (names and
//! parameter keys upper-cased, as the parser always does), as long as
//! the name, keys and values hold none of the line's separators. A
//! component the typed model does not understand (`VTIMEZONE`, `VALARM`)
//! is written as lines that the parser reads back into the same
//! component, its properties numbered in the order written.

use vstd::prelude::*;
use crate::calendar::{params_text, raw_property_text};
use crate::line::{param_of, params_spec, parse_logical_line_spec, LogicalLineView};
use crate::parser::{eq_ignore_ascii_case_spec, raw_block, wrap_inc};
use crate::raw::{RawComponentView, RawPropertyView};
use crate::text::{
    first_index, is_first_index, leading_count, lemma_first_index_unique, split_on, split_on_acc,
    starts_with, trailing_count, trim_matches_spec, unicode_uppercase,
};

verus! {

/// Does `s` avoid the character `c`?
pub open spec fn avoids(s: Seq<char>, c: char) -> bool {
    forall|i: int| 0 <= i < s.len() ==> s[i] != c
}

/// Can the parameter be written as `KEY=value` and read back? The key
/// holds no `:`, `;` or `=`, the value no `:` or `;` and neither starts
/// nor ends with `"`.
pub open spec fn param_writable(p: (Seq<char>, Seq<char>)) -> bool {
    &&& avoids(p.0, ':')
    &&& avoids(p.0, ';')
    &&& avoids(p.0, '=')
    &&& avoids(p.1, ':')
    &&& avoids(p.1, ';')
    &&& (p.1.len() > 0 ==> p.1[0] != '"' && p.1.last() != '"')
}

/// Can the property be written as one line and read back? Its name is
/// non-empty and holds no `:` or `;`, and every parameter is writable.
pub open spec fn property_writable(p: RawPropertyView) -> bool {
    &&& p.name.len() > 0
    &&& avoids(p.name, ':')
    &&& avoids(p.name, ';')
    &&& forall|i: int| 0 <= i < p.params.len() ==> #[trigger] param_writable(p.params[i])
}

/// The parameters as the parser reports them: keys upper-cased.
pub open spec fn upper_keys(ps: Seq<(Seq<char>, Seq<char>)>) -> Seq<(Seq<char>, Seq<char>)> {
    ps.map_values(|p: (Seq<char>, Seq<char>)| (unicode_uppercase(p.0), p.1))
}

/// `KEY=value`.
pub open spec fn piece(p: (Seq<char>, Seq<char>)) -> Seq<char> {
    p.0 + seq!['='] + p.1
}

/// The `KEY=value` pieces of a parameter list.
pub open spec fn pieces(ps: Seq<(Seq<char>, Seq<char>)>) -> Seq<Seq<char>> {
    ps.map_values(|p: (Seq<char>, Seq<char>)| piece(p))
}

/// Splitting runs over a stretch without the separator by extending the
/// piece under construction.
pub proof fn lemma_split_over(x: Seq<char>, rest: Seq<char>, sep: char, cur: Seq<char>)
    requires
        avoids(x, sep),
    ensures
        split_on_acc(x + rest, sep, cur) == split_on_acc(rest, sep, cur + x),
    decreases x.len(),
{
    if x.len() == 0 {
        assert(x + rest =~= rest);
        assert(cur + x =~= cur);
    } else {
        let s = x + rest;
        assert(s[0] == x[0]);
        assert(s.skip(1) =~= x.skip(1) + rest);
        lemma_split_over(x.skip(1), rest, sep, cur.push(x[0]));
        assert(cur.push(x[0]) + x.skip(1) =~= cur + x);
    }
}

/// The written parameters split at `;` into their pieces.
proof fn lemma_split_params(ps: Seq<(Seq<char>, Seq<char>)>, cur: Seq<char>)
    requires
        forall|i: int| 0 <= i < ps.len() ==> #[trigger] param_writable(ps[i]),
    ensures
        split_on_acc(params_text(ps), ';', cur) == seq![cur] + pieces(ps),
    decreases ps.len(),
{
    if ps.len() == 0 {
        assert(pieces(ps) =~= seq![]);
    } else {
        let p0 = ps[0];
        assert(param_writable(p0));
        let t = params_text(ps);
        let rest = params_text(ps.skip(1));
        assert(t == seq![';'] + p0.0 + seq!['='] + p0.1 + rest);
        assert(t[0] == ';');
        assert(t.skip(1) =~= piece(p0) + rest);
        assert(avoids(piece(p0), ';')) by {
            assert forall|i: int| 0 <= i < piece(p0).len() implies piece(p0)[i] != ';' by {
                if i < p0.0.len() {
                    assert(piece(p0)[i] == p0.0[i]);
                } else if i > p0.0.len() {
                    assert(piece(p0)[i] == p0.1[i - p0.0.len() - 1]);
                }
            }
        }
        lemma_split_over(piece(p0), rest, ';', seq![]);
        assert(seq![] + piece(p0) =~= piece(p0));
        assert forall|i: int| 0 <= i < ps.skip(1).len() implies #[trigger] param_writable(
            ps.skip(1)[i],
        ) by {
            assert(ps.skip(1)[i] == ps[i + 1]);
        }
        lemma_split_params(ps.skip(1), piece(p0));
        assert(pieces(ps) =~= seq![piece(p0)] + pieces(ps.skip(1)));
        assert(seq![cur] + (seq![piece(p0)] + pieces(ps.skip(1))) =~= seq![cur] + pieces(ps));
    }
}

/// The written parameters hold no `:`.
proof fn lemma_params_avoid_colon(ps: Seq<(Seq<char>, Seq<char>)>)
    requires
        forall|i: int| 0 <= i < ps.len() ==> #[trigger] param_writable(ps[i]),
    ensures
        avoids(params_text(ps), ':'),
    decreases ps.len(),
{
    if ps.len() > 0 {
        let p0 = ps[0];
        assert(param_writable(p0));
        assert forall|i: int| 0 <= i < ps.skip(1).len() implies #[trigger] param_writable(
            ps.skip(1)[i],
        ) by {
            assert(ps.skip(1)[i] == ps[i + 1]);
        }
        lemma_params_avoid_colon(ps.skip(1));
        let rest = params_text(ps.skip(1));
        let t = params_text(ps);
        assert(t == seq![';'] + p0.0 + seq!['='] + p0.1 + rest);
        assert forall|i: int| 0 <= i < t.len() implies t[i] != ':' by {
            let a = 1 + p0.0.len();
            let b = a + 1 + p0.1.len();
            if i == 0 {
            } else if i < a {
                assert(t[i] == p0.0[i - 1]);
            } else if i == a {
            } else if i < b {
                assert(t[i] == p0.1[i - a - 1]);
            } else {
                assert(t[i] == rest[i - b]);
            }
        }
    }
}

/// A written `KEY=value` piece reads back as the parameter, key
/// upper-cased.
proof fn lemma_param_of_piece(p: (Seq<char>, Seq<char>))
    requires
        param_writable(p),
    ensures
        param_of(piece(p)) == Some((unicode_uppercase(p.0), p.1)),
{
    let s = piece(p);
    let k = p.0.len() as int;
    assert(s[k] == '=');
    assert forall|j: int| 0 <= j < k implies s[j] != '=' by {
        assert(s[j] == p.0[j]);
    }
    assert(is_first_index(s, '=', k));
    lemma_first_index_unique(s, '=', k);
    assert(s.take(k) =~= p.0);
    assert(s.skip(k + 1) =~= p.1);
    assert(leading_count(p.1, '"') == 0);
    assert(trailing_count(p.1, '"') == 0);
    assert(p.1.skip(0) =~= p.1);
    assert(p.1.take(p.1.len() as int) =~= p.1);
    assert(trim_matches_spec(p.1, '"') == p.1);
}

/// The pieces read back as the parameters, keys upper-cased.
proof fn lemma_params_of_pieces(ps: Seq<(Seq<char>, Seq<char>)>)
    requires
        forall|i: int| 0 <= i < ps.len() ==> #[trigger] param_writable(ps[i]),
    ensures
        params_spec(pieces(ps)) == upper_keys(ps),
    decreases ps.len(),
{
    if ps.len() == 0 {
        assert(pieces(ps) =~= seq![]);
        assert(upper_keys(ps) =~= seq![]);
    } else {
        let p0 = ps[0];
        assert(param_writable(p0));
        lemma_param_of_piece(p0);
        assert forall|i: int| 0 <= i < ps.skip(1).len() implies #[trigger] param_writable(
            ps.skip(1)[i],
        ) by {
            assert(ps.skip(1)[i] == ps[i + 1]);
        }
        lemma_params_of_pieces(ps.skip(1));
        assert(pieces(ps)[0] == piece(p0));
        assert(pieces(ps).skip(1) =~= pieces(ps.skip(1)));
        assert(upper_keys(ps) =~= seq![(unicode_uppercase(p0.0), p0.1)] + upper_keys(ps.skip(1)));
    }
}

/// A property line the formatter writes is read back by the line
/// parser: the name and parameter keys come back upper-cased (as the
/// parser reports every name), the parameter values and the value
/// unchanged, when the name, keys and values hold no separator.
pub proof fn lemma_property_line_round_trip(p: RawPropertyView)
    requires
        property_writable(p),
    ensures
        parse_logical_line_spec(raw_property_text(p)) == Some(
            LogicalLineView {
                name: unicode_uppercase(p.name),
                params: upper_keys(p.params),
                value: p.value,
            },
        ),
{
    let head = p.name + params_text(p.params);
    let t = raw_property_text(p);
    assert(t == head + seq![':'] + p.value);
    lemma_params_avoid_colon(p.params);
    let c = head.len() as int;
    assert forall|j: int| 0 <= j < c implies t[j] != ':' by {
        assert(t[j] == head[j]);
        if j < p.name.len() {
            assert(head[j] == p.name[j]);
        } else {
            assert(head[j] == params_text(p.params)[j - p.name.len()]);
        }
    }
    assert(t[c] == ':');
    assert(is_first_index(t, ':', c));
    lemma_first_index_unique(t, ':', c);
    assert(t.take(c) =~= head);
    assert(t.skip(c + 1) =~= p.value);
    lemma_split_over(p.name, params_text(p.params), ';', seq![]);
    assert(seq![] + p.name =~= p.name);
    lemma_split_params(p.params, p.name);
    let parts = split_on(head, ';');
    assert(parts == seq![p.name] + pieces(p.params));
    assert(parts[0] == p.name);
    assert(parts.skip(1) =~= pieces(p.params));
    lemma_params_of_pieces(p.params);
}

// ---------------------------------------------------------------------
// Components kept verbatim
// ---------------------------------------------------------------------

/// The property lines of `ps`, in order.
pub open spec fn prop_lines(ps: Seq<RawPropertyView>) -> Seq<Seq<char>> {
    ps.map_values(|p: RawPropertyView| raw_property_text(p))
}

/// The lines the formatter writes for a component: `BEGIN:NAME`, its
/// properties, its nested components, `END:NAME` (the lines of
/// `component_text`, without their CRLF).
pub open spec fn component_lines(c: RawComponentView) -> Seq<Seq<char>>
    decreases c, 1int,
{
    seq!["BEGIN:"@ + c.name] + prop_lines(c.properties) + components_lines(c.sub_components) + seq![
        "END:"@ + c.name,
    ]
}

/// The lines of a sequence of components.
pub open spec fn components_lines(cs: Seq<RawComponentView>) -> Seq<Seq<char>>
    decreases cs, 0int,
{
    if cs.len() == 0 {
        seq![]
    } else {
        component_lines(cs[0]) + components_lines(cs.skip(1))
    }
}

/// Can a property of a component be written and read back? It is
/// writable, and its line is not taken for a `BEGIN:` or `END:` line.
pub open spec fn component_property_writable(p: RawPropertyView) -> bool {
    &&& property_writable(p)
    &&& !starts_with(raw_property_text(p), "END:"@)
    &&& !starts_with(raw_property_text(p), "BEGIN:"@)
}

/// Can the component be written and read back? Its name is one that
/// upper-casing leaves as it is, its properties can be written and
/// numbered, and so can its nested components.
pub open spec fn component_writable(c: RawComponentView) -> bool
    decreases c, 1int,
{
    &&& unicode_uppercase(c.name) == c.name
    &&& c.properties.len() < u32::MAX
    &&& forall|i: int| 0 <= i < c.properties.len() ==> #[trigger] component_property_writable(c.properties[i])
    &&& components_writable(c.sub_components)
}

/// Can every component be written and read back?
pub open spec fn components_writable(cs: Seq<RawComponentView>) -> bool
    decreases cs, 0int,
{
    if cs.len() == 0 {
        true
    } else {
        component_writable(cs[0]) && components_writable(cs.skip(1))
    }
}

/// The properties as read back, numbered from `start + 1` in order.
pub open spec fn numbered(ps: Seq<RawPropertyView>, start: nat) -> Seq<RawPropertyView> {
    Seq::new(
        ps.len(),
        |i: int|
            RawPropertyView {
                name: unicode_uppercase(ps[i].name),
                params: upper_keys(ps[i].params),
                value: ps[i].value,
                source_index: (start + i + 1) as u32,
            },
    )
}

/// The component as the parser reads it back: the properties tokenized
/// and numbered in the order written, the nested components read back
/// likewise.
pub open spec fn read_back(c: RawComponentView) -> RawComponentView
    decreases c, 1int,
{
    RawComponentView {
        name: c.name,
        properties: numbered(c.properties, 0),
        sub_components: read_back_all(c.sub_components),
    }
}

/// Every component read back.
pub open spec fn read_back_all(cs: Seq<RawComponentView>) -> Seq<RawComponentView>
    decreases cs, 0int,
{
    if cs.len() == 0 {
        seq![]
    } else {
        seq![read_back(cs[0])] + read_back_all(cs.skip(1))
    }
}

proof fn lemma_component_lines_len(c: RawComponentView)
    ensures
        component_lines(c).len() == prop_lines(c.properties).len() + components_lines(
            c.sub_components,
        ).len() + 2,
{
}

/// The body of a block — properties `ps`, nested components `cs`, then
/// `END:name` — read from `idx` on, with `props` and `subs` found before
/// it, gives the component with the read-back properties and components
/// appended, and the index after the `END:` line.
proof fn lemma_read_body(
    lines: Seq<Seq<char>>,
    idx: int,
    name: Seq<char>,
    props: Seq<RawPropertyView>,
    subs: Seq<RawComponentView>,
    ps: Seq<RawPropertyView>,
    cs: Seq<RawComponentView>,
)
    requires
        0 <= idx,
        idx + prop_lines(ps).len() + components_lines(cs).len() + 1 <= lines.len(),
        lines.subrange(idx, idx + prop_lines(ps).len() + components_lines(cs).len() + 1)
            == prop_lines(ps) + components_lines(cs) + seq!["END:"@ + name],
        props.len() + ps.len() < u32::MAX,
        forall|i: int| 0 <= i < ps.len() ==> #[trigger] component_property_writable(ps[i]),
        components_writable(cs),
    ensures
        raw_block(lines, idx, name, props, subs, props.len() as u32) == (
            RawComponentView {
                name,
                properties: props + numbered(ps, props.len()),
                sub_components: subs + read_back_all(cs),
            },
            idx + prop_lines(ps).len() + components_lines(cs).len() + 1,
        ),
    decreases prop_lines(ps).len() + components_lines(cs).len(),
{
    reveal_strlit("BEGIN:");
    reveal_strlit("END:");
    let body = prop_lines(ps) + components_lines(cs) + seq!["END:"@ + name];
    let n = prop_lines(ps).len() + components_lines(cs).len();
    assert(lines[idx] == body[0]);
    if ps.len() > 0 {
        let p0 = ps[0];
        assert(component_property_writable(p0));
        assert(body[0] == raw_property_text(p0));
        lemma_property_line_round_trip(p0);
        let np = RawPropertyView {
            name: unicode_uppercase(p0.name),
            params: upper_keys(p0.params),
            value: p0.value,
            source_index: wrap_inc(props.len() as u32),
        };
        assert(wrap_inc(props.len() as u32) == (props.len() + 1) as u32);
        let rest = ps.skip(1);
        assert(prop_lines(ps) =~= seq![raw_property_text(p0)] + prop_lines(rest));
        assert forall|i: int| 0 <= i < rest.len() implies #[trigger] component_property_writable(
            rest[i],
        ) by {
            assert(rest[i] == ps[i + 1]);
        }
        assert(lines.subrange(idx + 1, idx + 1 + prop_lines(rest).len() + components_lines(cs).len()
            + 1) =~= prop_lines(rest) + components_lines(cs) + seq!["END:"@ + name]) by {
            assert forall|k: int|
                0 <= k < prop_lines(rest).len() + components_lines(cs).len() + 1 implies lines.subrange(
                idx + 1,
                idx + 1 + prop_lines(rest).len() + components_lines(cs).len() + 1,
            )[k] == (prop_lines(rest) + components_lines(cs) + seq!["END:"@ + name])[k] by {
                assert(lines.subrange(idx, idx + n + 1)[k + 1] == body[k + 1]);
            }
        }
        lemma_read_body(lines, idx + 1, name, props.push(np), subs, rest, cs);
        assert(props.push(np).len() == props.len() + 1);
        assert(props.push(np) + numbered(rest, props.len() + 1) =~= props + numbered(ps, props.len()));
    } else if cs.len() > 0 {
        let c0 = cs[0];
        let others = cs.skip(1);
        assert(component_writable(c0) && components_writable(others));
        assert(prop_lines(ps) =~= seq![]);
        assert(components_lines(cs) == component_lines(c0) + components_lines(others));
        lemma_component_lines_len(c0);
        let cl = component_lines(c0);
        let m = cl.len();
        assert(body[0] == cl[0]);
        assert(cl[0] == "BEGIN:"@ + c0.name);
        let line = lines[idx];
        assert(line.take(6) =~= "BEGIN:"@);
        assert(starts_with(line, "BEGIN:"@));
        assert(!starts_with(line, "END:"@)) by {
            assert(line[0] == 'B');
            assert("END:"@[0] == 'E');
            if starts_with(line, "END:"@) {
                assert(line.take(4)[0] == line[0]);
            }
        }
        assert(line.skip(6) =~= c0.name);
        // The nested block's body lies between its BEGIN and END lines.
        let inner_n = prop_lines(c0.properties).len() + components_lines(c0.sub_components).len();
        assert(lines.subrange(idx + 1, idx + 1 + inner_n + 1) =~= prop_lines(c0.properties)
            + components_lines(c0.sub_components) + seq!["END:"@ + c0.name]) by {
            assert forall|k: int| 0 <= k < inner_n + 1 implies lines.subrange(
                idx + 1,
                idx + 1 + inner_n + 1,
            )[k] == (prop_lines(c0.properties) + components_lines(c0.sub_components) + seq![
                "END:"@ + c0.name,
            ])[k] by {
                assert(lines.subrange(idx, idx + n + 1)[k + 1] == body[k + 1]);
                assert(body[k + 1] == cl[k + 1]);
            }
        }
        assert forall|i: int| 0 <= i < c0.properties.len() implies #[trigger] component_property_writable(
            c0.properties[i],
        ) by {}
        lemma_read_body(
            lines,
            idx + 1,
            c0.name,
            seq![],
            seq![],
            c0.properties,
            c0.sub_components,
        );
        assert(seq![] + numbered(c0.properties, 0) =~= numbered(c0.properties, 0));
        assert(seq![] + read_back_all(c0.sub_components) =~= read_back_all(c0.sub_components));
        let next = idx + m;
        assert(lines.subrange(next, next + prop_lines(ps).len() + components_lines(others).len() + 1)
            =~= prop_lines(ps) + components_lines(others) + seq!["END:"@ + name]) by {
            assert forall|k: int|
                0 <= k < components_lines(others).len() + 1 implies lines.subrange(
                next,
                next + prop_lines(ps).len() + components_lines(others).len() + 1,
            )[k] == (prop_lines(ps) + components_lines(others) + seq!["END:"@ + name])[k] by {
                assert(lines.subrange(idx, idx + n + 1)[k + m] == body[k + m]);
            }
        }
        lemma_read_body(lines, next, name, props, subs.push(read_back(c0)), ps, others);
        assert(subs.push(read_back(c0)) + read_back_all(others) =~= subs + read_back_all(cs));
        assert(props + numbered(ps, props.len()) =~= props);
    } else {
        assert(prop_lines(ps) =~= seq![]);
        assert(components_lines(cs) =~= seq![]);
        let line = lines[idx];
        assert(line == "END:"@ + name);
        assert(line.take(4) =~= "END:"@);
        assert(line.skip(4) =~= name);
        assert(eq_ignore_ascii_case_spec(name, name));
        assert(props + numbered(ps, props.len()) =~= props);
        assert(subs + read_back_all(cs) =~= subs);
    }
}

/// A component kept verbatim is read back as written: where its lines
/// stand at `i`, the parser's block reader, started after the `BEGIN:`
/// line, gives the same name, the properties tokenized and numbered in
/// the order written, the nested components read back likewise, and
/// stops just after the matching `END:` line.
pub proof fn lemma_component_round_trip(lines: Seq<Seq<char>>, i: int, c: RawComponentView)
    requires
        component_writable(c),
        0 <= i,
        i + component_lines(c).len() <= lines.len(),
        lines.subrange(i, i + component_lines(c).len()) == component_lines(c),
    ensures
        raw_block(lines, i + 1, c.name, seq![], seq![], 0) == (read_back(c), i + component_lines(
            c,
        ).len()),
{
    let cl = component_lines(c);
    lemma_component_lines_len(c);
    let inner_n = prop_lines(c.properties).len() + components_lines(c.sub_components).len();
    assert(lines.subrange(i + 1, i + 1 + inner_n + 1) =~= prop_lines(c.properties)
        + components_lines(c.sub_components) + seq!["END:"@ + c.name]) by {
        assert forall|k: int| 0 <= k < inner_n + 1 implies lines.subrange(i + 1, i + 1 + inner_n + 1)[k]
            == (prop_lines(c.properties) + components_lines(c.sub_components) + seq![
            "END:"@ + c.name,
        ])[k] by {
            assert(lines.subrange(i, i + cl.len())[k + 1] == cl[k + 1]);
        }
    }
    assert forall|j: int| 0 <= j < c.properties.len() implies #[trigger] component_property_writable(
        c.properties[j],
    ) by {}
    lemma_read_body(lines, i + 1, c.name, seq![], seq![], c.properties, c.sub_components);
    assert(seq![] + numbered(c.properties, 0) =~= numbered(c.properties, 0));
    assert(seq![] + read_back_all(c.sub_components) =~= read_back_all(c.sub_components));
}

} // verus!
