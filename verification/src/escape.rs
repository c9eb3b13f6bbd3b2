//! RFC 5545 §3.3.11 TEXT value escapes.
//!
//! | wire | meaning |
//! |---|---|
//! | `\\` | backslash |
//! | `\;` | semicolon |
//! | `\,` | comma |
//! | `\n` or `\N` | newline (LF) |
//!
//! Unknown escapes (`\X`) pass through with the backslash kept, and a
//! trailing lone backslash stays a backslash. Raw property values are never
//! decoded; only typed TEXT fields are.

use vstd::prelude::*;
use crate::text::{chars_of, string_of};

verus! {

/// Decoding of one TEXT value.
pub open spec fn decode_spec(s: Seq<char>) -> Seq<char>
    decreases s.len(),
{
    if s.len() == 0 {
        seq![]
    } else if s[0] == '\\' {
        if s.len() == 1 {
            seq!['\\']
        } else {
            let c = s[1];
            let head = if c == '\\' {
                seq!['\\']
            } else if c == ';' {
                seq![';']
            } else if c == ',' {
                seq![',']
            } else if c == 'n' || c == 'N' {
                seq!['\n']
            } else {
                seq!['\\', c]
            };
            head + decode_spec(s.skip(2))
        }
    } else {
        seq![s[0]] + decode_spec(s.skip(1))
    }
}

/// Wire form of one character.
pub open spec fn encode_char(c: char) -> Seq<char> {
    if c == '\\' {
        seq!['\\', '\\']
    } else if c == ';' {
        seq!['\\', ';']
    } else if c == ',' {
        seq!['\\', ',']
    } else if c == '\n' {
        seq!['\\', 'n']
    } else {
        seq![c]
    }
}

/// Encoding of one TEXT value: each character replaced by its wire form.
pub open spec fn encode_spec(s: Seq<char>) -> Seq<char>
    decreases s.len(),
{
    if s.len() == 0 {
        seq![]
    } else {
        encode_char(s[0]) + encode_spec(s.skip(1))
    }
}

/// Splitting of a multi-valued TEXT wire value: `cur` is the raw text of
/// the item being read; an escaped pair is copied verbatim, an unescaped
/// comma ends the item, and every finished item is decoded.
pub open spec fn split_acc(s: Seq<char>, cur: Seq<char>) -> Seq<Seq<char>>
    decreases s.len(),
{
    if s.len() == 0 {
        seq![decode_spec(cur)]
    } else if s[0] == '\\' {
        if s.len() >= 2 {
            split_acc(s.skip(2), cur + seq!['\\', s[1]])
        } else {
            split_acc(s.skip(1), cur.push('\\'))
        }
    } else if s[0] == ',' {
        seq![decode_spec(cur)] + split_acc(s.skip(1), seq![])
    } else {
        split_acc(s.skip(1), cur.push(s[0]))
    }
}

/// The items of a multi-valued TEXT wire value.
pub open spec fn split_spec(s: Seq<char>) -> Seq<Seq<char>> {
    split_acc(s, seq![])
}

/// `,` followed by each item's encoding, for every item.
pub open spec fn join_tail(items: Seq<Seq<char>>) -> Seq<char>
    decreases items.len(),
{
    if items.len() == 0 {
        seq![]
    } else {
        seq![','] + encode_spec(items[0]) + join_tail(items.skip(1))
    }
}

/// Items encoded one by one and joined with `,`.
pub open spec fn join_spec(items: Seq<Seq<char>>) -> Seq<char> {
    if items.len() == 0 {
        seq![]
    } else {
        encode_spec(items[0]) + join_tail(items.skip(1))
    }
}

/// Decode one TEXT value held as characters.
pub fn decode_chars(s: &Vec<char>) -> (r: Vec<char>)
    ensures
        r@ == decode_spec(s@),
{
    let mut out: Vec<char> = Vec::new();
    let mut i: usize = 0;
    assert(s@.skip(0) =~= s@);
    assert(out@ + decode_spec(s@) =~= decode_spec(s@));
    while i < s.len()
        invariant
            i <= s.len(),
            decode_spec(s@) == out@ + decode_spec(s@.skip(i as int)),
        decreases s.len() - i,
    {
        let ghost rest = s@.skip(i as int);
        let c = s[i];
        if c == '\\' {
            if i + 1 < s.len() {
                let n = s[i + 1];
                assert(rest[1] == n);
                assert(rest.skip(2) =~= s@.skip(i + 2));
                if n == '\\' {
                    out.push('\\');
                } else if n == ';' {
                    out.push(';');
                } else if n == ',' {
                    out.push(',');
                } else if n == 'n' || n == 'N' {
                    out.push('\n');
                } else {
                    out.push('\\');
                    out.push(n);
                }
                i = i + 2;
            } else {
                out.push('\\');
                i = i + 1;
                assert(s@.skip(i as int) =~= seq![]);
            }
        } else {
            out.push(c);
            assert(rest.skip(1) =~= s@.skip(i + 1));
            i = i + 1;
        }
        assert(decode_spec(s@) =~= out@ + decode_spec(s@.skip(i as int)));
    }
    assert(s@.skip(i as int) =~= seq![]);
    assert(out@ =~= out@ + decode_spec(s@.skip(i as int)));
    out
}

/// Decode a single TEXT value, interpreting the escape sequences above.
pub fn decode_text(s: &str) -> (r: String)
    ensures
        r@ == decode_spec(s@),
{
    let v = chars_of(s);
    let d = decode_chars(&v);
    string_of(&d)
}

/// Encode one TEXT value held as characters.
pub fn encode_chars(s: &Vec<char>) -> (r: Vec<char>)
    ensures
        r@ == encode_spec(s@),
{
    let mut out: Vec<char> = Vec::new();
    let mut i: usize = 0;
    assert(s@.skip(0) =~= s@);
    assert(out@ + encode_spec(s@) =~= encode_spec(s@));
    while i < s.len()
        invariant
            i <= s.len(),
            encode_spec(s@) == out@ + encode_spec(s@.skip(i as int)),
        decreases s.len() - i,
    {
        let c = s[i];
        let ghost rest = s@.skip(i as int);
        assert(rest.skip(1) =~= s@.skip(i + 1));
        if c == '\\' {
            out.push('\\');
            out.push('\\');
        } else if c == ';' {
            out.push('\\');
            out.push(';');
        } else if c == ',' {
            out.push('\\');
            out.push(',');
        } else if c == '\n' {
            out.push('\\');
            out.push('n');
        } else {
            out.push(c);
        }
        i = i + 1;
        assert(encode_spec(s@) =~= out@ + encode_spec(s@.skip(i as int)));
    }
    assert(s@.skip(i as int) =~= seq![]);
    assert(out@ =~= out@ + encode_spec(s@.skip(i as int)));
    out
}

/// Encode a string for the wire, escaping `\`, `;`, `,` and newline.
pub fn encode_text(s: &str) -> (r: String)
    ensures
        r@ == encode_spec(s@),
{
    let v = chars_of(s);
    let e = encode_chars(&v);
    string_of(&e)
}

/// Split a multi-valued TEXT wire value (held as characters) into decoded
/// items, respecting `\,` as a literal comma inside an item.
pub fn split_text_list_chars(s: &Vec<char>) -> (r: Vec<String>)
    ensures
        r.deep_view() == split_spec(s@),
{
    let mut items: Vec<String> = Vec::new();
    let mut cur: Vec<char> = Vec::new();
    let mut i: usize = 0;
    assert(s@.skip(0) =~= s@);
    assert(items.deep_view() + split_spec(s@) =~= split_spec(s@));
    while i < s.len()
        invariant
            i <= s.len(),
            split_spec(s@) == items.deep_view() + split_acc(s@.skip(i as int), cur@),
        decreases s.len() - i,
    {
        let ghost rest = s@.skip(i as int);
        let ghost old_items = items.deep_view();
        let ghost old_cur = cur@;
        let c = s[i];
        if c == '\\' {
            cur.push('\\');
            if i + 1 < s.len() {
                cur.push(s[i + 1]);
                assert(rest[1] == s@[i + 1]);
                assert(rest.skip(2) =~= s@.skip(i + 2));
                assert(cur@ =~= old_cur + seq!['\\', rest[1]]);
                i = i + 2;
            } else {
                assert(rest.skip(1) =~= s@.skip(i + 1));
                i = i + 1;
            }
        } else if c == ',' {
            let d = decode_chars(&cur);
            items.push(string_of(&d));
            assert(items.deep_view() =~= old_items.push(decode_spec(cur@)));
            cur = Vec::new();
            assert(rest.skip(1) =~= s@.skip(i + 1));
            assert(split_acc(rest, old_cur) == seq![decode_spec(old_cur)] + split_acc(rest.skip(1), seq![]));
            assert(old_items + (seq![decode_spec(old_cur)] + split_acc(rest.skip(1), seq![])) =~= old_items.push(decode_spec(old_cur)) + split_acc(rest.skip(1), seq![]));
            assert(cur@ =~= seq![]);
            i = i + 1;
        } else {
            cur.push(c);
            assert(rest.skip(1) =~= s@.skip(i + 1));
            i = i + 1;
        }
        assert(split_spec(s@) =~= items.deep_view() + split_acc(s@.skip(i as int), cur@));
    }
    let ghost old_items = items.deep_view();
    assert(s@.skip(i as int) =~= seq![]);
    let d = decode_chars(&cur);
    items.push(string_of(&d));
    assert(items.deep_view() =~= old_items.push(decode_spec(cur@)));
    assert(items.deep_view() =~= old_items + split_acc(s@.skip(i as int), cur@));
    items
}

/// Split a multi-valued TEXT wire value into individual decoded items.
pub fn split_text_list(s: &str) -> (r: Vec<String>)
    ensures
        r.deep_view() == split_spec(s@),
{
    let v = chars_of(s);
    split_text_list_chars(&v)
}

/// Encode an item list into a single TEXT value, comma-joined with each
/// item escaped.
pub fn join_text_list(items: &[String]) -> (r: String)
    ensures
        r@ == join_spec(items@.map_values(|x: String| x@)),
{
    let ghost its = items@.map_values(|x: String| x@);
    let mut out: Vec<char> = Vec::new();
    if items.len() == 0 {
        return string_of(&out);
    }
    let first = chars_of(items[0].as_str());
    let e0 = encode_chars(&first);
    let mut j: usize = 0;
    while j < e0.len()
        invariant
            j <= e0.len(),
            out@ == e0@.take(j as int),
        decreases e0.len() - j,
    {
        out.push(e0[j]);
        assert(e0@.take(j as int).push(e0@[j as int]) =~= e0@.take(j + 1));
        j = j + 1;
    }
    assert(e0@.take(e0.len() as int) =~= e0@);
    let mut i: usize = 1;
    while i < items.len()
        invariant
            1 <= i <= items.len(),
            its == items@.map_values(|x: String| x@),
            join_spec(its) == out@ + join_tail(its.skip(i as int)),
        decreases items.len() - i,
    {
        let ghost rest = its.skip(i as int);
        let ghost before = out@;
        out.push(',');
        let item = chars_of(items[i].as_str());
        let e = encode_chars(&item);
        let mut k: usize = 0;
        while k < e.len()
            invariant
                k <= e.len(),
                out@ == before.push(',') + e@.take(k as int),
            decreases e.len() - k,
        {
            out.push(e[k]);
            assert(before.push(',') + e@.take(k as int).push(e@[k as int]) =~= before.push(',')
                + e@.take(k + 1));
            k = k + 1;
        }
        assert(e@.take(e.len() as int) =~= e@);
        assert(rest[0] == items@[i as int]@);
        assert(rest.skip(1) =~= its.skip(i + 1));
        i = i + 1;
        assert(join_spec(its) =~= out@ + join_tail(its.skip(i as int)));
    }
    assert(its.skip(i as int) =~= seq![]);
    assert(out@ =~= out@ + join_tail(its.skip(i as int)));
    string_of(&out)
}

// ---------------------------------------------------------------------
// Laws
// ---------------------------------------------------------------------

/// Decoding an encoded value gives the value back: for every string `s`,
/// `decode_text(encode_text(s)) == s`.
pub proof fn lemma_decode_encode(s: Seq<char>)
    ensures
        decode_spec(encode_spec(s)) == s,
    decreases s.len(),
{
    if s.len() > 0 {
        lemma_decode_encode(s.skip(1));
        let e = encode_char(s[0]);
        let rest = encode_spec(s.skip(1));
        let t = e + rest;
        assert(encode_spec(s) == t);
        if e.len() == 2 {
            assert(t[0] == '\\');
            assert(t[1] == e[1]);
            assert(t.skip(2) =~= rest);
        } else {
            assert(t[0] == s[0]);
            assert(t.skip(1) =~= rest);
        }
        assert(decode_spec(t) =~= s);
    }
}

/// Reading an encoded item through the list splitter copies it verbatim
/// into the item under construction.
proof fn lemma_split_acc_encoded(x: Seq<char>, t: Seq<char>, cur: Seq<char>)
    ensures
        split_acc(encode_spec(x) + t, cur) == split_acc(t, cur + encode_spec(x)),
    decreases x.len(),
{
    if x.len() == 0 {
        assert(encode_spec(x) + t =~= t);
        assert(cur + encode_spec(x) =~= cur);
    } else {
        let e = encode_char(x[0]);
        let rest = encode_spec(x.skip(1));
        let whole = encode_spec(x) + t;
        assert(encode_spec(x) == e + rest);
        assert(whole =~= e + (rest + t));
        lemma_split_acc_encoded(x.skip(1), t, cur + e);
        if e.len() == 2 {
            assert(whole[0] == '\\');
            assert(whole[1] == e[1]);
            assert(whole.skip(2) =~= rest + t);
            assert(cur + seq!['\\', e[1]] =~= cur + e);
        } else {
            assert(whole[0] == x[0]);
            assert(whole.skip(1) =~= rest + t);
            assert(cur.push(x[0]) =~= cur + e);
        }
        assert(cur + e + rest =~= cur + encode_spec(x));
    }
}

proof fn lemma_split_join_tail(items: Seq<Seq<char>>, cur: Seq<char>)
    ensures
        split_acc(join_tail(items), cur) == seq![decode_spec(cur)] + items,
    decreases items.len(),
{
    if items.len() == 0 {
        assert(seq![decode_spec(cur)] + items =~= seq![decode_spec(cur)]);
    } else {
        let jt = join_tail(items);
        let e = encode_spec(items[0]);
        let rest = join_tail(items.skip(1));
        assert(jt =~= seq![','] + (e + rest));
        assert(jt[0] == ',');
        assert(jt.skip(1) =~= e + rest);
        lemma_split_acc_encoded(items[0], rest, seq![]);
        assert(seq![] + e =~= e);
        lemma_split_join_tail(items.skip(1), e);
        lemma_decode_encode(items[0]);
        assert(seq![decode_spec(cur)] + (seq![items[0]] + items.skip(1)) =~= seq![decode_spec(cur)]
            + items);
    }
}

/// Splitting a joined list gives the items back: for every non-empty list
/// of items, `split_text_list(join_text_list(items)) == items`.
pub proof fn lemma_split_join(items: Seq<Seq<char>>)
    requires
        items.len() > 0,
    ensures
        split_spec(join_spec(items)) == items,
{
    let e = encode_spec(items[0]);
    let rest = join_tail(items.skip(1));
    lemma_split_acc_encoded(items[0], rest, seq![]);
    assert(seq![] + e =~= e);
    lemma_split_join_tail(items.skip(1), e);
    lemma_decode_encode(items[0]);
    assert(seq![items[0]] + items.skip(1) =~= items);
}

} // verus!
