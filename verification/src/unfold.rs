//! RFC 5545 §3.1 content line unfolding.
//!
//! Physical lines are terminated by CRLF or LF. A physical line starting
//! with SPACE or HTAB continues the previous logical line; the folding
//! marker itself is dropped. A leading UTF-8 BOM (U+FEFF) is tolerated.

use vstd::prelude::*;
use crate::text::{chars_of, split_chars, split_on, string_of};

verus! {

/// `content` without a leading U+FEFF.
pub open spec fn strip_bom_spec(s: Seq<char>) -> Seq<char> {
    if s.len() > 0 && s[0] == '\u{feff}' {
        s.skip(1)
    } else {
        s
    }
}

/// Every CRLF pair replaced by LF, scanning left to right.
pub open spec fn crlf_to_lf(s: Seq<char>) -> Seq<char>
    decreases s.len(),
{
    if s.len() == 0 {
        seq![]
    } else if s.len() >= 2 && s[0] == '\r' && s[1] == '\n' {
        seq!['\n'] + crlf_to_lf(s.skip(2))
    } else {
        seq![s[0]] + crlf_to_lf(s.skip(1))
    }
}

/// Does `s` hold CR CR LF somewhere?
pub open spec fn has_cr_cr_lf(s: Seq<char>) -> bool {
    exists|i: int|
        #![trigger s[i]]
        0 <= i && i + 2 < s.len() && s[i] == '\r' && s[i + 1] == '\r' && s[i + 2] == '\n'
}

proof fn lemma_no_cr_cr_lf_skip(s: Seq<char>, k: int)
    requires
        !has_cr_cr_lf(s),
        0 <= k <= s.len(),
    ensures
        !has_cr_cr_lf(s.skip(k)),
{
    let t = s.skip(k);
    if has_cr_cr_lf(t) {
        let i = choose|i: int|
            #![trigger t[i]]
            0 <= i && i + 2 < t.len() && t[i] == '\r' && t[i + 1] == '\r' && t[i + 2] == '\n';
        assert(s[k + i] == '\r' && s[k + i + 1] == '\r' && s[k + i + 2] == '\n');
    }
}

proof fn lemma_crlf_to_lf_cons(a: char, x: Seq<char>)
    requires
        a != '\r' || x.len() == 0 || x[0] != '\n',
    ensures
        crlf_to_lf(seq![a] + x) == seq![a] + crlf_to_lf(x),
{
    assert((seq![a] + x).skip(1) =~= x);
}

/// Replacing CRLF by LF a second time changes nothing, unless CR CR LF
/// occurs (the first pass turns it into CRLF).
pub proof fn lemma_crlf_to_lf_idempotent(s: Seq<char>)
    requires
        !has_cr_cr_lf(s),
    ensures
        crlf_to_lf(crlf_to_lf(s)) == crlf_to_lf(s),
    decreases s.len(),
{
    if s.len() == 0 {
    } else if s.len() >= 2 && s[0] == '\r' && s[1] == '\n' {
        let t = s.skip(2);
        lemma_no_cr_cr_lf_skip(s, 2);
        lemma_crlf_to_lf_idempotent(t);
        lemma_crlf_to_lf_cons('\n', crlf_to_lf(t));
    } else {
        let t = s.skip(1);
        lemma_no_cr_cr_lf_skip(s, 1);
        lemma_crlf_to_lf_idempotent(t);
        if s[0] == '\r' && t.len() > 0 {
            if t.len() >= 2 && t[0] == '\r' && t[1] == '\n' {
                assert(s[0] == '\r' && s[1] == '\r' && s[2] == '\n');
            } else {
                assert(crlf_to_lf(t) == seq![t[0]] + crlf_to_lf(t.skip(1)));
            }
        }
        lemma_crlf_to_lf_cons(s[0], crlf_to_lf(t));
    }
}

/// Stripping the mark before or after the replacement gives the same.
pub proof fn lemma_strip_bom_crlf_to_lf(s: Seq<char>)
    ensures
        strip_bom_spec(crlf_to_lf(s)) == crlf_to_lf(strip_bom_spec(s)),
{
    if s.len() > 0 && s[0] == '\u{feff}' {
        let rest = crlf_to_lf(s.skip(1));
        assert(crlf_to_lf(s) == seq![s[0]] + rest);
        assert((seq![s[0]] + rest).skip(1) =~= rest);
    } else if s.len() >= 2 && s[0] == '\r' && s[1] == '\n' {
        assert(crlf_to_lf(s) == seq!['\n'] + crlf_to_lf(s.skip(2)));
    } else if s.len() > 0 {
        assert(crlf_to_lf(s) == seq![s[0]] + crlf_to_lf(s.skip(1)));
    }
}

/// A physical line that continues the previous logical line.
pub open spec fn is_continuation(l: Seq<char>) -> bool {
    l.len() > 0 && (l[0] == ' ' || l[0] == '\t')
}

/// Logical lines from physical `lines`, given the finished logical lines
/// `done` and the one under construction `cur`.
pub open spec fn fold_lines(
    lines: Seq<Seq<char>>,
    done: Seq<Seq<char>>,
    cur: Option<Seq<char>>,
) -> Seq<Seq<char>>
    decreases lines.len(),
{
    if lines.len() == 0 {
        match cur {
            Some(c) => done.push(c),
            None => done,
        }
    } else {
        let l = lines[0];
        if is_continuation(l) {
            let rest = l.skip(1);
            let next = match cur {
                Some(c) => c + rest,
                None => rest,
            };
            fold_lines(lines.skip(1), done, Some(next))
        } else {
            let done2 = match cur {
                Some(c) => done.push(c),
                None => done,
            };
            fold_lines(lines.skip(1), done2, Some(l))
        }
    }
}

/// `ls` without its trailing empty entries.
pub open spec fn drop_trailing_empty(ls: Seq<Seq<char>>) -> Seq<Seq<char>>
    decreases ls.len(),
{
    if ls.len() > 0 && ls.last().len() == 0 {
        drop_trailing_empty(ls.drop_last())
    } else {
        ls
    }
}

/// The logical lines of a document.
pub open spec fn unfold_spec(s: Seq<char>) -> Seq<Seq<char>> {
    drop_trailing_empty(
        fold_lines(split_on(crlf_to_lf(strip_bom_spec(s)), '\n'), seq![], None),
    )
}

/// A leading U+FEFF does not change the logical lines.
pub proof fn lemma_unfold_ignores_bom(s: Seq<char>)
    requires
        !(s.len() > 0 && s[0] == '\u{feff}'),
    ensures
        unfold_spec(seq!['\u{feff}'] + s) == unfold_spec(s),
{
    assert((seq!['\u{feff}'] + s).skip(1) =~= s);
}

/// Lines ended by CRLF unfold as the same lines ended by LF, unless
/// CR CR LF occurs.
pub proof fn lemma_unfold_crlf_as_lf(s: Seq<char>)
    requires
        !has_cr_cr_lf(s),
    ensures
        unfold_spec(crlf_to_lf(s)) == unfold_spec(s),
{
    lemma_strip_bom_crlf_to_lf(s);
    let t = strip_bom_spec(s);
    if s.len() > 0 && s[0] == '\u{feff}' {
        lemma_no_cr_cr_lf_skip(s, 1);
    }
    lemma_crlf_to_lf_idempotent(t);
}

/// The characters held by an optional buffer.
pub open spec fn opt_chars(o: Option<Vec<char>>) -> Option<Seq<char>> {
    match o {
        Some(c) => Some(c@),
        None => None,
    }
}

/// Strip a leading UTF-8 BOM if present.
pub fn strip_bom(content: &str) -> (r: String)
    ensures
        r@ == strip_bom_spec(content@),
{
    let v = chars_of(content);
    if v.len() > 0 && v[0] == '\u{feff}' {
        crate::text::string_of_range(&v, 1, v.len())
    } else {
        proof {
            assert(v@.subrange(0, v@.len() as int) =~= v@);
        }
        string_of(&v)
    }
}

fn crlf_to_lf_chars(s: &Vec<char>, start: usize) -> (r: Vec<char>)
    requires
        start <= s.len(),
    ensures
        r@ == crlf_to_lf(s@.skip(start as int)),
{
    let mut out: Vec<char> = Vec::new();
    let mut i: usize = start;
    assert(out@ + crlf_to_lf(s@.skip(start as int)) =~= crlf_to_lf(s@.skip(start as int)));
    while i < s.len()
        invariant
            start <= i <= s.len(),
            crlf_to_lf(s@.skip(start as int)) == out@ + crlf_to_lf(s@.skip(i as int)),
        decreases s.len() - i,
    {
        let ghost rest = s@.skip(i as int);
        if i + 1 < s.len() && s[i] == '\r' && s[i + 1] == '\n' {
            out.push('\n');
            assert(rest[1] == s@[i + 1]);
            assert(rest.skip(2) =~= s@.skip(i + 2));
            i = i + 2;
        } else {
            out.push(s[i]);
            assert(rest.skip(1) =~= s@.skip(i + 1));
            i = i + 1;
        }
        assert(crlf_to_lf(s@.skip(start as int)) =~= out@ + crlf_to_lf(s@.skip(i as int)));
    }
    assert(s@.skip(i as int) =~= seq![]);
    assert(out@ =~= out@ + crlf_to_lf(s@.skip(i as int)));
    out
}

/// Split a document held as characters into logical lines.
pub fn unfold_chars(content: &Vec<char>) -> (r: Vec<Vec<char>>)
    ensures
        r.deep_view() == unfold_spec(content@),
{
    let start: usize = if content.len() > 0 && content[0] == '\u{feff}' {
        1
    } else {
        0
    };
    assert(content@.skip(start as int) == strip_bom_spec(content@)) by {
        if start == 0 {
            assert(content@.skip(0) =~= content@);
        }
    }
    let normalized = crlf_to_lf_chars(content, start);
    let lines = split_chars(&normalized, '\n');
    let ghost ls = lines.deep_view();
    let mut logical: Vec<Vec<char>> = Vec::new();
    let mut cur: Option<Vec<char>> = None;
    let mut i: usize = 0;
    assert(ls.skip(0) =~= ls);
    assert(logical.deep_view() =~= seq![]);
    while i < lines.len()
        invariant
            i <= lines.len(),
            ls == lines.deep_view(),
            fold_lines(ls, seq![], None) == fold_lines(
                ls.skip(i as int),
                logical.deep_view(),
                opt_chars(cur),
            ),
        decreases lines.len() - i,
    {
        let ghost rest = ls.skip(i as int);
        let ghost gcur: Option<Seq<char>> = opt_chars(cur);
        let ghost gdone = logical.deep_view();
        assert(rest.skip(1) =~= ls.skip(i + 1));
        let line = &lines[i];
        assert(rest[0] == line@);
        assert(line.deep_view() =~= line@);
        if line.len() > 0 && (line[0] == ' ' || line[0] == '\t') {
            let mut next: Vec<char> = match cur {
                Some(c) => c,
                None => Vec::new(),
            };
            let ghost base = next@;
            let mut k: usize = 1;
            while k < line.len()
                invariant
                    1 <= k <= line.len(),
                    next@ == base + line@.subrange(1, k as int),
                decreases line.len() - k,
            {
                next.push(line[k]);
                assert(base + line@.subrange(1, k as int).push(line@[k as int]) =~= base
                    + line@.subrange(1, k + 1));
                k = k + 1;
            }
            assert(line@.subrange(1, line.len() as int) =~= line@.skip(1));
            assert(next@ == match gcur {
                Some(c) => c + line@.skip(1),
                None => line@.skip(1),
            }) by {
                if gcur is None {
                    assert(base =~= seq![]);
                    assert(seq![] + line@.skip(1) =~= line@.skip(1));
                }
            }
            cur = Some(next);
        } else {
            match cur {
                Some(c) => {
                    assert(c.deep_view() =~= c@);
                    logical.push(c);
                    assert(logical.deep_view() =~= gdone.push(gcur->0));
                },
                None => {},
            }
            let mut copy: Vec<char> = Vec::new();
            let mut k: usize = 0;
            while k < line.len()
                invariant
                    k <= line.len(),
                    copy@ == line@.take(k as int),
                decreases line.len() - k,
            {
                copy.push(line[k]);
                assert(line@.take(k as int).push(line@[k as int]) =~= line@.take(k + 1));
                k = k + 1;
            }
            assert(line@.take(line.len() as int) =~= line@);
            cur = Some(copy);
        }
        i = i + 1;
    }
    let ghost gdone = logical.deep_view();
    match cur {
        Some(c) => {
            assert(c.deep_view() =~= c@);
            logical.push(c);
            assert(logical.deep_view() =~= gdone.push(c@));
        },
        None => {},
    }
    assert(ls.skip(i as int) =~= seq![]);
    // Drop trailing empty logical lines.
    while logical.len() > 0 && logical[logical.len() - 1].len() == 0
        invariant
            drop_trailing_empty(logical.deep_view()) == unfold_spec(content@),
        decreases logical.len(),
    {
        let ghost before = logical.deep_view();
        logical.pop();
        assert(logical.deep_view() =~= before.drop_last());
    }
    logical
}

/// Split `content` into RFC 5545 logical lines: BOM dropped, CRLF or LF
/// accepted, folded continuation lines joined, trailing empty lines dropped.
pub fn unfold(content: &str) -> (r: Vec<String>)
    ensures
        r.deep_view() == unfold_spec(content@),
{
    let v = chars_of(content);
    let lines = unfold_chars(&v);
    let mut out: Vec<String> = Vec::new();
    let mut i: usize = 0;
    while i < lines.len()
        invariant
            i <= lines.len(),
            out.deep_view() == lines.deep_view().take(i as int),
        decreases lines.len() - i,
    {
        let s = string_of(&lines[i]);
        let ghost before = out.deep_view();
        out.push(s);
        assert(out.deep_view() =~= before.push(s@));
        assert(lines[i as int].deep_view() =~= lines[i as int]@);
        assert(out.deep_view() =~= lines.deep_view().take(i + 1));
        i = i + 1;
    }
    assert(lines.deep_view().take(i as int) =~= lines.deep_view());
    out
}

} // verus!
