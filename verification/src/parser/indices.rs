//! Parsing of 1-based index lists such as `1,3-5,8`.

use vstd::prelude::*;
use crate::date::{decimal, decimal_chars};
use crate::error::{push_chars, Error, ErrorView};
use crate::number::{parse_usize, usize_value};
use crate::text::{
    chars_of, find_char, first_index, split_chars, split_on, string_of, trim_chars, trim_spec,
};

verus! {

/// The indices one comma-separated part selects, or the message of the
/// error it raises. A part is trimmed; `s-e` (each side trimmed) selects
/// `s..=e`, anything else must be a single index. Every index must lie in
/// `1..=max`.
pub open spec fn part_indices(p: Seq<char>, max: usize) -> Result<Set<usize>, Seq<char>> {
    let t = trim_spec(p);
    match first_index(t, '-') {
        Some(k) => {
            let start = t.take(k);
            let end = t.skip(k + 1);
            match usize_value(trim_spec(start)) {
                None => Err("Invalid number: "@ + start),
                Some(s) => match usize_value(trim_spec(end)) {
                    None => Err("Invalid number: "@ + end),
                    Some(e) => if s == 0 || e == 0 || s > max || e > max {
                        Err("Index out of range (1-"@ + decimal(max as nat) + ")"@)
                    } else if s > e {
                        Err("Invalid range: "@ + decimal(s as nat) + "-"@ + decimal(e as nat))
                    } else {
                        Ok(Set::new(|x: usize| s <= x <= e))
                    },
                },
            }
        },
        None => match usize_value(t) {
            None => Err("Invalid number: "@ + t),
            Some(i) => if i == 0 || i > max {
                Err("Index "@ + decimal(i as nat) + " out of range (1-"@ + decimal(max as nat) + ")"@)
            } else {
                Ok(set![i])
            },
        },
    }
}

/// The indices the first `n` parts select, or the message of the first
/// error among them.
pub open spec fn indices_upto(parts: Seq<Seq<char>>, max: usize, n: nat) -> Result<Set<usize>, Seq<char>>
    decreases n,
{
    if n == 0 {
        Ok(Set::empty())
    } else {
        match indices_upto(parts, max, (n - 1) as nat) {
            Err(m) => Err(m),
            Ok(a) => match part_indices(parts[n - 1], max) {
                Err(m) => Err(m),
                Ok(b) => Ok(a.union(b)),
            },
        }
    }
}

/// The indices a whole list selects, or the message of its first error.
pub open spec fn indices_spec(input: Seq<char>, max: usize) -> Result<Set<usize>, Seq<char>> {
    let parts = split_on(input, ',');
    indices_upto(parts, max, parts.len())
}

/// Is `s` strictly increasing?
pub open spec fn strictly_increasing(s: Seq<usize>) -> bool {
    forall|i: int, j: int| 0 <= i < j < s.len() ==> s[i] < s[j]
}

proof fn lemma_error_persists(parts: Seq<Seq<char>>, max: usize, k: nat, n: nat)
    requires
        k <= n,
        indices_upto(parts, max, k) is Err,
    ensures
        indices_upto(parts, max, n) == indices_upto(parts, max, k),
    decreases n,
{
    if n > k {
        lemma_error_persists(parts, max, k, (n - 1) as nat);
    }
}

/// Insert `x` into the strictly increasing `v`, keeping it so.
fn insert_unique(v: &mut Vec<usize>, x: usize)
    requires
        strictly_increasing(old(v)@),
    ensures
        strictly_increasing(final(v)@),
        final(v)@.to_set() == old(v)@.to_set().insert(x),
{
    let ghost o = v@;
    let mut pos: usize = 0;
    while pos < v.len() && v[pos] < x
        invariant
            pos <= v.len(),
            v@ == o,
            forall|j: int| 0 <= j < pos ==> v@[j] < x,
        decreases v.len() - pos,
    {
        pos = pos + 1;
    }
    if pos < v.len() && v[pos] == x {
        assert(o.to_set().insert(x) =~= o.to_set()) by {
            assert(o.contains(x)) by {
                assert(o[pos as int] == x);
            }
        }
        return;
    }
    v.insert(pos, x);
    assert(v@ =~= o.insert(pos as int, x));
    assert forall|i: int, j: int| 0 <= i < j < v@.len() implies v@[i] < v@[j] by {
        if j < pos {
        } else if j == pos {
            assert(v@[i] == o[i]);
        } else if i < pos {
            assert(v@[j] == o[j - 1]);
            assert(o[j - 1] >= x) by {
                assert(o[pos as int] > x);
                if j - 1 > pos {
                    assert(o[pos as int] < o[j - 1]);
                }
            }
        } else if i == pos {
            assert(v@[j] == o[j - 1]);
            assert(o[pos as int] > x);
            if j - 1 > pos {
                assert(o[pos as int] < o[j - 1]);
            }
        } else {
            assert(v@[i] == o[i - 1]);
            assert(v@[j] == o[j - 1]);
        }
    }
    assert forall|y: usize| v@.to_set().contains(y) == o.to_set().insert(x).contains(y) by {
        if v@.to_set().contains(y) {
            let i = choose|i: int| 0 <= i < v@.len() && v@[i] == y;
            if i < pos {
                assert(o[i] == y);
            } else if i > pos {
                assert(o[i - 1] == y);
            }
        }
        if o.to_set().contains(y) {
            let i = choose|i: int| 0 <= i < o.len() && o[i] == y;
            if i < pos {
                assert(v@[i] == y);
            } else {
                assert(v@[i + 1] == y);
            }
        }
        if y == x {
            assert(v@[pos as int] == x);
        }
    }
    assert(v@.to_set() =~= o.to_set().insert(x));
}

fn invalid_number(text: &Vec<char>) -> (r: Error)
    ensures
        r@ == (ErrorView { message: "Invalid number: "@ + text@, line: None, property: None }),
{
    let mut msg = chars_of("Invalid number: ");
    push_chars(&mut msg, text);
    Error::parse(string_of(&msg).as_str())
}

/// Add the indices of one part to `out`, or return the part's error.
fn add_part(out: &mut Vec<usize>, part: &Vec<char>, max: usize) -> (r: Result<(), Error>)
    requires
        strictly_increasing(old(out)@),
    ensures
        strictly_increasing(final(out)@),
        match part_indices(part@, max) {
            Ok(b) => r is Ok && final(out)@.to_set() == old(out)@.to_set().union(b),
            Err(m) => r matches Err(e) && e@ == (ErrorView { message: m, line: None, property: None }),
        },
{
    let t = trim_chars(part);
    match find_char(&t, '-') {
        Some(k) => {
            let mut start: Vec<char> = Vec::new();
            let mut i: usize = 0;
            while i < k
                invariant
                    i <= k < t.len(),
                    start@ == t@.take(i as int),
                decreases k - i,
            {
                start.push(t[i]);
                assert(start@ =~= t@.take(i + 1));
                i = i + 1;
            }
            let mut end: Vec<char> = Vec::new();
            let mut j: usize = k + 1;
            while j < t.len()
                invariant
                    k + 1 <= j <= t.len(),
                    end@ == t@.subrange(k + 1, j as int),
                decreases t.len() - j,
            {
                end.push(t[j]);
                assert(end@ =~= t@.subrange(k + 1, j + 1));
                j = j + 1;
            }
            assert(end@ =~= t@.skip(k + 1));
            let s = match parse_usize(&trim_chars(&start)) {
                Some(s) => s,
                None => {
                    return Err(invalid_number(&start));
                },
            };
            let e = match parse_usize(&trim_chars(&end)) {
                Some(e) => e,
                None => {
                    return Err(invalid_number(&end));
                },
            };
            if s == 0 || e == 0 || s > max || e > max {
                let mut msg = chars_of("Index out of range (1-");
                push_chars(&mut msg, &decimal_chars(max as u64));
                push_chars(&mut msg, &chars_of(")"));
                return Err(Error::parse(string_of(&msg).as_str()));
            }
            if s > e {
                let mut msg = chars_of("Invalid range: ");
                push_chars(&mut msg, &decimal_chars(s as u64));
                push_chars(&mut msg, &chars_of("-"));
                push_chars(&mut msg, &decimal_chars(e as u64));
                return Err(Error::parse(string_of(&msg).as_str()));
            }
            let ghost o = out@.to_set();
            let mut x = s;
            loop
                invariant_except_break
                    s <= x <= e,
                    strictly_increasing(out@),
                    out@.to_set() == o.union(Set::new(|y: usize| s <= y < x)),
                ensures
                    strictly_increasing(out@),
                    out@.to_set() == o.union(Set::new(|y: usize| s <= y <= e)),
                decreases e - x,
            {
                insert_unique(out, x);
                assert(out@.to_set() =~= o.union(Set::new(|y: usize| s <= y < x + 1)));
                if x == e {
                    assert(out@.to_set() =~= o.union(Set::new(|y: usize| s <= y <= e)));
                    break;
                }
                x = x + 1;
            }
            Ok(())
        },
        None => {
            let idx = match parse_usize(&t) {
                Some(i) => i,
                None => {
                    return Err(invalid_number(&t));
                },
            };
            if idx == 0 || idx > max {
                let mut msg = chars_of("Index ");
                push_chars(&mut msg, &decimal_chars(idx as u64));
                push_chars(&mut msg, &chars_of(" out of range (1-"));
                push_chars(&mut msg, &decimal_chars(max as u64));
                push_chars(&mut msg, &chars_of(")"));
                return Err(Error::parse(string_of(&msg).as_str()));
            }
            let ghost o = out@.to_set();
            insert_unique(out, idx);
            assert(out@.to_set() =~= o.union(set![idx]));
            Ok(())
        },
    }
}

/// Parse a comma-separated list of 1-based indices and `start-end`
/// ranges into the sorted list of the distinct indices selected. Fails on
/// the first part, in input order, that is not a number or range, or that
/// leaves `1..=max`.
pub fn parse_indices(input: &str, max: usize) -> (r: Result<Vec<usize>, Error>)
    ensures
        match indices_spec(input@, max) {
            Ok(set) => r matches Ok(v) && strictly_increasing(v@) && v@.to_set() == set,
            Err(m) => r matches Err(e) && e@ == (ErrorView { message: m, line: None, property: None }),
        },
{
    let parts = split_chars(&chars_of(input), ',');
    let ghost ps = parts.deep_view();
    let mut out: Vec<usize> = Vec::new();
    let mut i: usize = 0;
    assert(out@.to_set() =~= Set::<usize>::empty());
    while i < parts.len()
        invariant
            i <= parts.len(),
            ps == parts.deep_view(),
            ps == split_on(input@, ','),
            strictly_increasing(out@),
            indices_upto(ps, max, i as nat) == Ok::<Set<usize>, Seq<char>>(out@.to_set()),
        decreases parts.len() - i,
    {
        assert(ps[i as int] == parts[i as int]@);
        let res = add_part(&mut out, &parts[i], max);
        match res {
            Ok(()) => {},
            Err(e) => {
                proof {
                    lemma_error_persists(ps, max, (i + 1) as nat, ps.len());
                }
                return Err(e);
            },
        }
        i = i + 1;
    }
    Ok(out)
}

} // verus!
