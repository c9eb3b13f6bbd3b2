//! Character-level helpers shared by every layer: conversions between
//! `str` / `String` and `Vec<char>`, Unicode whitespace trimming, and the
//! few standard-library string operations the library relies on.

use vstd::prelude::*;
use vstd::std_specs::iter::IteratorSpec;

verus! {

broadcast use vstd::string::group_string_axioms;

/// `String::push` appends one character.
pub assume_specification[ String::push ](s: &mut String, ch: char)
    ensures
        final(s)@ == old(s)@.push(ch),
;

/// The characters of `s`, in order.
pub fn chars_of(s: &str) -> (v: Vec<char>)
    ensures
        v@ == s@,
{
    let mut it = s.chars();
    let mut v: Vec<char> = Vec::new();
    loop
        invariant
            v@ + it.remaining() == s@,
            it.decrease() is Some,
        decreases it.decrease()->0,
    {
        let ghost before = it.remaining();
        match it.next() {
            Some(c) => {
                v.push(c);
                assert(v@ + it.remaining() =~= s@) by {
                    assert(before =~= seq![c] + it.remaining());
                }
            },
            None => {
                assert(v@ =~= s@);
                return v;
            },
        }
    }
}

/// A `String` holding exactly the characters of `v`.
pub fn string_of(v: &Vec<char>) -> (s: String)
    ensures
        s@ == v@,
{
    let mut s = String::new();
    let mut i: usize = 0;
    while i < v.len()
        invariant
            i <= v.len(),
            s@ == v@.take(i as int),
        decreases v.len() - i,
    {
        s.push(v[i]);
        assert(v@.take(i as int).push(v@[i as int]) =~= v@.take(i + 1));
        i = i + 1;
    }
    assert(v@.take(v.len() as int) =~= v@);
    s
}

/// A `String` holding the characters of `v` from `lo` (inclusive) to `hi`
/// (exclusive).
pub fn string_of_range(v: &Vec<char>, lo: usize, hi: usize) -> (s: String)
    requires
        lo <= hi <= v.len(),
    ensures
        s@ == v@.subrange(lo as int, hi as int),
{
    let mut s = String::new();
    let mut i: usize = lo;
    while i < hi
        invariant
            lo <= i <= hi <= v.len(),
            s@ == v@.subrange(lo as int, i as int),
        decreases hi - i,
    {
        s.push(v[i]);
        assert(v@.subrange(lo as int, i as int).push(v@[i as int]) =~= v@.subrange(
            lo as int,
            i + 1,
        ));
        i = i + 1;
    }
    s
}

/// The Unicode `White_Space` property (the set `char::is_whitespace`
/// tests for).
pub open spec fn is_white_space(c: char) -> bool {
    ||| ('\u{9}' <= c && c <= '\u{d}')
    ||| c == ' '
    ||| c == '\u{85}'
    ||| c == '\u{a0}'
    ||| c == '\u{1680}'
    ||| ('\u{2000}' <= c && c <= '\u{200a}')
    ||| c == '\u{2028}'
    ||| c == '\u{2029}'
    ||| c == '\u{202f}'
    ||| c == '\u{205f}'
    ||| c == '\u{3000}'
}

/// Whether `c` is Unicode white space.
pub fn is_whitespace_char(c: char) -> (r: bool)
    ensures
        r == is_white_space(c),
{
    ('\u{9}' <= c && c <= '\u{d}') || c == ' ' || c == '\u{85}' || c == '\u{a0}' || c
        == '\u{1680}' || ('\u{2000}' <= c && c <= '\u{200a}') || c == '\u{2028}' || c
        == '\u{2029}' || c == '\u{202f}' || c == '\u{205f}' || c == '\u{3000}'
}

/// Number of leading white-space characters of `s`.
pub open spec fn leading_ws(s: Seq<char>) -> nat
    decreases s.len(),
{
    if s.len() > 0 && is_white_space(s[0]) {
        1 + leading_ws(s.skip(1))
    } else {
        0
    }
}

/// Number of trailing white-space characters of `s`.
pub open spec fn trailing_ws(s: Seq<char>) -> nat
    decreases s.len(),
{
    if s.len() > 0 && is_white_space(s.last()) {
        1 + trailing_ws(s.drop_last())
    } else {
        0
    }
}

/// `s` with leading white space removed (`str::trim_start`).
pub open spec fn trim_start_spec(s: Seq<char>) -> Seq<char> {
    s.skip(leading_ws(s) as int)
}

/// `s` with trailing white space removed (`str::trim_end`).
pub open spec fn trim_end_spec(s: Seq<char>) -> Seq<char> {
    s.take(s.len() - trailing_ws(s))
}

/// `s` with white space removed at both ends (`str::trim`).
pub open spec fn trim_spec(s: Seq<char>) -> Seq<char> {
    trim_end_spec(trim_start_spec(s))
}

pub proof fn lemma_leading_ws_bound(s: Seq<char>)
    ensures
        leading_ws(s) <= s.len(),
        forall|i: int| 0 <= i < leading_ws(s) ==> is_white_space(#[trigger] s[i]),
        leading_ws(s) < s.len() ==> !is_white_space(s[leading_ws(s) as int]),
    decreases s.len(),
{
    if s.len() > 0 && is_white_space(s[0]) {
        lemma_leading_ws_bound(s.skip(1));
        assert forall|i: int| 0 <= i < leading_ws(s) implies is_white_space(#[trigger] s[i]) by {
            if i > 0 {
                assert(s[i] == s.skip(1)[i - 1]);
            }
        }
    }
}

pub proof fn lemma_trailing_ws_bound(s: Seq<char>)
    ensures
        trailing_ws(s) <= s.len(),
        forall|i: int|
            s.len() - trailing_ws(s) <= i < s.len() ==> is_white_space(#[trigger] s[i]),
        trailing_ws(s) < s.len() ==> !is_white_space(s[s.len() - trailing_ws(s) - 1]),
    decreases s.len(),
{
    if s.len() > 0 && is_white_space(s.last()) {
        lemma_trailing_ws_bound(s.drop_last());
        assert forall|i: int| s.len() - trailing_ws(s) <= i < s.len() implies is_white_space(
            #[trigger] s[i],
        ) by {
            if i < s.len() - 1 {
                assert(s[i] == s.drop_last()[i]);
            }
        }
    }
}

/// Index of the first character of `v@` at or after `lo` that is not white
/// space (or `hi` if there is none), together with its characterization.
fn skip_ws_forward(v: &Vec<char>) -> (k: usize)
    ensures
        k == leading_ws(v@),
        k <= v@.len(),
{
    proof {
        lemma_leading_ws_bound(v@);
    }
    let mut k: usize = 0;
    while k < v.len() && is_whitespace_char(v[k])
        invariant
            k <= leading_ws(v@),
            leading_ws(v@) <= v@.len(),
            forall|i: int| 0 <= i < leading_ws(v@) ==> is_white_space(#[trigger] v@[i]),
            leading_ws(v@) < v@.len() ==> !is_white_space(v@[leading_ws(v@) as int]),
        decreases v.len() - k,
    {
        k = k + 1;
    }
    k
}

/// Count of trailing white space in `v@.take(hi)`.
fn skip_ws_backward(v: &Vec<char>, hi: usize) -> (k: usize)
    requires
        hi <= v.len(),
    ensures
        k == hi - trailing_ws(v@.take(hi as int)),
{
    let ghost t = v@.take(hi as int);
    proof {
        lemma_trailing_ws_bound(t);
    }
    let mut k: usize = hi;
    while k > 0 && is_whitespace_char(v[k - 1])
        invariant
            k <= hi <= v.len(),
            t == v@.take(hi as int),
            hi - trailing_ws(t) <= k,
            trailing_ws(t) <= t.len(),
            forall|i: int| t.len() - trailing_ws(t) <= i < t.len() ==> is_white_space(#[trigger] t[i]),
            trailing_ws(t) < t.len() ==> !is_white_space(t[t.len() - trailing_ws(t) - 1]),
        decreases k,
    {
        assert(t[k - 1] == v@[k - 1]);
        k = k - 1;
    }
    proof {
        if k > 0 {
            assert(t[k - 1] == v@[k - 1]);
        }
    }
    k
}

/// `str::trim` on a character vector: the characters between the first and
/// last non-white-space character.
pub fn trim_chars(v: &Vec<char>) -> (r: Vec<char>)
    ensures
        r@ == trim_spec(v@),
{
    let lo = skip_ws_forward(v);
    let ghost s1 = v@.skip(lo as int);
    let mut tail: Vec<char> = Vec::new();
    let mut i = lo;
    while i < v.len()
        invariant
            lo <= i <= v.len(),
            tail@ == v@.subrange(lo as int, i as int),
        decreases v.len() - i,
    {
        tail.push(v[i]);
        assert(v@.subrange(lo as int, i as int).push(v@[i as int]) =~= v@.subrange(
            lo as int,
            i + 1,
        ));
        i = i + 1;
    }
    assert(tail@ =~= s1);
    let hi = skip_ws_backward(&tail, tail.len());
    assert(tail@.take(tail.len() as int) =~= tail@);
    let mut r: Vec<char> = Vec::new();
    let mut j: usize = 0;
    while j < hi
        invariant
            j <= hi <= tail.len(),
            r@ == tail@.take(j as int),
        decreases hi - j,
    {
        r.push(tail[j]);
        assert(tail@.take(j as int).push(tail@[j as int]) =~= tail@.take(j + 1));
        j = j + 1;
    }
    r
}

/// `str::trim` on a string slice.
pub fn trim_str(s: &str) -> (r: String)
    ensures
        r@ == trim_spec(s@),
{
    let v = chars_of(s);
    let t = trim_chars(&v);
    string_of(&t)
}

/// Whether `s` starts with `p`.
pub open spec fn starts_with(s: Seq<char>, p: Seq<char>) -> bool {
    p.len() <= s.len() && s.take(p.len() as int) == p
}

/// Whether `v@` has `p@` as a prefix.
pub fn has_prefix(v: &Vec<char>, p: &Vec<char>) -> (r: bool)
    ensures
        r == starts_with(v@, p@),
{
    if p.len() > v.len() {
        return false;
    }
    let mut i: usize = 0;
    while i < p.len()
        invariant
            p.len() <= v.len(),
            i <= p.len(),
            forall|k: int| 0 <= k < i ==> v@[k] == p@[k],
        decreases p.len() - i,
    {
        if v[i] != p[i] {
            assert(v@.take(p.len() as int)[i as int] != p@[i as int]);
            return false;
        }
        i = i + 1;
    }
    assert(v@.take(p.len() as int) =~= p@);
    true
}

/// Whether `a@ == b@`.
pub fn chars_eq(a: &Vec<char>, b: &Vec<char>) -> (r: bool)
    ensures
        r == (a@ == b@),
{
    if a.len() != b.len() {
        return false;
    }
    let mut i: usize = 0;
    while i < a.len()
        invariant
            a.len() == b.len(),
            i <= a.len(),
            forall|k: int| 0 <= k < i ==> a@[k] == b@[k],
        decreases a.len() - i,
    {
        if a[i] != b[i] {
            return false;
        }
        i = i + 1;
    }
    assert(a@ =~= b@);
    true
}

/// Whether two strings hold the same characters.
pub fn str_eq(a: &str, b: &str) -> (r: bool)
    ensures
        r == (a@ == b@),
{
    let va = chars_of(a);
    let vb = chars_of(b);
    chars_eq(&va, &vb)
}

/// A copy of `s` (same characters).
pub fn copy_string(s: &String) -> (r: String)
    ensures
        r@ == s@,
{
    s.clone()
}


// ---------------------------------------------------------------------
// Splitting and searching
// ---------------------------------------------------------------------

/// Pieces of `s` between occurrences of `sep` (`str::split`), where `cur`
/// is the piece under construction.
pub open spec fn split_on_acc(s: Seq<char>, sep: char, cur: Seq<char>) -> Seq<Seq<char>>
    decreases s.len(),
{
    if s.len() == 0 {
        seq![cur]
    } else if s[0] == sep {
        seq![cur] + split_on_acc(s.skip(1), sep, seq![])
    } else {
        split_on_acc(s.skip(1), sep, cur.push(s[0]))
    }
}

/// Pieces of `s` between occurrences of `sep` (`str::split`): always at
/// least one piece.
pub open spec fn split_on(s: Seq<char>, sep: char) -> Seq<Seq<char>> {
    split_on_acc(s, sep, seq![])
}

/// `str::split` on a character vector.
pub fn split_chars(s: &Vec<char>, sep: char) -> (r: Vec<Vec<char>>)
    ensures
        r.deep_view() == split_on(s@, sep),
{
    let mut items: Vec<Vec<char>> = Vec::new();
    let mut cur: Vec<char> = Vec::new();
    let mut i: usize = 0;
    assert(s@.skip(0) =~= s@);
    assert(items.deep_view() + split_on(s@, sep) =~= split_on(s@, sep));
    while i < s.len()
        invariant
            i <= s.len(),
            split_on(s@, sep) == items.deep_view() + split_on_acc(s@.skip(i as int), sep, cur@),
        decreases s.len() - i,
    {
        let ghost rest = s@.skip(i as int);
        let ghost old_items = items.deep_view();
        let ghost old_cur = cur@;
        assert(rest.skip(1) =~= s@.skip(i + 1));
        if s[i] == sep {
            assert(cur.deep_view() =~= cur@);
            items.push(cur);
            assert(items.deep_view() =~= old_items.push(old_cur));
            cur = Vec::new();
            assert(old_items + (seq![old_cur] + split_on_acc(rest.skip(1), sep, seq![]))
                =~= old_items.push(old_cur) + split_on_acc(rest.skip(1), sep, seq![]));
            assert(cur@ =~= seq![]);
        } else {
            cur.push(s[i]);
        }
        i = i + 1;
    }
    let ghost old_items = items.deep_view();
    assert(s@.skip(i as int) =~= seq![]);
    assert(cur.deep_view() =~= cur@);
    items.push(cur);
    assert(items.deep_view() =~= old_items + split_on_acc(s@.skip(i as int), sep, cur@));
    items
}

/// `i` is the position of the first occurrence of `c` in `s`.
pub open spec fn is_first_index(s: Seq<char>, c: char, i: int) -> bool {
    &&& 0 <= i < s.len()
    &&& s[i] == c
    &&& forall|j: int| 0 <= j < i ==> s[j] != c
}

/// Position of the first occurrence of `c` in `s` (`str::find`).
pub open spec fn first_index(s: Seq<char>, c: char) -> Option<int> {
    if exists|i: int| is_first_index(s, c, i) {
        Some(choose|i: int| is_first_index(s, c, i))
    } else {
        None
    }
}

pub proof fn lemma_first_index_unique(s: Seq<char>, c: char, i: int)
    requires
        is_first_index(s, c, i),
    ensures
        first_index(s, c) == Some(i),
{
    let k = choose|k: int| is_first_index(s, c, k);
    if k < i {
        assert(s[k] != c);
    } else if i < k {
        assert(s[i] != c);
    }
}

pub proof fn lemma_first_index_none(s: Seq<char>, c: char)
    requires
        forall|j: int| 0 <= j < s.len() ==> s[j] != c,
    ensures
        first_index(s, c) is None,
{
}

/// Position of the first occurrence of `c` in `s@`.
pub fn find_char(s: &Vec<char>, c: char) -> (r: Option<usize>)
    ensures
        r matches Some(i) ==> first_index(s@, c) == Some(i as int),
        r is None ==> first_index(s@, c) is None,
{
    let mut i: usize = 0;
    while i < s.len()
        invariant
            i <= s.len(),
            forall|j: int| 0 <= j < i ==> s@[j] != c,
        decreases s.len() - i,
    {
        if s[i] == c {
            proof {
                lemma_first_index_unique(s@, c, i as int);
            }
            return Some(i);
        }
        i = i + 1;
    }
    proof {
        lemma_first_index_none(s@, c);
    }
    None
}

/// Number of leading occurrences of `c` in `s`.
pub open spec fn leading_count(s: Seq<char>, c: char) -> nat
    decreases s.len(),
{
    if s.len() > 0 && s[0] == c {
        1 + leading_count(s.skip(1), c)
    } else {
        0
    }
}

/// Number of trailing occurrences of `c` in `s`.
pub open spec fn trailing_count(s: Seq<char>, c: char) -> nat
    decreases s.len(),
{
    if s.len() > 0 && s.last() == c {
        1 + trailing_count(s.drop_last(), c)
    } else {
        0
    }
}

/// `s` with every leading and trailing `c` removed (`str::trim_matches`).
pub open spec fn trim_matches_spec(s: Seq<char>, c: char) -> Seq<char> {
    let t = s.skip(leading_count(s, c) as int);
    t.take(t.len() - trailing_count(t, c))
}

proof fn lemma_leading_count(s: Seq<char>, c: char)
    ensures
        leading_count(s, c) <= s.len(),
        forall|i: int| 0 <= i < leading_count(s, c) ==> #[trigger] s[i] == c,
        leading_count(s, c) < s.len() ==> s[leading_count(s, c) as int] != c,
    decreases s.len(),
{
    if s.len() > 0 && s[0] == c {
        lemma_leading_count(s.skip(1), c);
        assert forall|i: int| 0 <= i < leading_count(s, c) implies #[trigger] s[i] == c by {
            if i > 0 {
                assert(s[i] == s.skip(1)[i - 1]);
            }
        }
    }
}

proof fn lemma_trailing_count(s: Seq<char>, c: char)
    ensures
        trailing_count(s, c) <= s.len(),
        forall|i: int| s.len() - trailing_count(s, c) <= i < s.len() ==> #[trigger] s[i] == c,
        trailing_count(s, c) < s.len() ==> s[s.len() - trailing_count(s, c) - 1] != c,
    decreases s.len(),
{
    if s.len() > 0 && s.last() == c {
        lemma_trailing_count(s.drop_last(), c);
        assert forall|i: int|
            s.len() - trailing_count(s, c) <= i < s.len() implies #[trigger] s[i] == c by {
            if i < s.len() - 1 {
                assert(s[i] == s.drop_last()[i]);
            }
        }
    }
}

/// `str::trim_matches` with a single character, on characters `lo..hi` of `v`.
pub fn trim_matches_range(v: &Vec<char>, lo: usize, hi: usize, c: char) -> (r: String)
    requires
        lo <= hi <= v.len(),
    ensures
        r@ == trim_matches_spec(v@.subrange(lo as int, hi as int), c),
{
    let ghost s = v@.subrange(lo as int, hi as int);
    proof {
        lemma_leading_count(s, c);
    }
    let mut a: usize = lo;
    while a < hi && v[a] == c
        invariant
            lo <= a <= hi <= v.len(),
            s == v@.subrange(lo as int, hi as int),
            a - lo <= leading_count(s, c),
            leading_count(s, c) <= s.len(),
            forall|i: int| 0 <= i < leading_count(s, c) ==> #[trigger] s[i] == c,
            leading_count(s, c) < s.len() ==> s[leading_count(s, c) as int] != c,
        decreases hi - a,
    {
        assert(s[a - lo] == v@[a as int]);
        a = a + 1;
    }
    proof {
        if a < hi {
            assert(s[a - lo] == v@[a as int]);
        }
    }
    let ghost t = s.skip(leading_count(s, c) as int);
    assert(t =~= v@.subrange(a as int, hi as int));
    proof {
        lemma_trailing_count(t, c);
    }
    let mut b: usize = hi;
    while b > a && v[b - 1] == c
        invariant
            lo <= a <= b <= hi <= v.len(),
            t == v@.subrange(a as int, hi as int),
            b - a >= t.len() - trailing_count(t, c),
            trailing_count(t, c) <= t.len(),
            forall|i: int| t.len() - trailing_count(t, c) <= i < t.len() ==> #[trigger] t[i] == c,
            trailing_count(t, c) < t.len() ==> t[t.len() - trailing_count(t, c) - 1] != c,
        decreases b,
    {
        assert(t[b - 1 - a] == v@[b - 1]);
        b = b - 1;
    }
    proof {
        if b > a {
            assert(t[b - 1 - a] == v@[b - 1]);
        }
    }
    assert(t.take(t.len() - trailing_count(t, c)) =~= v@.subrange(a as int, b as int));
    string_of_range(v, a, b)
}

/// Is every character of `s` an ASCII one?
pub open spec fn all_ascii(s: Seq<char>) -> bool {
    forall|i: int| 0 <= i < s.len() ==> (s[i] as u32) < 128
}

/// ASCII upper-casing of one character: `a`..`z` to `A`..`Z`, every other
/// character kept.
pub open spec fn ascii_upper(c: char) -> char {
    if 'a' <= c && c <= 'z' {
        ((c as u32) - 32) as char
    } else {
        c
    }
}

/// Unicode full upper-casing of a string that holds a non-ASCII
/// character, as `str::to_uppercase` performs it.
pub uninterp spec fn full_uppercase(s: Seq<char>) -> Seq<char>;

/// Upper-casing as `str::to_uppercase` performs it: on ASCII text the
/// ASCII upper-casing, otherwise Unicode's full case mapping.
#[verifier::opaque]
pub open spec fn unicode_uppercase(s: Seq<char>) -> Seq<char> {
    if all_ascii(s) {
        s.map_values(|c: char| ascii_upper(c))
    } else {
        full_uppercase(s)
    }
}

/// Calls `str::to_uppercase`. On ASCII text it maps `a`..`z` to `A`..`Z`
/// and keeps every other character, as the standard library documents
/// for the Unicode case mapping of ASCII; beyond ASCII the result is
/// named by `full_uppercase` of the input (the mapping depends on the
/// input alone).
#[verifier::external_body]
pub(crate) fn to_uppercase(s: &str) -> (r: String)
    ensures
        all_ascii(s@) ==> r@ == s@.map_values(|c: char| ascii_upper(c)),
        !all_ascii(s@) ==> r@ == full_uppercase(s@),
        r@ == unicode_uppercase(s@),
{
    s.to_uppercase()
}

/// ASCII lower-casing of one character: `A`..`Z` to `a`..`z`, every other
/// character kept.
pub open spec fn ascii_lower(c: char) -> char {
    if 'A' <= c && c <= 'Z' {
        ((c as u32) + 32) as char
    } else {
        c
    }
}

/// Unicode full lower-casing of a string that holds a non-ASCII
/// character, as `str::to_lowercase` performs it.
pub uninterp spec fn full_lowercase(s: Seq<char>) -> Seq<char>;

/// Lower-casing as `str::to_lowercase` performs it: on ASCII text the
/// ASCII lower-casing, otherwise Unicode's full case mapping.
#[verifier::opaque]
pub open spec fn unicode_lowercase(s: Seq<char>) -> Seq<char> {
    if all_ascii(s) {
        s.map_values(|c: char| ascii_lower(c))
    } else {
        full_lowercase(s)
    }
}

/// Calls `str::to_lowercase`. On ASCII text it maps `A`..`Z` to `a`..`z`
/// and keeps every other character, as the standard library documents
/// for the Unicode case mapping of ASCII; beyond ASCII the result is
/// named by `full_lowercase` of the input (the mapping depends on the
/// input alone).
#[verifier::external_body]
pub(crate) fn to_lowercase(s: &str) -> (r: String)
    ensures
        all_ascii(s@) ==> r@ == s@.map_values(|c: char| ascii_lower(c)),
        !all_ascii(s@) ==> r@ == full_lowercase(s@),
        r@ == unicode_lowercase(s@),
{
    s.to_lowercase()
}

/// Whether `p` occurs in `s` at position `i`.
pub open spec fn occurs_at(s: Seq<char>, p: Seq<char>, i: int) -> bool {
    0 <= i && i + p.len() <= s.len() && s.subrange(i, i + p.len()) == p
}

/// Whether `p` occurs anywhere in `s` (`str::contains`).
pub open spec fn contains_seq(s: Seq<char>, p: Seq<char>) -> bool {
    exists|i: int| occurs_at(s, p, i)
}

/// Whether `p@` occurs in `s@`.
pub fn contains_chars(s: &Vec<char>, p: &Vec<char>) -> (r: bool)
    ensures
        r == contains_seq(s@, p@),
{
    if p.len() > s.len() {
        assert forall|i: int| !occurs_at(s@, p@, i) by {}
        return false;
    }
    let limit = s.len() - p.len();
    let mut i: usize = 0;
    loop
        invariant
            p.len() <= s.len(),
            limit == s.len() - p.len(),
            i <= limit,
            forall|k: int| 0 <= k < i ==> !occurs_at(s@, p@, k),
        decreases limit - i,
    {
        let mut j: usize = 0;
        let mut ok = true;
        while j < p.len()
            invariant
                i + p.len() <= s.len(),
                j <= p.len(),
                ok ==> forall|k: int| 0 <= k < j ==> s@[i + k] == p@[k],
                !ok ==> !occurs_at(s@, p@, i as int),
            decreases p.len() - j,
        {
            if s[i + j] != p[j] {
                assert(s@.subrange(i as int, i + p.len())[j as int] == s@[i + j]);
                ok = false;
            }
            j = j + 1;
        }
        if ok {
            assert(s@.subrange(i as int, i + p.len()) =~= p@);
            assert(occurs_at(s@, p@, i as int));
            return true;
        }
        if i == limit {
            assert forall|k: int| !occurs_at(s@, p@, k) by {
                if 0 <= k && k + p.len() <= s.len() {
                    assert(k <= i);
                }
            }
            return false;
        }
        i = i + 1;
    }
}

} // verus!
