//! Decimal integer parsing with the rules of `str::parse` for integer
//! types: an optional sign (`+`, or `-` for signed types), then one or
//! more ASCII digits, nothing else, and a value that fits the type.

use vstd::prelude::*;

verus! {

/// Is `c` an ASCII digit?
pub open spec fn is_digit(c: char) -> bool {
    48 <= (c as u32) <= 57
}

/// The value of a digit character (0 for any other character).
pub open spec fn digit_value(c: char) -> nat {
    if is_digit(c) {
        ((c as u32) - 48) as nat
    } else {
        0
    }
}

/// Are all characters of `s` digits?
pub open spec fn all_digits(s: Seq<char>) -> bool {
    forall|i: int| 0 <= i < s.len() ==> #[trigger] is_digit(s[i])
}

/// The decimal value of a digit sequence.
pub open spec fn digits_value(s: Seq<char>) -> nat
    decreases s.len(),
{
    if s.len() == 0 {
        0
    } else {
        digits_value(s.drop_last()) * 10 + digit_value(s.last())
    }
}

/// The value that `str::parse` gives an unsigned type for `s`, before the
/// type's bound is applied: an optional `+`, then at least one digit.
pub open spec fn unsigned_value(s: Seq<char>) -> Option<nat> {
    let d = if s.len() > 0 && s[0] == '+' {
        s.skip(1)
    } else {
        s
    };
    if d.len() > 0 && all_digits(d) {
        Some(digits_value(d))
    } else {
        None
    }
}

/// The value that `str::parse` gives a signed type for `s`, before the
/// type's bounds are applied: an optional `+` or `-`, then at least one
/// digit.
pub open spec fn signed_value(s: Seq<char>) -> Option<int> {
    if s.len() > 0 && s[0] == '-' {
        let d = s.skip(1);
        if d.len() > 0 && all_digits(d) {
            Some(-(digits_value(d) as int))
        } else {
            None
        }
    } else {
        match unsigned_value(s) {
            Some(n) => Some(n as int),
            None => None,
        }
    }
}

/// `s.parse::<usize>()`.
pub open spec fn usize_value(s: Seq<char>) -> Option<usize> {
    match unsigned_value(s) {
        Some(n) => if n <= usize::MAX {
            Some(n as usize)
        } else {
            None
        },
        None => None,
    }
}

/// `s.parse::<u32>()`.
pub open spec fn u32_value(s: Seq<char>) -> Option<u32> {
    match unsigned_value(s) {
        Some(n) => if n <= u32::MAX {
            Some(n as u32)
        } else {
            None
        },
        None => None,
    }
}

/// `s.parse::<i32>()`.
pub open spec fn i32_value(s: Seq<char>) -> Option<i32> {
    match signed_value(s) {
        Some(n) => if i32::MIN <= n <= i32::MAX {
            Some(n as i32)
        } else {
            None
        },
        None => None,
    }
}

/// A digit prefix is worth no more than the whole sequence.
pub proof fn lemma_digits_value_prefix(s: Seq<char>, k: int)
    requires
        0 <= k <= s.len(),
    ensures
        digits_value(s.take(k)) <= digits_value(s),
    decreases s.len(),
{
    if k < s.len() {
        assert(s.drop_last().take(k) =~= s.take(k));
        lemma_digits_value_prefix(s.drop_last(), k);
    } else {
        assert(s.take(k) =~= s);
    }
}

fn is_digit_exec(c: char) -> (r: bool)
    ensures
        r == is_digit(c),
{
    let n = c as u32;
    48 <= n && n <= 57
}

/// The value of the digits `v[lo..hi]` when they are all digits, the
/// range is not empty and the value is at most `limit`.
fn digits_in_range(v: &Vec<char>, lo: usize, hi: usize, limit: u64) -> (r: Option<u64>)
    requires
        lo <= hi <= v.len(),
    ensures
        r is Some <==> (lo < hi && all_digits(v@.subrange(lo as int, hi as int)) && digits_value(
            v@.subrange(lo as int, hi as int),
        ) <= limit),
        r matches Some(x) ==> x == digits_value(v@.subrange(lo as int, hi as int)),
{
    let ghost d = v@.subrange(lo as int, hi as int);
    if lo == hi {
        return None;
    }
    let mut acc: u64 = 0;
    let mut i: usize = lo;
    assert(d.take(0) =~= seq![]);
    while i < hi
        invariant
            lo <= i <= hi <= v.len(),
            d == v@.subrange(lo as int, hi as int),
            acc <= limit,
            all_digits(d.take(i - lo)),
            acc == digits_value(d.take(i - lo)),
        decreases hi - i,
    {
        let c = v[i];
        let ghost t = d.take(i - lo + 1);
        assert(t.drop_last() =~= d.take(i - lo));
        assert(t.last() == c);
        if !is_digit_exec(c) {
            assert(!is_digit(d[i - lo]));
            return None;
        }
        let next: u128 = (acc as u128) * 10 + ((c as u32) - 48) as u128;
        assert(next == digits_value(t));
        if next > limit as u128 {
            proof {
                if all_digits(d) {
                    lemma_digits_value_prefix(d, i - lo + 1);
                }
            }
            return None;
        }
        acc = next as u64;
        assert forall|j: int| 0 <= j < t.len() implies #[trigger] is_digit(t[j]) by {
            if j < t.len() - 1 {
                assert(t[j] == d.take(i - lo)[j]);
            }
        }
        i = i + 1;
    }
    assert(d.take(i - lo) =~= d);
    Some(acc)
}

/// Parse `v[lo..hi]` as an unsigned number no greater than `limit`.
fn unsigned_in_range(v: &Vec<char>, lo: usize, hi: usize, limit: u64) -> (r: Option<u64>)
    requires
        lo <= hi <= v.len(),
    ensures
        r is Some <==> (unsigned_value(v@.subrange(lo as int, hi as int)) is Some && unsigned_value(
            v@.subrange(lo as int, hi as int),
        )->0 <= limit),
        r matches Some(x) ==> x == unsigned_value(v@.subrange(lo as int, hi as int))->0,
{
    let ghost s = v@.subrange(lo as int, hi as int);
    if lo < hi && v[lo] == '+' {
        assert(s.skip(1) =~= v@.subrange(lo + 1, hi as int));
        digits_in_range(v, lo + 1, hi, limit)
    } else {
        digits_in_range(v, lo, hi, limit)
    }
}

/// `s.parse::<usize>()` on the characters of `s`.
pub fn parse_usize(s: &Vec<char>) -> (r: Option<usize>)
    ensures
        r == usize_value(s@),
{
    assert(s@.subrange(0, s@.len() as int) =~= s@);
    match unsigned_in_range(s, 0, s.len(), usize::MAX as u64) {
        Some(x) => Some(x as usize),
        None => None,
    }
}

/// `s.parse::<u32>()` on the characters of `s`.
pub fn parse_u32(s: &Vec<char>) -> (r: Option<u32>)
    ensures
        r == u32_value(s@),
{
    assert(s@.subrange(0, s@.len() as int) =~= s@);
    match unsigned_in_range(s, 0, s.len(), u32::MAX as u64) {
        Some(x) => Some(x as u32),
        None => None,
    }
}

/// `s.parse::<i32>()` on the characters of `s`.
pub fn parse_i32(s: &Vec<char>) -> (r: Option<i32>)
    ensures
        r == i32_value(s@),
{
    assert(s@.subrange(0, s@.len() as int) =~= s@);
    if s.len() > 0 && s[0] == '-' {
        assert(s@.skip(1) =~= s@.subrange(1, s@.len() as int));
        match digits_in_range(s, 1, s.len(), 2147483648) {
            Some(x) => Some((0 - (x as i64)) as i32),
            None => None,
        }
    } else {
        match unsigned_in_range(s, 0, s.len(), 2147483647) {
            Some(x) => Some(x as i32),
            None => None,
        }
    }
}

} // verus!
