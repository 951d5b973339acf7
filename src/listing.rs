//! The grammar of one generation-listing line.
//!
//! An entry line reads: optional whitespace, a decimal id, whitespace, a date
//! `YYYY-MM-DD`, whitespace, a time `HH:MM:SS`, whitespace, and a free-text
//! description that is kept trimmed.
use vstd::prelude::*;
use crate::text::{char_is_digit, char_is_space, is_digit, is_space, trim};
use crate::timestamp::{date_shape_at, time_shape_at, timestamp_at, valid_timestamp_at, Timestamp};

verus! {

/// The first position at or after `i` that holds no whitespace (or the length).
pub open spec fn skip_spaces(s: Seq<char>, i: int) -> int
    decreases s.len() - i,
{
    if 0 <= i < s.len() && is_space(s[i]) {
        skip_spaces(s, i + 1)
    } else {
        i
    }
}

/// The first position at or after `i` that holds no digit (or the length).
pub open spec fn skip_digits(s: Seq<char>, i: int) -> int
    decreases s.len() - i,
{
    if 0 <= i < s.len() && is_digit(s[i]) {
        skip_digits(s, i + 1)
    } else {
        i
    }
}

/// Where the parts of an entry line start: the id, the end of the id, the
/// date and the time.
pub open spec fn entry_layout(s: Seq<char>) -> (int, int, int, int) {
    let a = skip_spaces(s, 0);
    let b = skip_digits(s, a);
    let c = skip_spaces(s, b);
    let t = skip_spaces(s, c + 10);
    (a, b, c, t)
}

/// `s` follows the entry-line grammar.
pub open spec fn is_entry(s: Seq<char>) -> bool {
    let (a, b, c, t) = entry_layout(s);
    &&& b > a
    &&& c > b
    &&& date_shape_at(s, c)
    &&& t > c + 10
    &&& time_shape_at(s, t)
    &&& t + 8 < s.len()
    &&& is_space(s[t + 8])
}

/// `s` is an entry line whose date and time name a valid point in time.
pub open spec fn is_valid_entry(s: Seq<char>) -> bool {
    let (a, b, c, t) = entry_layout(s);
    is_entry(s) && valid_timestamp_at(s, c, t)
}

/// The id of an entry line.
pub open spec fn entry_id(s: Seq<char>) -> Seq<char> {
    s.subrange(entry_layout(s).0, entry_layout(s).1)
}

/// The timestamp of an entry line.
pub open spec fn entry_timestamp(s: Seq<char>) -> Timestamp {
    timestamp_at(s, entry_layout(s).2, entry_layout(s).3)
}

/// The description of an entry line: what follows the time, trimmed.
pub open spec fn entry_description(s: Seq<char>) -> Seq<char> {
    trim(s.subrange(entry_layout(s).3 + 8, s.len() as int))
}

pub(crate) fn skip_spaces_from(cs: &Vec<char>, i: usize) -> (r: usize)
    requires
        i <= cs@.len(),
    ensures
        r == skip_spaces(cs@, i as int),
        i <= r <= cs@.len(),
{
    let mut j: usize = i;
    while j < cs.len() && char_is_space(cs[j])
        invariant
            i <= j <= cs@.len(),
            skip_spaces(cs@, i as int) == skip_spaces(cs@, j as int),
        decreases cs@.len() - j,
    {
        j = j + 1;
    }
    j
}

fn skip_digits_from(cs: &Vec<char>, i: usize) -> (r: usize)
    requires
        i <= cs@.len(),
    ensures
        r == skip_digits(cs@, i as int),
        i <= r <= cs@.len(),
{
    let mut j: usize = i;
    while j < cs.len() && char_is_digit(cs[j])
        invariant
            i <= j <= cs@.len(),
            skip_digits(cs@, i as int) == skip_digits(cs@, j as int),
        decreases cs@.len() - j,
    {
        j = j + 1;
    }
    j
}

/// Matches `cs` against the entry-line grammar and returns where its parts
/// start: id, end of id, date and time.
pub fn match_entry(cs: &Vec<char>) -> (r: Option<(usize, usize, usize, usize)>)
    ensures
        r is Some <==> is_entry(cs@),
        r is Some ==> {
            let (a, b, c, t) = r->Some_0;
            &&& (a as int, b as int, c as int, t as int) == entry_layout(cs@)
            &&& a < b < c && c + 10 < t && t + 8 < cs@.len()
        },
{
    let n = cs.len();
    let a = skip_spaces_from(cs, 0);
    let b = skip_digits_from(cs, a);
    let c = skip_spaces_from(cs, b);
    if b == a || c == b || n - c < 10 {
        return None;
    }
    let mut k: usize = 0;
    while k < 10
        invariant
            c + 10 <= cs@.len() == n,
            a == entry_layout(cs@).0,
            b == entry_layout(cs@).1,
            c == entry_layout(cs@).2,
            b > a,
            c > b,
            k <= 10,
            forall|m: int| 0 <= m < k && m != 4 && m != 7 ==> is_digit(#[trigger] cs@[c + m]),
        decreases 10 - k,
    {
        if k != 4 && k != 7 && !char_is_digit(cs[c + k]) {
            proof {
                let kk = k as int;
                if is_entry(cs@) {
                    assert(date_shape_at(cs@, c as int));
                    assert(is_digit(cs@[c + kk]));
                }
            }
            return None;
        }
        k = k + 1;
    }
    if cs[c + 4] != '-' || cs[c + 7] != '-' {
        return None;
    }
    let t = skip_spaces_from(cs, c + 10);
    if t == c + 10 || n - t < 9 {
        return None;
    }
    let mut k: usize = 0;
    while k < 8
        invariant
            t + 9 <= cs@.len() == n,
            a == entry_layout(cs@).0,
            b == entry_layout(cs@).1,
            c == entry_layout(cs@).2,
            t == entry_layout(cs@).3,
            b > a,
            c > b,
            t > c + 10,
            date_shape_at(cs@, c as int),
            k <= 8,
            forall|m: int| 0 <= m < k && m != 2 && m != 5 ==> is_digit(#[trigger] cs@[t + m]),
        decreases 8 - k,
    {
        if k != 2 && k != 5 && !char_is_digit(cs[t + k]) {
            proof {
                let kk = k as int;
                if is_entry(cs@) {
                    assert(time_shape_at(cs@, t as int));
                    assert(is_digit(cs@[t + kk]));
                }
            }
            return None;
        }
        k = k + 1;
    }
    if cs[t + 2] != ':' || cs[t + 5] != ':' || !char_is_space(cs[t + 8]) {
        return None;
    }
    Some((a, b, c, t))
}

} // verus!
