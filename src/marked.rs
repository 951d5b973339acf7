//! The column-style generation listing: one line per generation whose
//! whitespace-separated columns are the id (suffixed with `current` for the
//! current generation), the date, the time and at least one more column.
//! Other lines, such as a header, are skipped.
use vstd::prelude::*;
use crate::error::Error;
use crate::generation::{Generation, GenerationModel};
use crate::service::ParseMode;
use crate::listing::{skip_spaces, skip_spaces_from};
use crate::service::{chars_at, holds_at, profile_link, NixService};
use crate::text::{chars_of, char_is_digit, char_is_space, is_digit, is_space, lines_of, split_lines};
use crate::timestamp::{parse_timestamp, timestamp_of, valid_timestamp};

verus! {

/// The first position at or after `i` that holds whitespace (or the length).
pub open spec fn skip_word(s: Seq<char>, i: int) -> int
    decreases s.len() - i,
{
    if 0 <= i < s.len() && !is_space(s[i]) {
        skip_word(s, i + 1)
    } else {
        i
    }
}

/// Start and end of the first column at or after `i`.
pub open spec fn column_from(s: Seq<char>, i: int) -> (int, int) {
    let a = skip_spaces(s, i);
    (a, skip_word(s, a))
}

/// Start and end of the first four columns of `s`.
pub open spec fn columns(s: Seq<char>) -> Seq<(int, int)> {
    let c0 = column_from(s, 0);
    let c1 = column_from(s, c0.1);
    let c2 = column_from(s, c1.1);
    let c3 = column_from(s, c2.1);
    seq![c0, c1, c2, c3]
}

/// Column `k` (0 to 3) of `s`.
pub open spec fn column(s: Seq<char>, k: int) -> Seq<char> {
    s.subrange(columns(s)[k].0, columns(s)[k].1)
}

/// `s` is a non-empty run of decimal digits.
pub open spec fn is_number(s: Seq<char>) -> bool {
    s.len() > 0 && forall|k: int| 0 <= k < s.len() ==> is_digit(#[trigger] s[k])
}

/// `s` has at least four columns, the first a decimal id once its trailing
/// `current` markers are stripped.
pub open spec fn is_marked_shape(s: Seq<char>) -> bool {
    columns(s)[3].0 < s.len() && is_number(strip_marker(column(s, 0)))
}

/// `s` has the entry shape, and its second and third columns are a valid
/// date and time.
pub open spec fn is_marked_entry(s: Seq<char>) -> bool {
    is_marked_shape(s) && valid_timestamp(column(s, 1), column(s, 2))
}

/// Some line of `ls` has the entry shape but no valid date and time.
pub open spec fn has_bad_marked_entry(ls: Seq<Seq<char>>) -> bool {
    exists|i: int| 0 <= i < ls.len() && is_marked_shape(#[trigger] ls[i]) && !is_marked_entry(ls[i])
}

/// `s` without every trailing repetition of `current`.
pub open spec fn strip_marker(s: Seq<char>) -> Seq<char>
    decreases s.len(),
{
    if "current"@.len() > 0 && s.len() >= "current"@.len() && s.subrange(s.len() - "current"@.len(), s.len() as int)
        == "current"@ {
        strip_marker(s.subrange(0, s.len() - "current"@.len()))
    } else {
        s
    }
}

/// `s` holds `current` somewhere.
pub open spec fn has_marker(s: Seq<char>) -> bool {
    exists|i: int| holds_at(s, i, "current"@)
}

/// The generation that a column-style entry line describes.
pub open spec fn marked_generation(root: Seq<char>, s: Seq<char>) -> GenerationModel {
    let id = strip_marker(column(s, 0));
    GenerationModel {
        id,
        timestamp: timestamp_of(column(s, 1), column(s, 2)),
        description: if has_marker(column(s, 0)) {
            Some("(current)"@)
        } else {
            None
        },
        profiles: seq![profile_link(root, id)],
        current: has_marker(column(s, 0)),
    }
}

pub open spec fn marked_entry_pred() -> spec_fn(Seq<char>) -> bool {
    |l: Seq<char>| is_marked_entry(l)
}

/// The generations of a column-style listing with lines `ls`: each line that
/// is an entry gives one, in order.
pub open spec fn marked_listed(root: Seq<char>, ls: Seq<Seq<char>>) -> Seq<GenerationModel> {
    ls.filter(marked_entry_pred()).map_values(|l: Seq<char>| marked_generation(root, l))
}

fn skip_word_from(cs: &Vec<char>, i: usize) -> (r: usize)
    requires
        i <= cs@.len(),
    ensures
        r == skip_word(cs@, i as int),
        i <= r <= cs@.len(),
{
    let mut j: usize = i;
    while j < cs.len() && !char_is_space(cs[j])
        invariant
            i <= j <= cs@.len(),
            skip_word(cs@, i as int) == skip_word(cs@, j as int),
        decreases cs@.len() - j,
    {
        j = j + 1;
    }
    j
}

fn column_bounds(cs: &Vec<char>, i: usize) -> (r: (usize, usize))
    requires
        i <= cs@.len(),
    ensures
        (r.0 as int, r.1 as int) == column_from(cs@, i as int),
        i <= r.0 <= r.1 <= cs@.len(),
{
    let a = skip_spaces_from(cs, i);
    let e = skip_word_from(cs, a);
    (a, e)
}

/// The end of `cs[lo..hi]` once every trailing `current` is stripped.
fn strip_marker_end(cs: &Vec<char>, lo: usize, hi: usize) -> (r: usize)
    requires
        lo <= hi <= cs@.len(),
    ensures
        lo <= r <= hi,
        cs@.subrange(lo as int, r as int) == strip_marker(cs@.subrange(lo as int, hi as int)),
{
    let marker = chars_of("current");
    proof {
        reveal_strlit("current");
    }
    let m = marker.len();
    let mut end: usize = hi;
    while end - lo >= m && chars_at(cs, end - m, &marker)
        invariant
            lo <= end <= hi <= cs@.len(),
            marker@ == "current"@,
            "current"@.len() == 7,
            m == 7,
            strip_marker(cs@.subrange(lo as int, hi as int)) == strip_marker(
                cs@.subrange(lo as int, end as int),
            ),
        decreases end,
    {
        let ghost t = cs@.subrange(lo as int, end as int);
        assert(t.subrange(t.len() - 7, t.len() as int) =~= cs@.subrange(end - 7, end as int));
        assert(t.subrange(0, t.len() - 7) =~= cs@.subrange(lo as int, end - 7));
        end = end - m;
    }
    proof {
        let t = cs@.subrange(lo as int, end as int);
        if t.len() >= 7 {
            assert(t.subrange(t.len() - 7, t.len() as int) =~= cs@.subrange(
                end - 7,
                end as int,
            ));
        }
    }
    end
}

/// Whether `cs[lo..hi]` is a non-empty run of decimal digits.
fn digits_only(cs: &Vec<char>, lo: usize, hi: usize) -> (r: bool)
    requires
        lo <= hi <= cs@.len(),
    ensures
        r == is_number(cs@.subrange(lo as int, hi as int)),
{
    if lo == hi {
        return false;
    }
    let mut i: usize = lo;
    while i < hi
        invariant
            lo <= i <= hi <= cs@.len(),
            forall|k: int| lo <= k < i ==> is_digit(#[trigger] cs@[k]),
        decreases hi - i,
    {
        if !char_is_digit(cs[i]) {
            assert(cs@.subrange(lo as int, hi as int)[i - lo] == cs@[i as int]);
            return false;
        }
        i = i + 1;
    }
    assert forall|k: int| 0 <= k < hi - lo implies is_digit(
        #[trigger] cs@.subrange(lo as int, hi as int)[k],
    ) by {
        assert(cs@.subrange(lo as int, hi as int)[k] == cs@[lo + k]);
    }
    true
}

/// Whether `cs[lo..hi]` holds `current` somewhere.
fn holds_marker(cs: &Vec<char>, lo: usize, hi: usize) -> (r: bool)
    requires
        lo <= hi <= cs@.len(),
    ensures
        r == has_marker(cs@.subrange(lo as int, hi as int)),
{
    let marker = chars_of("current");
    proof {
        reveal_strlit("current");
    }
    let m = marker.len();
    let ghost t = cs@.subrange(lo as int, hi as int);
    if hi - lo < m {
        assert forall|i: int| !holds_at(t, i, "current"@) by {}
        return false;
    }
    let mut i: usize = lo;
    while hi - i >= m
        invariant
            lo <= i <= hi <= cs@.len(),
            marker@ == "current"@,
            "current"@.len() == 7,
            m == 7,
            t == cs@.subrange(lo as int, hi as int),
            forall|j: int| 0 <= j < i - lo ==> !holds_at(t, j, "current"@),
        decreases hi - i,
    {
        let found = chars_at(cs, i, &marker);
        assert(t.subrange(i - lo, i - lo + 7) =~= cs@.subrange(i as int, i + 7));
        if found {
            assert(holds_at(t, i - lo, "current"@));
            return true;
        }
        i = i + 1;
    }
    assert forall|j: int| !holds_at(t, j, "current"@) by {
        if 0 <= j && j < i - lo {
        }
    }
    false
}

impl NixService {
    /// Parses a column-style listing: every line with at least four columns
    /// whose first is a decimal id (once its trailing `current` markers are
    /// stripped) and whose second and third are a valid date and time gives
    /// a generation, in order; other lines, a header among them, are skipped.
    /// A marked id makes the generation current, with the description
    /// `(current)`; an unmarked one has no description. A line of that shape
    /// whose date or time is invalid is skipped in permissive mode and fails
    /// the listing in strict mode.
    pub fn parse_marked_generations(&self, output: &str, mode: ParseMode) -> (r: Result<
        Vec<Generation>,
        Error,
    >)
        ensures
            mode == ParseMode::Permissive ==> r is Ok,
            mode == ParseMode::Strict ==> (r is Err <==> has_bad_marked_entry(lines_of(output@))),
            r is Ok ==> r->Ok_0@.map_values(|g: Generation| g@) == marked_listed(
                self.profiles_root@,
                lines_of(output@),
            ),
            r is Err ==> r->Err_0 is NixOutputParseFailed,
    {
        let lines = split_lines(output);
        let ghost ls = lines@.map_values(|l: String| l@);
        let ghost root = self.profiles_root@;
        let mut out: Vec<Generation> = Vec::new();
        let mut k: usize = 0;
        while k < lines.len()
            invariant
                ls == lines@.map_values(|l: String| l@),
                ls == lines_of(output@),
                k <= lines@.len(),
                out@.map_values(|g: Generation| g@) == marked_listed(root, ls.take(k as int)),
                mode == ParseMode::Strict ==> !has_bad_marked_entry(ls.take(k as int)),
                root == self.profiles_root@,
            decreases lines@.len() - k,
        {
            let line = lines[k].as_str();
            proof {
                reveal(Seq::filter);
                assert(ls.take(k + 1).drop_last() =~= ls.take(k as int));
                assert(ls.take(k + 1).last() == line@);
            }
            let ghost before = out@.map_values(|g: Generation| g@);
            let (shape, entry) = self.marked_entry(line);
            match entry {
                Some(g) => {
                    out.push(g);
                    assert(out@.map_values(|g: Generation| g@) =~= before.push(
                        marked_generation(root, line@),
                    ));
                    assert(marked_listed(root, ls.take(k + 1)) =~= marked_listed(
                        root,
                        ls.take(k as int),
                    ).push(marked_generation(root, line@)));
                },
                None => {
                    if shape && mode == ParseMode::Strict {
                        proof {
                            assert(ls[k as int] == line@);
                            assert(has_bad_marked_entry(ls));
                        }
                        return Err(Error::NixOutputParseFailed("invalid timestamp".to_string()));
                    }
                },
            }
            proof {
                if mode == ParseMode::Strict {
                    assert forall|i: int| 0 <= i < k + 1 && is_marked_shape(
                        #[trigger] ls.take(k + 1)[i],
                    ) implies is_marked_entry(ls.take(k + 1)[i]) by {
                        if i < k {
                            assert(ls.take(k + 1)[i] == ls.take(k as int)[i]);
                        }
                    }
                }
            }
            k = k + 1;
        }
        assert(ls.take(k as int) =~= ls);
        Ok(out)
    }

    /// Whether one column-style line has the entry shape, and its generation
    /// where it is an entry.
    fn marked_entry(&self, line: &str) -> (r: (bool, Option<Generation>))
        ensures
            r.0 == is_marked_shape(line@),
            r.1 is Some <==> is_marked_entry(line@),
            r.1 is Some ==> r.1->Some_0@ == marked_generation(self.profiles_root@, line@),
    {
        let cs = chars_of(line);
        let n = cs.len();
        let (a0, e0) = column_bounds(&cs, 0);
        let (a1, e1) = column_bounds(&cs, e0);
        let (a2, e2) = column_bounds(&cs, e1);
        let (a3, _e3) = column_bounds(&cs, e2);
        assert(columns(line@) == seq![(a0 as int, e0 as int), (a1 as int, e1 as int), (a2 as int, e2 as int), columns(line@)[3]]);
        if a3 >= n {
            return (false, None);
        }
        let end = strip_marker_end(&cs, a0, e0);
        if !digits_only(&cs, a0, end) {
            return (false, None);
        }
        let date = line.substring_char(a1, e1);
        let time = line.substring_char(a2, e2);
        let timestamp = match parse_timestamp(date, time) {
            Ok(ts) => ts,
            Err(_) => {
                return (true, None);
            },
        };
        let marked = holds_marker(&cs, a0, e0);
        let id = line.substring_char(a0, end).to_string();
        let description = if marked {
            Some("(current)".to_string())
        } else {
            None
        };
        let link = self.profile_link(id.as_str());
        let profiles = vec![link];
        let g = Generation { id, timestamp, description, profiles, current: marked };
        assert(g@.profiles =~= seq![profile_link(self.profiles_root@, g@.id)]);
        (true, Some(g))
    }
}

} // verus!
