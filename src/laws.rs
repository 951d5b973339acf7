//! Properties that relate the parsers' and the differ's results across all
//! inputs.
use vstd::prelude::*;
use crate::diff::{added_refs, dedup, lemma_dedup, lemma_filter_contains_iff, modified_refs, removed_refs};
use crate::generation::GenerationModel;
use crate::marked::{is_marked_entry, marked_entry_pred, marked_listed};
use crate::listing::{
    entry_description, entry_id, entry_layout, entry_timestamp, is_entry, is_valid_entry,
    skip_digits, skip_spaces,
};
use crate::text::{is_digit, is_space, trim, trim_start};
use crate::timestamp::{timestamp_at, timestamp_of, valid_timestamp, valid_timestamp_at};
use crate::service::{listed, listed_generation, profile_link, valid_entry_pred};

verus! {

/// The added identifiers are those of the target set missing from the source
/// set, the removed ones those of the source set missing from the target set;
/// no identifier is both added and removed, and equal sets give neither.
pub proof fn lemma_diff_set_laws(from: Seq<Seq<char>>, to: Seq<Seq<char>>)
    ensures
        added_refs(from, to).to_set() == to.to_set().difference(from.to_set()),
        removed_refs(from, to).to_set() == from.to_set().difference(to.to_set()),
        added_refs(from, to).to_set().disjoint(removed_refs(from, to).to_set()),
        from.to_set() == to.to_set() ==> added_refs(from, to).len() == 0 && removed_refs(
            from,
            to,
        ).len() == 0,
{
    assert forall|x: Seq<char>| #[trigger] added_refs(from, to).contains(x) <==> (to.contains(x)
        && !from.contains(x)) by {
        lemma_filter_contains_iff(to, |y: Seq<char>| !from.contains(y), x);
    }
    assert forall|x: Seq<char>| #[trigger] removed_refs(from, to).contains(x) <==> (from.contains(
        x,
    ) && !to.contains(x)) by {
        lemma_filter_contains_iff(from, |y: Seq<char>| !to.contains(y), x);
    }
    assert(added_refs(from, to).to_set() =~= to.to_set().difference(from.to_set()));
    assert(removed_refs(from, to).to_set() =~= from.to_set().difference(to.to_set()));
    if from.to_set() == to.to_set() {
        if added_refs(from, to).len() > 0 {
            let x = added_refs(from, to)[0];
            assert(added_refs(from, to).contains(x));
            assert(to.to_set().contains(x));
        }
        if removed_refs(from, to).len() > 0 {
            let x = removed_refs(from, to)[0];
            assert(removed_refs(from, to).contains(x));
            assert(from.to_set().contains(x));
        }
    }
}

/// The same laws for the lists as the differ takes them, each element once:
/// what is added and removed depends only on the sets of the two lists.
pub proof fn lemma_diff_set_laws_of_lists(from: Seq<Seq<char>>, to: Seq<Seq<char>>)
    ensures
        added_refs(dedup(from), dedup(to)).to_set() == to.to_set().difference(from.to_set()),
        removed_refs(dedup(from), dedup(to)).to_set() == from.to_set().difference(to.to_set()),
        added_refs(dedup(from), dedup(to)).to_set().disjoint(
            removed_refs(dedup(from), dedup(to)).to_set(),
        ),
        from.to_set() == to.to_set() ==> added_refs(dedup(from), dedup(to)).len() == 0
            && removed_refs(dedup(from), dedup(to)).len() == 0,
{
    lemma_dedup(from);
    lemma_dedup(to);
    assert(dedup(from).to_set() =~= from.to_set());
    assert(dedup(to).to_set() =~= to.to_set());
    lemma_diff_set_laws(dedup(from), dedup(to));
}

/// An identifier is modified exactly when it is in the source list and some
/// different identifier of the target list has the same package name.
pub proof fn lemma_modified_membership(from: Seq<Seq<char>>, to: Seq<Seq<char>>, x: Seq<char>)
    ensures
        modified_refs(from, to).contains(x) <==> from.contains(x) && crate::diff::renamed_in(
            to,
            x,
        ),
{
    lemma_filter_contains_iff(from, crate::diff::renamed_pred(to), x);
}

/// Lines that are not valid entries (headers, blank lines, malformed
/// entries), wherever they stand, change nothing in a listing's result.
pub proof fn lemma_listing_skips_other_lines(
    root: Seq<char>,
    before: Seq<Seq<char>>,
    other: Seq<char>,
    after: Seq<Seq<char>>,
    current: Seq<char>,
)
    requires
        !is_valid_entry(other),
    ensures
        listed(root, before + seq![other] + after, current) == listed(root, before + after, current),
{
    reveal(Seq::filter);
    let p = valid_entry_pred();
    Seq::filter_distributes_over_add(before + seq![other], after, p);
    Seq::filter_distributes_over_add(before, seq![other], p);
    Seq::filter_distributes_over_add(before, after, p);
    assert(seq![other].drop_last() =~= Seq::<Seq<char>>::empty());
    assert(Seq::<Seq<char>>::empty().filter(p) =~= Seq::<Seq<char>>::empty());
    assert(seq![other].last() == other);
    assert(!p(other));
    assert(seq![other].filter(p) =~= Seq::<Seq<char>>::empty());
    assert(before.filter(p) + Seq::<Seq<char>>::empty() =~= before.filter(p));
}

/// A valid entry line appended to a listing adds exactly its generation, at
/// the end.
pub proof fn lemma_listing_keeps_entries_in_order(
    root: Seq<char>,
    before: Seq<Seq<char>>,
    line: Seq<char>,
    current: Seq<char>,
)
    requires
        is_valid_entry(line),
    ensures
        listed(root, before.push(line), current) == listed(root, before, current).push(
            listed_generation(root, line, current),
        ),
{
    reveal(Seq::filter);
    assert(before.push(line).drop_last() =~= before);
    assert(listed(root, before.push(line), current) =~= listed(root, before, current).push(
        listed_generation(root, line, current),
    ));
}

/// Every listed generation is reachable through exactly one link, named by
/// its id, and is marked current exactly when its id is the current one.
pub proof fn lemma_listed_profiles_and_current(
    root: Seq<char>,
    ls: Seq<Seq<char>>,
    current: Seq<char>,
    k: int,
)
    requires
        0 <= k < listed(root, ls, current).len(),
    ensures
        ({
            let g: GenerationModel = listed(root, ls, current)[k];
            &&& g.profiles == seq![profile_link(root, g.id)]
            &&& g.current <==> g.id == current
        }),
{
}

/// In a column-style listing, lines that are not entries (a header, blank
/// lines, malformed lines), wherever they stand, change nothing.
pub proof fn lemma_marked_listing_skips_other_lines(
    root: Seq<char>,
    before: Seq<Seq<char>>,
    other: Seq<char>,
    after: Seq<Seq<char>>,
)
    requires
        !is_marked_entry(other),
    ensures
        marked_listed(root, before + seq![other] + after) == marked_listed(root, before + after),
{
    reveal(Seq::filter);
    let p = marked_entry_pred();
    Seq::filter_distributes_over_add(before + seq![other], after, p);
    Seq::filter_distributes_over_add(before, seq![other], p);
    Seq::filter_distributes_over_add(before, after, p);
    assert(seq![other].drop_last() =~= Seq::<Seq<char>>::empty());
    assert(Seq::<Seq<char>>::empty().filter(p) =~= Seq::<Seq<char>>::empty());
    assert(seq![other].last() == other);
    assert(!p(other));
    assert(seq![other].filter(p) =~= Seq::<Seq<char>>::empty());
    assert(before.filter(p) + Seq::<Seq<char>>::empty() =~= before.filter(p));
}

/// Every generation of a column-style listing is reachable through exactly
/// one link, named by its id.
pub proof fn lemma_marked_profiles(root: Seq<char>, ls: Seq<Seq<char>>, k: int)
    requires
        0 <= k < marked_listed(root, ls).len(),
    ensures
        ({
            let g: GenerationModel = marked_listed(root, ls)[k];
            g.profiles == seq![profile_link(root, g.id)]
        }),
{
}

pub open spec fn all_spaces(s: Seq<char>) -> bool {
    forall|k: int| 0 <= k < s.len() ==> is_space(#[trigger] s[k])
}

pub open spec fn all_digits(s: Seq<char>) -> bool {
    forall|k: int| 0 <= k < s.len() ==> is_digit(#[trigger] s[k])
}

proof fn lemma_skip_spaces_run(s: Seq<char>, i: int, j: int)
    requires
        0 <= i <= j <= s.len(),
        forall|k: int| i <= k < j ==> is_space(#[trigger] s[k]),
        j < s.len() ==> !is_space(s[j]),
    ensures
        skip_spaces(s, i) == j,
    decreases j - i,
{
    if i < j {
        lemma_skip_spaces_run(s, i + 1, j);
    }
}

proof fn lemma_skip_digits_run(s: Seq<char>, i: int, j: int)
    requires
        0 <= i <= j <= s.len(),
        forall|k: int| i <= k < j ==> is_digit(#[trigger] s[k]),
        j < s.len() ==> !is_digit(s[j]),
    ensures
        skip_digits(s, i) == j,
    decreases j - i,
{
    if i < j {
        lemma_skip_digits_run(s, i + 1, j);
    }
}

proof fn lemma_trim_start_spaces(w: Seq<char>, d: Seq<char>)
    requires
        all_spaces(w),
    ensures
        trim_start(w + d) == trim_start(d),
    decreases w.len(),
{
    if w.len() > 0 {
        assert((w + d)[0] == w[0]);
        assert((w + d).drop_first() =~= w.drop_first() + d);
        lemma_trim_start_spaces(w.drop_first(), d);
    }
}

/// A line made of optional leading whitespace, a decimal id, whitespace, a
/// valid date and time separated by whitespace, whitespace and a description
/// is an entry line, and parsing it gives back exactly the id, the
/// timestamp and the trimmed description.
pub proof fn lemma_entry_round_trip(
    lead: Seq<char>,
    id: Seq<char>,
    gap1: Seq<char>,
    date: Seq<char>,
    gap2: Seq<char>,
    time: Seq<char>,
    gap3: Seq<char>,
    desc: Seq<char>,
)
    requires
        all_spaces(lead),
        id.len() > 0,
        all_digits(id),
        gap1.len() > 0,
        all_spaces(gap1),
        gap2.len() > 0,
        all_spaces(gap2),
        gap3.len() > 0,
        all_spaces(gap3),
        valid_timestamp(date, time),
    ensures
        ({
            let line = lead + id + gap1 + date + gap2 + time + gap3 + desc;
            &&& is_valid_entry(line)
            &&& entry_id(line) == id
            &&& entry_timestamp(line) == timestamp_of(date, time)
            &&& entry_description(line) == trim(desc)
        }),
{
    let line = lead + id + gap1 + date + gap2 + time + gap3 + desc;
    let dt = date + time;
    let a = lead.len() as int;
    let b = a + id.len();
    let c = b + gap1.len();
    let t = c + 10 + gap2.len();
    assert(forall|k: int| 0 <= k < a ==> line[k] == lead[k]);
    assert(forall|k: int| a <= k < b ==> line[k] == id[k - a]);
    assert(forall|k: int| b <= k < c ==> line[k] == gap1[k - b]);
    assert(forall|k: int| c <= k < c + 10 ==> line[k] == date[k - c] && line[k] == dt[k - c]);
    assert(forall|k: int| c + 10 <= k < t ==> line[k] == gap2[k - c - 10]);
    assert(forall|k: int| t <= k < t + 8 ==> line[k] == time[k - t] && line[k] == dt[k - t + 10]);
    assert(forall|k: int| t + 8 <= k < t + 8 + gap3.len() ==> line[k] == gap3[k - t - 8]);
    assert(crate::timestamp::date_shape_at(dt, 0));
    assert(crate::timestamp::time_shape_at(dt, 10));
    assert(is_digit(dt[0int + 0int]) && is_digit(dt[10int + 0int]));
    assert forall|k: int| 0 <= k < 10 && k != 4 && k != 7 implies is_digit(#[trigger] line[c + k]) by {
        assert(line[c + k] == dt[0 + k]);
    }
    assert forall|k: int| 0 <= k < 8 && k != 2 && k != 5 implies is_digit(#[trigger] line[t + k]) by {
        assert(line[t + k] == dt[10 + k]);
    }
    assert(line[c + 4] == dt[4] && line[c + 7] == dt[7]);
    assert(line[t + 2] == dt[12] && line[t + 5] == dt[15]);
    assert(crate::timestamp::date_shape_at(line, c));
    assert(crate::timestamp::time_shape_at(line, t));
    lemma_skip_spaces_run(line, 0, a);
    lemma_skip_digits_run(line, a, b);
    lemma_skip_spaces_run(line, b, c);
    lemma_skip_spaces_run(line, c + 10, t);
    assert(entry_layout(line) == (a, b, c, t));
    assert(line.subrange(a, b) =~= id);
    assert(timestamp_at(line, c, t) == timestamp_at(dt, 0, 10));
    assert(valid_timestamp_at(line, c, t));
    assert(is_entry(line));
    assert(line.subrange(t + 8, line.len() as int) =~= gap3 + desc);
    lemma_trim_start_spaces(gap3, desc);
}

} // verus!
