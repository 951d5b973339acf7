//! Classification of the change between two generations.
//!
//! Dependency identifiers follow `<hash>-<name>-<version...>`; the package
//! name of an identifier is its second hyphen-separated segment, or empty
//! where there is none.
use vstd::prelude::*;
use crate::generation::GenerationDiff;
use crate::text::{chars_of, lines_of, split_lines, trim, trimmed};
use crate::service::same_text;

verus! {

/// The first position at or after `i` that holds a hyphen, or the length.
pub open spec fn hyphen_from(s: Seq<char>, i: int) -> int
    decreases s.len() - i,
{
    if i < 0 || i >= s.len() {
        s.len() as int
    } else if s[i] == '-' {
        i
    } else {
        hyphen_from(s, i + 1)
    }
}

/// The second hyphen-separated segment of `s`, or the empty sequence where
/// `s` has no hyphen.
pub open spec fn package_name(s: Seq<char>) -> Seq<char> {
    let i = hyphen_from(s, 0);
    if i >= s.len() {
        Seq::empty()
    } else {
        s.subrange(i + 1, hyphen_from(s, i + 1))
    }
}

pub open spec fn absent_from(v: Seq<Seq<char>>) -> spec_fn(Seq<char>) -> bool {
    |x: Seq<char>| !v.contains(x)
}

/// `x` shares its package name with an element of `v` that differs from it.
pub open spec fn renamed_in(v: Seq<Seq<char>>, x: Seq<char>) -> bool {
    exists|k: int| 0 <= k < v.len() && package_name(#[trigger] v[k]) == package_name(x) && v[k] != x
}

pub open spec fn renamed_pred(v: Seq<Seq<char>>) -> spec_fn(Seq<char>) -> bool {
    |x: Seq<char>| renamed_in(v, x)
}

/// The elements of `to` that `from` lacks, in the order of `to`.
pub open spec fn added_refs(from: Seq<Seq<char>>, to: Seq<Seq<char>>) -> Seq<Seq<char>> {
    to.filter(absent_from(from))
}

/// The elements of `from` that `to` lacks, in the order of `from`.
pub open spec fn removed_refs(from: Seq<Seq<char>>, to: Seq<Seq<char>>) -> Seq<Seq<char>> {
    from.filter(absent_from(to))
}

/// The elements of `from` whose package name some different element of `to`
/// carries, in the order of `from`.
pub open spec fn modified_refs(from: Seq<Seq<char>>, to: Seq<Seq<char>>) -> Seq<Seq<char>> {
    from.filter(renamed_pred(to))
}

/// A line of diff-tool output, trimmed, starts with `marker`.
pub open spec fn marked_line(marker: char) -> spec_fn(Seq<char>) -> bool {
    |l: Seq<char>| trim(l).len() > 0 && trim(l)[0] == marker
}

/// The item a marked line names: what follows the marker, trimmed.
pub open spec fn marked_item(l: Seq<char>) -> Seq<char> {
    trim(trim(l).drop_first())
}

/// The items of the lines of `ls` that carry `marker`, in order.
pub open spec fn marked_items(ls: Seq<Seq<char>>, marker: char) -> Seq<Seq<char>> {
    ls.filter(marked_line(marker)).map_values(|l: Seq<char>| marked_item(l))
}

pub open spec fn views(v: Seq<String>) -> Seq<Seq<char>> {
    v.map_values(|s: String| s@)
}

/// An element is kept by a filter exactly when it is in the sequence and
/// satisfies the predicate.
pub proof fn lemma_filter_contains_iff<A>(s: Seq<A>, p: spec_fn(A) -> bool, x: A)
    ensures
        s.filter(p).contains(x) <==> (s.contains(x) && p(x)),
    decreases s.len(),
{
    reveal(Seq::filter);
    if s.len() > 0 {
        lemma_filter_contains_iff(s.drop_last(), p, x);
        let sub = s.drop_last().filter(p);
        if s.filter(p).contains(x) {
            if p(s.last()) {
                let k = choose|k: int| 0 <= k < s.filter(p).len() && s.filter(p)[k] == x;
                if k < sub.len() {
                    assert(sub[k] == x);
                    let m = choose|m: int| 0 <= m < s.drop_last().len() && s.drop_last()[m] == x;
                    assert(s[m] == x);
                } else {
                    assert(s[s.len() - 1] == x);
                }
            } else {
                let m = choose|m: int| 0 <= m < s.drop_last().len() && s.drop_last()[m] == x;
                assert(s[m] == x);
            }
        }
        if s.contains(x) && p(x) {
            let k = choose|k: int| 0 <= k < s.len() && s[k] == x;
            if k < s.len() - 1 {
                assert(s.drop_last()[k] == x);
                let m = choose|m: int| 0 <= m < sub.len() && sub[m] == x;
                assert(s.filter(p)[m] == x);
            } else {
                assert(s.filter(p)[sub.len() as int] == x);
            }
        }
    }
}

/// `s` with every repeated element removed, first occurrence kept.
pub open spec fn dedup(s: Seq<Seq<char>>) -> Seq<Seq<char>>
    decreases s.len(),
{
    if s.len() == 0 {
        s
    } else if s.drop_last().contains(s.last()) {
        dedup(s.drop_last())
    } else {
        dedup(s.drop_last()).push(s.last())
    }
}

/// Removing repeats keeps exactly the same elements, each once.
pub proof fn lemma_dedup(s: Seq<Seq<char>>)
    ensures
        forall|x: Seq<char>| #[trigger] dedup(s).contains(x) <==> s.contains(x),
        dedup(s).no_duplicates(),
    decreases s.len(),
{
    if s.len() > 0 {
        let p = s.drop_last();
        lemma_dedup(p);
        assert forall|x: Seq<char>| #[trigger] s.contains(x) <==> (p.contains(x) || x == s.last()) by {
            if s.contains(x) {
                let k = choose|k: int| 0 <= k < s.len() && s[k] == x;
                if k < s.len() - 1 {
                    assert(p[k] == x);
                }
            }
            if p.contains(x) {
                let k = choose|k: int| 0 <= k < p.len() && p[k] == x;
                assert(s[k] == x);
            }
            if x == s.last() {
                assert(s[s.len() - 1] == x);
            }
        }
        if !p.contains(s.last()) {
            let d = dedup(p);
            assert forall|x: Seq<char>| #[trigger] d.push(s.last()).contains(x) <==> (d.contains(x)
                || x == s.last()) by {
                if d.push(s.last()).contains(x) {
                    let k = choose|k: int| 0 <= k < d.len() + 1 && d.push(s.last())[k] == x;
                    if k < d.len() {
                        assert(d[k] == x);
                    }
                }
                if d.contains(x) {
                    let k = choose|k: int| 0 <= k < d.len() && d[k] == x;
                    assert(d.push(s.last())[k] == x);
                }
                if x == s.last() {
                    assert(d.push(s.last())[d.len() as int] == x);
                }
            }
            assert forall|i: int, j: int|
                0 <= i < d.len() + 1 && 0 <= j < d.len() + 1 && i != j implies d.push(
                s.last(),
            )[i] != d.push(s.last())[j] by {
                if i == d.len() {
                    assert(!d.contains(s.last()));
                    assert(d.push(s.last())[j] == d[j]);
                } else if j == d.len() {
                    assert(!d.contains(s.last()));
                    assert(d.push(s.last())[i] == d[i]);
                }
            }
        }
    }
}

/// A filter of a sequence without repeats has no repeats.
pub proof fn lemma_filter_no_duplicates(s: Seq<Seq<char>>, p: spec_fn(Seq<char>) -> bool)
    requires
        s.no_duplicates(),
    ensures
        s.filter(p).no_duplicates(),
    decreases s.len(),
{
    reveal(Seq::filter);
    if s.len() > 0 {
        let q = s.drop_last();
        assert(q.no_duplicates());
        lemma_filter_no_duplicates(q, p);
        let f = q.filter(p);
        if p(s.last()) {
            lemma_filter_contains_iff(q, p, s.last());
            assert(!q.contains(s.last())) by {
                if q.contains(s.last()) {
                    let k = choose|k: int| 0 <= k < q.len() && q[k] == s.last();
                    assert(s[k] == s[s.len() - 1]);
                }
            }
            assert forall|i: int, j: int|
                0 <= i < f.len() + 1 && 0 <= j < f.len() + 1 && i != j implies f.push(
                s.last(),
            )[i] != f.push(s.last())[j] by {
                if i == f.len() {
                    assert(f.push(s.last())[j] == f[j]);
                } else if j == f.len() {
                    assert(f.push(s.last())[i] == f[i]);
                }
            }
        }
    }
}

/// `v` with every repeated element removed, first occurrence kept.
fn dedup_texts(v: &Vec<String>) -> (r: Vec<String>)
    ensures
        views(r@) == dedup(views(v@)),
{
    let ghost s = views(v@);
    let mut r: Vec<String> = Vec::new();
    let mut k: usize = 0;
    while k < v.len()
        invariant
            k <= v@.len(),
            s == views(v@),
            views(r@) == dedup(s.take(k as int)),
        decreases v@.len() - k,
    {
        let ghost pre = s.take(k as int);
        proof {
            assert(s.take(k + 1).drop_last() =~= pre);
            assert(s.take(k + 1).last() == v@[k as int]@);
            lemma_dedup(pre);
        }
        if !contains_text(&r, v[k].as_str()) {
            let ghost before = views(r@);
            r.push(v[k].clone());
            assert(views(r@) =~= before.push(v@[k as int]@));
        }
        k = k + 1;
    }
    assert(s.take(k as int) =~= s);
    r
}

fn hyphen_at_or_after(cs: &Vec<char>, i: usize) -> (r: usize)
    requires
        i <= cs@.len(),
    ensures
        r == hyphen_from(cs@, i as int),
        i <= r <= cs@.len(),
{
    let mut j: usize = i;
    while j < cs.len() && cs[j] != '-'
        invariant
            i <= j <= cs@.len(),
            hyphen_from(cs@, i as int) == hyphen_from(cs@, j as int),
        decreases cs@.len() - j,
    {
        j = j + 1;
    }
    j
}

/// The package name of a dependency identifier: its second hyphen-separated
/// segment, or the empty string where it has no hyphen.
pub fn package_name_of(id: &str) -> (r: String)
    ensures
        r@ == package_name(id@),
{
    let cs = chars_of(id);
    let n = cs.len();
    let i = hyphen_at_or_after(&cs, 0);
    if i >= n {
        return String::new();
    }
    let j = hyphen_at_or_after(&cs, i + 1);
    id.substring_char(i + 1, j).to_string()
}

/// Whether `v` holds an element equal to `x`.
fn contains_text(v: &Vec<String>, x: &str) -> (r: bool)
    ensures
        r == views(v@).contains(x@),
{
    let mut k: usize = 0;
    while k < v.len()
        invariant
            k <= v@.len(),
            forall|m: int| 0 <= m < k ==> v@[m]@ != x@,
        decreases v@.len() - k,
    {
        if same_text(v[k].as_str(), x) {
            assert(views(v@)[k as int] == x@);
            return true;
        }
        k = k + 1;
    }
    assert forall|m: int| 0 <= m < views(v@).len() implies views(v@)[m] != x@ by {
        assert(views(v@)[m] == v@[m]@);
    }
    false
}

/// Whether an element of `v` other than `x` has the package name `name`,
/// which is that of `x`.
fn has_renamed(v: &Vec<String>, x: &str, name: &String) -> (r: bool)
    requires
        name@ == package_name(x@),
    ensures
        r == renamed_in(views(v@), x@),
{
    let mut k: usize = 0;
    while k < v.len()
        invariant
            k <= v@.len(),
            name@ == package_name(x@),
            forall|m: int|
                0 <= m < k ==> !(package_name(v@[m]@) == package_name(x@) && v@[m]@ != x@),
        decreases v@.len() - k,
    {
        let other = package_name_of(v[k].as_str());
        if same_text(other.as_str(), name.as_str()) && !same_text(v[k].as_str(), x) {
            assert(views(v@)[k as int] == v@[k as int]@);
            return true;
        }
        k = k + 1;
    }
    assert forall|m: int| 0 <= m < views(v@).len() implies !(package_name(
        #[trigger] views(v@)[m],
    ) == package_name(x@) && views(v@)[m] != x@) by {
        assert(views(v@)[m] == v@[m]@);
    }
    false
}

/// Classifies the change between two lists; `added`, `removed` and
/// `modified` are drawn by filters over `to`, `from` and `from`.
fn classify_lists(from: &Vec<String>, to: &Vec<String>) -> (r: GenerationDiff)
    ensures
        r@.added == added_refs(views(from@), views(to@)),
        r@.removed == removed_refs(views(from@), views(to@)),
        r@.modified == modified_refs(views(from@), views(to@)),
{
    let ghost f = views(from@);
    let ghost t = views(to@);
    let mut added: Vec<String> = Vec::new();
    let mut k: usize = 0;
    while k < to.len()
        invariant
            k <= to@.len(),
            f == views(from@),
            t == views(to@),
            views(added@) == t.take(k as int).filter(absent_from(f)),
        decreases to@.len() - k,
    {
        proof {
            reveal(Seq::filter);
            assert(t.take(k + 1).drop_last() =~= t.take(k as int));
            assert(t.take(k + 1).last() == to@[k as int]@);
        }
        if !contains_text(from, to[k].as_str()) {
            let ghost before = views(added@);
            added.push(to[k].clone());
            assert(views(added@) =~= before.push(to@[k as int]@));
        }
        k = k + 1;
    }
    assert(t.take(k as int) =~= t);
    let mut removed: Vec<String> = Vec::new();
    let mut modified: Vec<String> = Vec::new();
    let mut k: usize = 0;
    while k < from.len()
        invariant
            k <= from@.len(),
            f == views(from@),
            t == views(to@),
            views(added@) == added_refs(f, t),
            views(removed@) == f.take(k as int).filter(absent_from(t)),
            views(modified@) == f.take(k as int).filter(renamed_pred(t)),
        decreases from@.len() - k,
    {
        proof {
            reveal(Seq::filter);
            assert(f.take(k + 1).drop_last() =~= f.take(k as int));
            assert(f.take(k + 1).last() == from@[k as int]@);
        }
        let x = from[k].as_str();
        if !contains_text(to, x) {
            let ghost before = views(removed@);
            removed.push(from[k].clone());
            assert(views(removed@) =~= before.push(from@[k as int]@));
        }
        let name = package_name_of(x);
        if has_renamed(to, x, &name) {
            let ghost before = views(modified@);
            modified.push(from[k].clone());
            assert(views(modified@) =~= before.push(from@[k as int]@));
        }
        k = k + 1;
    }
    assert(f.take(k as int) =~= f);
    GenerationDiff { added, removed, modified }
}

/// Classifies the change from the dependency set `from` to the set `to`,
/// each list taken once per distinct element: `added` holds the elements of
/// `to` absent from `from`, `removed` those of `from` absent from `to`, and
/// `modified` those of `from` whose package name a different element of `to`
/// carries. Each result has no repeats and keeps the order of first
/// occurrence in the list it is drawn from; `removed` and `modified` may
/// overlap.
pub fn classify(from: &Vec<String>, to: &Vec<String>) -> (r: GenerationDiff)
    ensures
        r@.added == added_refs(dedup(views(from@)), dedup(views(to@))),
        r@.removed == removed_refs(dedup(views(from@)), dedup(views(to@))),
        r@.modified == modified_refs(dedup(views(from@)), dedup(views(to@))),
        r@.added.no_duplicates(),
        r@.removed.no_duplicates(),
        r@.modified.no_duplicates(),
{
    let f = dedup_texts(from);
    let t = dedup_texts(to);
    proof {
        lemma_dedup(views(from@));
        lemma_dedup(views(to@));
        lemma_filter_no_duplicates(views(t@), absent_from(views(f@)));
        lemma_filter_no_duplicates(views(f@), absent_from(views(t@)));
        lemma_filter_no_duplicates(views(f@), renamed_pred(views(t@)));
    }
    classify_lists(&f, &t)
}

/// The items of the lines of `lines` that carry `marker`, in order.
fn marked_lines(lines: &Vec<String>, marker: char) -> (r: Vec<String>)
    ensures
        views(r@) == marked_items(views(lines@), marker),
{
    let ghost ls = views(lines@);
    let mut r: Vec<String> = Vec::new();
    let mut k: usize = 0;
    while k < lines.len()
        invariant
            k <= lines@.len(),
            ls == views(lines@),
            views(r@) == marked_items(ls.take(k as int), marker),
        decreases lines@.len() - k,
    {
        proof {
            reveal(Seq::filter);
            assert(ls.take(k + 1).drop_last() =~= ls.take(k as int));
            assert(ls.take(k + 1).last() == lines@[k as int]@);
        }
        let line = trimmed(lines[k].as_str());
        let cs = chars_of(line.as_str());
        let n = cs.len();
        if n > 0 && cs[0] == marker {
            let item = trimmed(line.as_str().substring_char(1, n));
            assert(line@.subrange(1, n as int) =~= line@.drop_first());
            let ghost before = views(r@);
            r.push(item);
            assert(views(r@) =~= before.push(marked_item(lines@[k as int]@)));
            assert(marked_items(ls.take(k + 1), marker) =~= marked_items(
                ls.take(k as int),
                marker,
            ).push(marked_item(lines@[k as int]@)));
        }
        k = k + 1;
    }
    assert(ls.take(k as int) =~= ls);
    r
}

/// Reads the output of a structural diff tool: a line that starts with `+`
/// names an added item, `-` a removed one and `~` a modified one, after
/// trimming the line and then the marker's remainder. Other lines are
/// skipped.
pub fn diff_from_tool_output(output: &str) -> (r: GenerationDiff)
    ensures
        r@.added == marked_items(lines_of(output@), '+'),
        r@.removed == marked_items(lines_of(output@), '-'),
        r@.modified == marked_items(lines_of(output@), '~'),
{
    let lines = split_lines(output);
    let added = marked_lines(&lines, '+');
    let removed = marked_lines(&lines, '-');
    let modified = marked_lines(&lines, '~');
    GenerationDiff { added, removed, modified }
}

/// Compares two dependency listings, one identifier per line, as
/// [`classify`] does.
pub fn diff_references(from_output: &str, to_output: &str) -> (r: GenerationDiff)
    ensures
        r@.added == added_refs(dedup(lines_of(from_output@)), dedup(lines_of(to_output@))),
        r@.removed == removed_refs(dedup(lines_of(from_output@)), dedup(lines_of(to_output@))),
        r@.modified == modified_refs(dedup(lines_of(from_output@)), dedup(lines_of(to_output@))),
        r@.added.no_duplicates(),
        r@.removed.no_duplicates(),
        r@.modified.no_duplicates(),
{
    let from = split_lines(from_output);
    let to = split_lines(to_output);
    classify(&from, &to)
}

} // verus!
