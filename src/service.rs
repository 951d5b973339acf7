//! The generation lister and differ. External commands are run by the
//! caller, which hands their captured output to these functions.
use vstd::prelude::*;
use crate::error::Error;
use crate::generation::{Generation, GenerationModel};
use crate::diff::{added_refs, dedup, diff_from_tool_output, diff_references, marked_items, modified_refs, removed_refs};
use crate::generation::GenerationDiff;
use crate::listing::{
    entry_description, entry_id, entry_timestamp, is_entry, is_valid_entry, match_entry,
    skip_digits,
};
use crate::text::{char_is_digit, trim};
use crate::text::{chars_of, lines_of, split_lines, trimmed};
use crate::timestamp::timestamp_from_chars;

verus! {

/// What an external command left behind: whether it exited successfully, and
/// its standard output and error output as text.
#[derive(Debug)]
pub struct CommandOutput {
    pub success: bool,
    pub stdout: String,
    pub stderr: String,
}

/// How a listing line that matches the grammar but names no valid point in
/// time is treated.
#[derive(Debug, Clone, Copy, PartialEq, Eq, Structural)]
pub enum ParseMode {
    /// The line is skipped.
    Permissive,
    /// The whole listing fails.
    Strict,
}

/// Reads generation listings and diffs for the profiles kept under one root
/// directory.
#[derive(Debug)]
pub struct NixService {
    pub profiles_root: String,
}

/// The link through which generation `id` is reachable under `root`.
pub open spec fn profile_link(root: Seq<char>, id: Seq<char>) -> Seq<char> {
    root + "/system-"@ + id + "-link"@
}

/// The generation that entry line `line` describes, for the profiles under
/// `root` and the current generation `current`.
pub open spec fn listed_generation(
    root: Seq<char>,
    line: Seq<char>,
    current: Seq<char>,
) -> GenerationModel {
    GenerationModel {
        id: entry_id(line),
        timestamp: entry_timestamp(line),
        description: Some(entry_description(line)),
        profiles: seq![profile_link(root, entry_id(line))],
        current: entry_id(line) == current,
    }
}

pub open spec fn valid_entry_pred() -> spec_fn(Seq<char>) -> bool {
    |l: Seq<char>| is_valid_entry(l)
}

/// The generations that a listing with lines `ls` describes: one for each
/// valid entry line, in order.
pub open spec fn listed(root: Seq<char>, ls: Seq<Seq<char>>, current: Seq<char>) -> Seq<
    GenerationModel,
> {
    ls.filter(valid_entry_pred()).map_values(|l: Seq<char>| listed_generation(root, l, current))
}

/// Some line of `ls` follows the entry grammar but names no valid point in
/// time.
pub open spec fn has_bad_entry(ls: Seq<Seq<char>>) -> bool {
    exists|i: int| 0 <= i < ls.len() && is_entry(#[trigger] ls[i]) && !is_valid_entry(ls[i])
}

/// `s` holds `p` at position `i`.
pub open spec fn holds_at(s: Seq<char>, i: int, p: Seq<char>) -> bool {
    0 <= i && i + p.len() <= s.len() && s.subrange(i, i + p.len()) == p
}

/// A generation link name `system-<digits>-link` starts at position `i` of `s`.
pub open spec fn link_name_at(s: Seq<char>, i: int) -> bool {
    let d = i + "system-"@.len();
    &&& holds_at(s, i, "system-"@)
    &&& skip_digits(s, d) > d
    &&& holds_at(s, skip_digits(s, d), "-link"@)
}

/// The first generation link name of `s` starts at `i`.
pub open spec fn first_link_name_at(s: Seq<char>, i: int) -> bool {
    link_name_at(s, i) && forall|j: int| 0 <= j < i ==> !link_name_at(s, j)
}

/// The digits of the link name that starts at `i`.
pub open spec fn link_id_at(s: Seq<char>, i: int) -> Seq<char> {
    let d = i + "system-"@.len();
    s.subrange(d, skip_digits(s, d))
}

/// `s` holds at position `i` the characters of `p`.
pub(crate) fn chars_at(s: &Vec<char>, i: usize, p: &Vec<char>) -> (r: bool)
    ensures
        r == holds_at(s@, i as int, p@),
{
    let n = s.len();
    if i > n || n - i < p.len() {
        return false;
    }
    let mut k: usize = 0;
    while k < p.len()
        invariant
            i + p@.len() <= s@.len() == n,
            k <= p@.len(),
            forall|m: int| 0 <= m < k ==> s@[i + m] == p@[m],
        decreases p@.len() - k,
    {
        if s[i + k] != p[k] {
            assert(s@.subrange(i as int, i + p@.len())[k as int] != p@[k as int]);
            return false;
        }
        k = k + 1;
    }
    assert(s@.subrange(i as int, i + p@.len()) =~= p@);
    true
}

/// The link command succeeded and its output names a generation.
pub open spec fn link_resolves(link: &CommandOutput) -> bool {
    link.success && exists|i: int| link_name_at(link.stdout@, i)
}

/// With no current id, no listed generation is current: ids are never
/// empty.
pub proof fn lemma_unresolved_marks_none(root: Seq<char>, ls: Seq<Seq<char>>, k: int)
    requires
        0 <= k < listed(root, ls, Seq::empty()).len(),
    ensures
        !listed(root, ls, Seq::empty())[k].current,
{
    let f = ls.filter(valid_entry_pred());
    ls.lemma_filter_pred(valid_entry_pred(), k);
    assert(is_valid_entry(f[k]));
    assert(entry_id(f[k]).len() > 0);
}

/// Compares two texts character by character.
pub fn same_text(a: &str, b: &str) -> (r: bool)
    ensures
        r == (a@ == b@),
{
    let x = chars_of(a);
    let y = chars_of(b);
    if x.len() != y.len() {
        return false;
    }
    let mut i: usize = 0;
    while i < x.len()
        invariant
            x@ == a@,
            y@ == b@,
            x@.len() == y@.len(),
            i <= x@.len(),
            forall|k: int| 0 <= k < i ==> x@[k] == y@[k],
        decreases x@.len() - i,
    {
        if x[i] != y[i] {
            return false;
        }
        i = i + 1;
    }
    assert(x@ =~= y@);
    true
}

impl NixService {
    /// A service for the system profiles under `/nix/var/nix/profiles`.
    pub fn new() -> (r: Self)
        ensures
            r.profiles_root@ == "/nix/var/nix/profiles"@,
    {
        NixService { profiles_root: "/nix/var/nix/profiles".to_string() }
    }

    /// A service for the profiles under `root`.
    pub fn with_root(root: &str) -> (r: Self)
        ensures
            r.profiles_root@ == root@,
    {
        NixService { profiles_root: root.to_string() }
    }

    /// The path of the profile itself, whose link names the current
    /// generation.
    pub fn system_profile(&self) -> (r: String)
        ensures
            r@ == self.profiles_root@ + "/system"@,
    {
        let mut p = self.profiles_root.clone();
        p.append("/system");
        p
    }

    /// The link through which generation `id` is reachable.
    pub fn profile_link(&self, id: &str) -> (r: String)
        ensures
            r@ == profile_link(self.profiles_root@, id@),
    {
        let mut p = self.profiles_root.clone();
        p.append("/system-");
        p.append(id);
        p.append("-link");
        p
    }

    /// The generation of one entry line, or `None` where its date and time
    /// name no valid point in time.
    fn entry_generation(&self, line: &str, cs: &Vec<char>, current_id: &str) -> (r: Option<
        Generation,
    >)
        requires
            cs@ == line@,
            is_entry(line@),
        ensures
            r is Some <==> is_valid_entry(line@),
            r is Some ==> r->Some_0@ == listed_generation(
                self.profiles_root@,
                line@,
                current_id@,
            ),
    {
        let n = cs.len();
        let (a, b, c, t) = match match_entry(cs) {
            Some(p) => p,
            None => {
                return None;
            },
        };
        let timestamp = match timestamp_from_chars(cs, c, t) {
            Some(ts) => ts,
            None => {
                return None;
            },
        };
        let id = line.substring_char(a, b).to_string();
        let description = trimmed(line.substring_char(t + 8, n));
        let link = self.profile_link(id.as_str());
        let current = same_text(id.as_str(), current_id);
        let profiles = vec![link];
        let g = Generation { id, timestamp, description: Some(description), profiles, current };
        assert(g@.profiles =~= seq![profile_link(self.profiles_root@, entry_id(line@))]);
        Some(g)
    }

    /// Parses a generation listing: one generation for each line that follows
    /// the entry grammar, in order; other lines are skipped. `current_id` is
    /// the id of the current generation. An entry line whose date or time
    /// names no valid point in time is skipped in permissive mode and fails
    /// the listing in strict mode.
    pub fn parse_generations_output(&self, output: &str, current_id: &str, mode: ParseMode) -> (r:
        Result<Vec<Generation>, Error>)
        ensures
            mode == ParseMode::Permissive ==> r is Ok,
            mode == ParseMode::Strict ==> (r is Err <==> has_bad_entry(lines_of(output@))),
            r is Ok ==> r->Ok_0@.map_values(|g: Generation| g@) == listed(
                self.profiles_root@,
                lines_of(output@),
                current_id@,
            ),
            r is Err ==> r->Err_0 is NixOutputParseFailed,
    {
        let lines = split_lines(output);
        let ghost ls = lines@.map_values(|l: String| l@);
        let ghost root = self.profiles_root@;
        let ghost cur = current_id@;
        let mut out: Vec<Generation> = Vec::new();
        let mut k: usize = 0;
        while k < lines.len()
            invariant
                ls == lines@.map_values(|l: String| l@),
                ls == lines_of(output@),
                k <= lines@.len(),
                out@.map_values(|g: Generation| g@) == listed(root, ls.take(k as int), cur),
                mode == ParseMode::Strict ==> !has_bad_entry(ls.take(k as int)),
                root == self.profiles_root@,
                cur == current_id@,
            decreases lines@.len() - k,
        {
            let line = lines[k].as_str();
            let cs = chars_of(line);
            let ghost before = out@.map_values(|g: Generation| g@);
            proof {
                reveal(Seq::filter);
                assert(ls.take(k + 1).drop_last() =~= ls.take(k as int));
                assert(ls.take(k + 1).last() == line@);
            }
            if match_entry(&cs).is_some() {
                match self.entry_generation(line, &cs, current_id) {
                    Some(g) => {
                        out.push(g);
                        assert(out@.map_values(|g: Generation| g@) =~= before.push(
                            listed_generation(root, line@, cur),
                        ));
                        assert(listed(root, ls.take(k + 1), cur) =~= listed(
                            root,
                            ls.take(k as int),
                            cur,
                        ).push(listed_generation(root, line@, cur)));
                    },
                    None => {
                        if mode == ParseMode::Strict {
                            proof {
                                assert(ls[k as int] == line@);
                                assert(has_bad_entry(ls));
                            }
                            return Err(Error::NixOutputParseFailed("invalid timestamp".to_string()));
                        }
                    },
                }
            }
            proof {
                if mode == ParseMode::Strict {
                    assert forall|i: int| 0 <= i < k + 1 && is_entry(
                        #[trigger] ls.take(k + 1)[i],
                    ) implies is_valid_entry(ls.take(k + 1)[i]) by {
                        if i < k {
                            assert(ls.take(k + 1)[i] == ls.take(k as int)[i]);
                        }
                    }
                }
            }
            k = k + 1;
        }
        assert(ls.take(k as int) =~= ls);
        Ok(out)
    }

    /// The id of the current generation, read from the target of the
    /// profile's link: the digits of its first `system-<digits>-link`.
    pub fn current_generation_id(&self, link_target: &str) -> (r: Result<String, Error>)
        ensures
            r is Ok <==> exists|i: int| link_name_at(link_target@, i),
            r is Ok ==> exists|i: int|
                first_link_name_at(link_target@, i) && r->Ok_0@ == link_id_at(link_target@, i),
            r is Err ==> r->Err_0 is NixOutputParseFailed,
    {
        let cs = chars_of(link_target);
        let prefix = chars_of("system-");
        let suffix = chars_of("-link");
        let n = cs.len();
        let ghost s = link_target@;
        proof {
            reveal_strlit("system-");
        }
        let mut i: usize = 0;
        while i < n
            invariant
                cs@ == s,
                s == link_target@,
                n == s.len(),
                prefix@ == "system-"@,
                suffix@ == "-link"@,
                i <= n,
                forall|j: int| 0 <= j < i ==> !link_name_at(s, j),
            decreases n - i,
        {
            if chars_at(&cs, i, &prefix) {
                let d = i + prefix.len();
                let mut e: usize = d;
                while e < n && char_is_digit(cs[e])
                    invariant
                        d <= e <= n,
                        n == cs@.len(),
                        cs@ == s,
                        s == link_target@,
                        i < n,
                        d == i + prefix@.len(),
                        holds_at(s, i as int, prefix@),
                        prefix@ == "system-"@,
                        suffix@ == "-link"@,
                        forall|j: int| 0 <= j < i ==> !link_name_at(s, j),
                        skip_digits(cs@, d as int) == skip_digits(cs@, e as int),
                    decreases n - e,
                {
                    e = e + 1;
                }
                if e > d && chars_at(&cs, e, &suffix) {
                    assert(link_name_at(s, i as int));
                    assert(first_link_name_at(s, i as int));
                    return Ok(link_target.substring_char(d, e).to_string());
                }
            }
            i = i + 1;
        }
        assert forall|j: int| !link_name_at(s, j) by {
            if j >= n {
                assert(!holds_at(s, j, "system-"@));
            }
        }
        Err(Error::NixOutputParseFailed("no generation link name in the profile target".to_string()))
    }

    /// Lists the generations from the captured output of the listing command
    /// and of the command that reads the profile's link. A failed listing
    /// command fails with its error output. Where the link cannot be read or
    /// names no generation, the listing is still returned, with no generation
    /// marked current.
    pub fn list_generations(&self, listing: &CommandOutput, link: &CommandOutput, mode: ParseMode) -> (r:
        Result<Vec<Generation>, Error>)
        ensures
            !listing.success ==> r is Err && r->Err_0 is NixCommandFailed
                && r->Err_0->NixCommandFailed_0@ == listing.stderr@,
            listing.success ==> {
                &&& mode == ParseMode::Permissive ==> r is Ok
                &&& mode == ParseMode::Strict ==> (r is Err <==> has_bad_entry(
                    lines_of(listing.stdout@),
                ))
                &&& r is Err ==> r->Err_0 is NixOutputParseFailed
            },
            listing.success && link_resolves(link) && r is Ok ==> exists|i: int|
                first_link_name_at(link.stdout@, i) && r->Ok_0@.map_values(|g: Generation| g@)
                    == listed(
                    self.profiles_root@,
                    lines_of(listing.stdout@),
                    link_id_at(link.stdout@, i),
                ),
            listing.success && !link_resolves(link) && r is Ok ==> {
                &&& r->Ok_0@.map_values(|g: Generation| g@) == listed(
                    self.profiles_root@,
                    lines_of(listing.stdout@),
                    Seq::empty(),
                )
                &&& forall|k: int| 0 <= k < r->Ok_0@.len() ==> !(#[trigger] r->Ok_0@[k]).current
            },
    {
        if !listing.success {
            return Err(Error::NixCommandFailed(listing.stderr.clone()));
        }
        let current = if link.success {
            match self.current_generation_id(link.stdout.as_str()) {
                Ok(id) => id,
                Err(_) => String::new(),
            }
        } else {
            String::new()
        };
        let r = self.parse_generations_output(listing.stdout.as_str(), current.as_str(), mode);
        proof {
            if !link_resolves(link) && r is Ok {
                let v = r->Ok_0@;
                assert forall|k: int| 0 <= k < v.len() implies !(#[trigger] v[k]).current by {
                    assert(v.map_values(|g: Generation| g@)[k] == v[k]@);
                    lemma_unresolved_marks_none(
                        self.profiles_root@,
                        lines_of(listing.stdout@),
                        k,
                    );
                }
            }
        }
        r
    }

    /// The store path of generation `id`, from the captured output of the
    /// query for its recorded output path: the output trimmed, or
    /// `GenerationNotFound` where the query failed.
    pub fn store_path(&self, id: &str, query: &CommandOutput) -> (r: Result<String, Error>)
        ensures
            query.success ==> r is Ok && r->Ok_0@ == trim(query.stdout@),
            !query.success ==> r is Err && r->Err_0 is GenerationNotFound
                && r->Err_0->GenerationNotFound_0@ == id@,
    {
        if !query.success {
            return Err(Error::GenerationNotFound(id.to_string()));
        }
        Ok(trimmed(query.stdout.as_str()))
    }

    /// The diff from the captured output of the structural diff tool run on
    /// the two generations' store paths; a failed run fails with its error
    /// output.
    pub fn get_diff(&self, tool: &CommandOutput) -> (r: Result<GenerationDiff, Error>)
        ensures
            tool.success ==> r is Ok && r->Ok_0@.added == marked_items(lines_of(tool.stdout@), '+')
                && r->Ok_0@.removed == marked_items(lines_of(tool.stdout@), '-')
                && r->Ok_0@.modified == marked_items(lines_of(tool.stdout@), '~'),
            !tool.success ==> r is Err && r->Err_0 is NixCommandFailed
                && r->Err_0->NixCommandFailed_0@ == tool.stderr@,
    {
        if !tool.success {
            return Err(Error::NixCommandFailed(tool.stderr.clone()));
        }
        self.parse_diff_output(tool.stdout.as_str())
    }

    /// The diff between two generations from the captured output of the
    /// two queries for their direct dependencies, one identifier per line
    /// (see [`diff_references`]). A failed query fails with its error output,
    /// the source's first.
    pub fn diff_reference_queries(&self, from: &CommandOutput, to: &CommandOutput) -> (r: Result<
        GenerationDiff,
        Error,
    >)
        ensures
            !from.success ==> r is Err && r->Err_0 is NixCommandFailed
                && r->Err_0->NixCommandFailed_0@ == from.stderr@,
            from.success && !to.success ==> r is Err && r->Err_0 is NixCommandFailed
                && r->Err_0->NixCommandFailed_0@ == to.stderr@,
            from.success && to.success ==> r is Ok && ({
                let (f, t) = (dedup(lines_of(from.stdout@)), dedup(lines_of(to.stdout@)));
                &&& r->Ok_0@.added == added_refs(f, t)
                &&& r->Ok_0@.removed == removed_refs(f, t)
                &&& r->Ok_0@.modified == modified_refs(f, t)
            }),
    {
        if !from.success {
            return Err(Error::NixCommandFailed(from.stderr.clone()));
        }
        if !to.success {
            return Err(Error::NixCommandFailed(to.stderr.clone()));
        }
        Ok(diff_references(from.stdout.as_str(), to.stdout.as_str()))
    }

    /// The diff between generations `from_id` and `to_id` from the captured
    /// output of the two queries for their store paths and of the structural
    /// diff tool run on those paths. The lookups are taken in order: the
    /// first that failed gives `GenerationNotFound` for its id; then a failed
    /// tool run fails with its error output.
    pub fn diff_generations(
        &self,
        from_id: &str,
        to_id: &str,
        from_query: &CommandOutput,
        to_query: &CommandOutput,
        tool: &CommandOutput,
    ) -> (r: Result<GenerationDiff, Error>)
        ensures
            !from_query.success ==> r is Err && r->Err_0 is GenerationNotFound
                && r->Err_0->GenerationNotFound_0@ == from_id@,
            from_query.success && !to_query.success ==> r is Err && r->Err_0 is GenerationNotFound
                && r->Err_0->GenerationNotFound_0@ == to_id@,
            from_query.success && to_query.success && !tool.success ==> r is Err
                && r->Err_0 is NixCommandFailed && r->Err_0->NixCommandFailed_0@ == tool.stderr@,
            from_query.success && to_query.success && tool.success ==> r is Ok
                && r->Ok_0@.added == marked_items(lines_of(tool.stdout@), '+')
                && r->Ok_0@.removed == marked_items(lines_of(tool.stdout@), '-')
                && r->Ok_0@.modified == marked_items(lines_of(tool.stdout@), '~'),
    {
        self.store_path(from_id, from_query)?;
        self.store_path(to_id, to_query)?;
        self.get_diff(tool)
    }

    /// Reads the output of the structural diff tool (see
    /// [`diff_from_tool_output`]).
    pub fn parse_diff_output(&self, output: &str) -> (r: Result<GenerationDiff, Error>)
        ensures
            r is Ok,
            r->Ok_0@.added == marked_items(lines_of(output@), '+'),
            r->Ok_0@.removed == marked_items(lines_of(output@), '-'),
            r->Ok_0@.modified == marked_items(lines_of(output@), '~'),
    {
        Ok(diff_from_tool_output(output))
    }
}

} // verus!
