//! Choosing benchmarks by name: all of them, exactly named ones, or by
//! prefixes and suffixes, with a report of filter entries that matched
//! nothing (to catch typos).
use super::Benchmark;
use crate::sorting::{
    insert_sorted, keys_distinct, lemma_insert_sorted_at, lemma_sort_stable_keys_distinct,
    lemma_sort_stable_permutation, lemma_sort_stable_sorted, lemma_sort_stable_step, sort_stable,
    sorted_by, total_preorder,
};
use crate::text::{
    chars_le, chars_le_exec, lemma_chars_le_total, lemma_chars_le_transitive, str_chars,
    str_ends_with, str_eq, str_starts_with, string_views,
};
use vstd::prelude::*;

verus! {

/// Which benchmarks to select.
pub enum CompileBenchmarkFilter<'a> {
    All,
    /// Benchmarks exactly matching the given names.
    Exact(&'a [String]),
    /// Benchmarks matching the given prefixes and suffixes.
    Fuzzy { includes: &'a [String], exclude: &'a [String], exclude_suffix: &'a [String] },
}

/// How a filter entry is compared with a benchmark name.
#[derive(Clone, Copy, Debug, PartialEq, Eq, Structural)]
pub enum MatchKind {
    Prefix,
    Suffix,
}

pub open spec fn entry_matches(entry: Seq<char>, name: Seq<char>, kind: MatchKind) -> bool {
    match kind {
        MatchKind::Prefix => entry.is_prefix_of(name),
        MatchKind::Suffix => entry.is_suffix_of(name),
    }
}

/// The first entry, in list order, that matches `name`.
pub open spec fn first_match(entries: Seq<Seq<char>>, name: Seq<char>, kind: MatchKind) -> Option<
    int,
>
    decreases entries.len(),
{
    if entries.len() == 0 {
        None
    } else if entry_matches(entries[0], name, kind) {
        Some(0)
    } else {
        match first_match(entries.drop_first(), name, kind) {
            Some(i) => Some(i + 1),
            None => None,
        }
    }
}

/// `first_match` names the first matching entry, and exists exactly when
/// some entry matches.
pub proof fn lemma_first_match(entries: Seq<Seq<char>>, name: Seq<char>, kind: MatchKind)
    ensures
        first_match(entries, name, kind) is Some <==> any_match(entries, name, kind),
        first_match(entries, name, kind) matches Some(i) ==> 0 <= i < entries.len()
            && entry_matches(entries[i], name, kind) && forall|k: int|
            0 <= k < i ==> !entry_matches(#[trigger] entries[k], name, kind),
    decreases entries.len(),
{
    if entries.len() > 0 && !entry_matches(entries[0], name, kind) {
        let d = entries.drop_first();
        lemma_first_match(d, name, kind);
        if any_match(entries, name, kind) {
            let i = choose|i: int| 0 <= i < entries.len() && entry_matches(#[trigger] entries[i], name, kind);
            assert(d[i - 1] == entries[i]);
        }
        if any_match(d, name, kind) {
            let i = choose|i: int| 0 <= i < d.len() && entry_matches(#[trigger] d[i], name, kind);
            assert(entries[i + 1] == d[i]);
        }
        if first_match(entries, name, kind) is Some {
            let i = first_match(d, name, kind)->Some_0;
            assert forall|k: int| 0 <= k < i + 1 implies !entry_matches(#[trigger] entries[k], name, kind) by {
                if k > 0 {
                    assert(entries[k] == d[k - 1]);
                }
            }
        }
    }
}

/// Some entry matches `name`.
pub open spec fn any_match(entries: Seq<Seq<char>>, name: Seq<char>, kind: MatchKind) -> bool {
    exists|i: int| 0 <= i < entries.len() && entry_matches(#[trigger] entries[i], name, kind)
}

/// The entries without repeats, each where it first occurs.
pub open spec fn dedup(s: Seq<Seq<char>>) -> Seq<Seq<char>>
    decreases s.len(),
{
    if s.len() == 0 {
        s
    } else {
        let d = dedup(s.drop_last());
        if d.contains(s.last()) {
            d
        } else {
            d.push(s.last())
        }
    }
}

/// Filter entries with the number of benchmark names each was the first, in
/// list order, to match (no entry occurs twice).
pub struct SubstringCounts {
    pub entries: Vec<String>,
    pub counts: Vec<usize>,
}

impl SubstringCounts {
    pub open spec fn entry_views(&self) -> Seq<Seq<char>> {
        string_views(self.entries@)
    }

    pub open spec fn wf(&self) -> bool {
        &&& self.entries@.len() == self.counts@.len()
        &&& self.entry_views().no_duplicates()
    }

    /// The distinct entries of `xyz`, none used yet.
    pub fn from_entries(xyz: &[String]) -> (r: SubstringCounts)
        ensures
            r.wf(),
            r.entry_views() == dedup(string_views(xyz@)),
            forall|k: int| 0 <= k < r.counts@.len() ==> #[trigger] r.counts@[k] == 0,
    {
        let mut entries: Vec<String> = Vec::new();
        let mut counts: Vec<usize> = Vec::new();
        let mut i: usize = 0;
        while i < xyz.len()
            invariant
                i <= xyz.len(),
                entries@.len() == counts@.len(),
                string_views(entries@) == dedup(string_views(xyz@.take(i as int))),
                string_views(entries@).no_duplicates(),
                forall|k: int| 0 <= k < counts@.len() ==> #[trigger] counts@[k] == 0,
            decreases xyz.len() - i,
        {
            let ghost before = string_views(entries@);
            assert(string_views(xyz@.take(i + 1)).drop_last() =~= string_views(xyz@.take(i as int)));
            assert(string_views(xyz@.take(i + 1)).last() == xyz@[i as int]@);
            let mut seen = false;
            let mut k: usize = 0;
            while k < entries.len()
                invariant
                    i < xyz@.len(),
                    k <= entries@.len(),
                    seen <==> exists|m: int| 0 <= m < k && (#[trigger] entries@[m])@ == xyz@[i as int]@,
                decreases entries.len() - k,
            {
                if str_eq(entries[k].as_str(), xyz[i].as_str()) {
                    seen = true;
                }
                k = k + 1;
            }
            proof {
                if seen {
                    let m = choose|m: int| 0 <= m < k && (#[trigger] entries@[m])@ == xyz@[i as int]@;
                    assert(before[m] == xyz@[i as int]@);
                } else {
                    assert forall|m: int| 0 <= m < before.len() implies before[m] != xyz@[i as int]@ by {
                        assert(before[m] == entries@[m]@);
                    }
                }
            }
            if !seen {
                entries.push(xyz[i].clone());
                counts.push(0);
                assert(string_views(entries@) =~= before.push(xyz@[i as int]@));
            }
            i = i + 1;
        }
        assert(xyz@.take(xyz@.len() as int) =~= xyz@);
        SubstringCounts { entries, counts }
    }
}

/// Whether some entry matches `name`. The entries are tried in list order
/// until one matches; that one, and only that one, is counted once more.
/// Every other count stays as it was.
pub fn substring_matches(substrings: &mut SubstringCounts, name: &str, kind: MatchKind) -> (r: bool)
    requires
        old(substrings).wf(),
        forall|k: int| 0 <= k < old(substrings).counts@.len() ==> #[trigger] old(substrings).counts@[k] < usize::MAX,
    ensures
        final(substrings).wf(),
        final(substrings).entries@ == old(substrings).entries@,
        r == any_match(old(substrings).entry_views(), name@, kind),
        match first_match(old(substrings).entry_views(), name@, kind) {
            Some(i) => final(substrings).counts@ == old(substrings).counts@.update(
                i,
                (old(substrings).counts@[i] + 1) as usize,
            ),
            None => final(substrings).counts@ == old(substrings).counts@,
        },
{
    let ghost ev = substrings.entry_views();
    proof {
        lemma_first_match(ev, name@, kind);
    }
    let mut i: usize = 0;
    while i < substrings.entries.len()
        invariant
            substrings.wf(),
            ev == substrings.entry_views(),
            substrings.entries@ == old(substrings).entries@,
            substrings.counts@ == old(substrings).counts@,
            forall|k: int|
                0 <= k < old(substrings).counts@.len() ==> #[trigger] old(substrings).counts@[k]
                    < usize::MAX,
            i <= substrings.entries@.len(),
            forall|k: int| 0 <= k < i ==> !entry_matches(#[trigger] ev[k], name@, kind),
            first_match(ev, name@, kind) is Some <==> any_match(ev, name@, kind),
            first_match(ev, name@, kind) matches Some(f) ==> 0 <= f < ev.len() && entry_matches(
                ev[f],
                name@,
                kind,
            ) && forall|k: int| 0 <= k < f ==> !entry_matches(#[trigger] ev[k], name@, kind),
        decreases substrings.entries.len() - i,
    {
        let m = match kind {
            MatchKind::Prefix => str_starts_with(name, substrings.entries[i].as_str()),
            MatchKind::Suffix => str_ends_with(name, substrings.entries[i].as_str()),
        };
        assert(ev[i as int] == substrings.entries@[i as int]@);
        if m {
            let ghost f = first_match(ev, name@, kind)->Some_0;
            assert(f == i) by {
                if f < i {
                } else if f > i {
                }
            }
            let c = substrings.counts[i];
            substrings.counts.set(i, c + 1);
            return true;
        }
        i = i + 1;
    }
    false
}

/// The indices of the names that `keep` holds of, in order.
pub open spec fn selected_spec(names: Seq<Seq<char>>, keep: spec_fn(Seq<char>) -> bool) -> Seq<int>
    decreases names.len(),
{
    if names.len() == 0 {
        Seq::empty()
    } else {
        selected_spec(names.drop_last(), keep) + if keep(names.last()) {
            seq![names.len() - 1]
        } else {
            Seq::<int>::empty()
        }
    }
}

/// Whether a name passes the prefix and suffix filters: it starts with some
/// included prefix (when there are any), and with no excluded prefix, and
/// ends with no excluded suffix.
pub open spec fn fuzzy_keeps(
    includes: Seq<Seq<char>>,
    exclude: Seq<Seq<char>>,
    exclude_suffix: Seq<Seq<char>>,
) -> spec_fn(Seq<char>) -> bool {
    |n: Seq<char>|
        (includes.len() == 0 || any_match(includes, n, MatchKind::Prefix)) && !any_match(
            exclude,
            n,
            MatchKind::Prefix,
        ) && !any_match(exclude_suffix, n, MatchKind::Suffix)
}

/// Entry `i` was the first entry, in list order, to match some name.
pub open spec fn entry_used(entries: Seq<Seq<char>>, i: int, names: Seq<Seq<char>>, kind: MatchKind) -> bool {
    exists|j: int| 0 <= j < names.len() && first_match(entries, #[trigger] names[j], kind) == Some(i)
}

/// The first `k` entries that were never the first to match a name, in order.
pub open spec fn unused_upto(entries: Seq<Seq<char>>, names: Seq<Seq<char>>, kind: MatchKind, k: int) -> Seq<
    Seq<char>,
>
    decreases k,
{
    if k <= 0 {
        Seq::empty()
    } else {
        unused_upto(entries, names, kind, k - 1) + if !entry_used(entries, k - 1, names, kind) {
            seq![entries[k - 1]]
        } else {
            Seq::<Seq<char>>::empty()
        }
    }
}

pub open spec fn unused_spec(entries: Seq<Seq<char>>, names: Seq<Seq<char>>, kind: MatchKind) -> Seq<
    Seq<char>,
> {
    unused_upto(entries, names, kind, entries.len() as int)
}

/// The options of the prefix and suffix filter.
#[derive(Clone, Copy, Debug, PartialEq, Eq, Structural)]
pub enum FilterOption {
    /// `--include`: prefixes to keep.
    Include,
    /// `--exclude`: prefixes to drop.
    Exclude,
    /// `--exclude-suffix`: suffixes to drop.
    ExcludeSuffix,
}

/// Filter entries of one option that matched no benchmark name.
#[derive(Debug, PartialEq, Eq)]
pub struct UnusedEntries {
    pub option: FilterOption,
    pub entries: Vec<String>,
}

/// The report of unused entries: the first option, in the order of
/// `FilterOption`, with the entries that were never the first, in list
/// order, to match a name. An entry that matches no name is always among them.
pub open spec fn fuzzy_unused_spec(
    names: Seq<Seq<char>>,
    includes: Seq<Seq<char>>,
    exclude: Seq<Seq<char>>,
    exclude_suffix: Seq<Seq<char>>,
) -> Option<(FilterOption, Seq<Seq<char>>)> {
    let ui = unused_spec(dedup(includes), names, MatchKind::Prefix);
    let ue = unused_spec(dedup(exclude), names, MatchKind::Prefix);
    let us = unused_spec(dedup(exclude_suffix), names, MatchKind::Suffix);
    if ui.len() > 0 {
        Some((FilterOption::Include, ui))
    } else if ue.len() > 0 {
        Some((FilterOption::Exclude, ue))
    } else if us.len() > 0 {
        Some((FilterOption::ExcludeSuffix, us))
    } else {
        None
    }
}

pub open spec fn unused_view(u: Option<UnusedEntries>) -> Option<(FilterOption, Seq<Seq<char>>)> {
    match u {
        Some(x) => Some((x.option, string_views(x.entries@))),
        None => None,
    }
}

/// The benchmarks chosen by a filter (by index into the names given), and
/// the filter entries that matched nothing.
#[derive(Debug, PartialEq, Eq)]
pub struct BenchmarkSelection {
    pub selected: Vec<usize>,
    pub unused: Option<UnusedEntries>,
}

pub open spec fn indices_view(v: Seq<usize>) -> Seq<int> {
    v.map_values(|u: usize| u as int)
}


/// A name is selected exactly when the filter keeps it, and the selected
/// indices increase: each kept name is selected once, in the order given.
pub proof fn lemma_selected_spec(names: Seq<Seq<char>>, keep: spec_fn(Seq<char>) -> bool)
    ensures
        forall|i: int|
            #[trigger] selected_spec(names, keep).contains(i) <==> 0 <= i < names.len() && keep(
                names[i],
            ),
        forall|a: int, b: int|
            0 <= a < b < selected_spec(names, keep).len() ==> #[trigger] selected_spec(names, keep)[a]
                < #[trigger] selected_spec(names, keep)[b],
        forall|k: int|
            0 <= k < selected_spec(names, keep).len() ==> 0 <= #[trigger] selected_spec(names, keep)[k]
                < names.len(),
    decreases names.len(),
{
    if names.len() > 0 {
        let d = names.drop_last();
        lemma_selected_spec(d, keep);
        let prev = selected_spec(d, keep);
        let s = selected_spec(names, keep);
        let last = names.len() - 1;
        assert forall|k: int| 0 <= k < prev.len() implies s[k] == prev[k] by {}
        assert forall|i: int| s.contains(i) <==> 0 <= i < names.len() && keep(names[i]) by {
            if s.contains(i) {
                let k = choose|k: int| 0 <= k < s.len() && s[k] == i;
                if k < prev.len() {
                    assert(prev.contains(i));
                    assert(d[i] == names[i]);
                } else {
                    assert(i == last);
                }
            }
            if 0 <= i < names.len() && keep(names[i]) {
                if i < last {
                    assert(d[i] == names[i]);
                    assert(prev.contains(i));
                    let k = choose|k: int| 0 <= k < prev.len() && prev[k] == i;
                    assert(s[k] == i);
                } else {
                    assert(s[s.len() - 1] == i);
                }
            }
        }
    }
}

/// An entry that was never the first to match a name is among the unused
/// entries as far as `k` reaches past it.
proof fn lemma_unused_upto_keeps(
    entries: Seq<Seq<char>>,
    names: Seq<Seq<char>>,
    kind: MatchKind,
    i: int,
    k: int,
)
    requires
        0 <= i < k <= entries.len(),
        !entry_used(entries, i, names, kind),
    ensures
        unused_upto(entries, names, kind, k).contains(entries[i]),
    decreases k,
{
    let prev = unused_upto(entries, names, kind, k - 1);
    if k - 1 == i {
        let s = unused_upto(entries, names, kind, k);
        assert(s[s.len() - 1] == entries[i]);
    } else {
        lemma_unused_upto_keeps(entries, names, kind, i, k - 1);
        let j = choose|j: int| 0 <= j < prev.len() && prev[j] == entries[i];
        assert(unused_upto(entries, names, kind, k)[j] == entries[i]);
    }
}

/// An entry that matches no name is reported unused: a mistyped filter
/// entry never goes unnoticed.
pub proof fn lemma_unmatched_entry_unused(
    entries: Seq<Seq<char>>,
    names: Seq<Seq<char>>,
    kind: MatchKind,
    i: int,
)
    requires
        0 <= i < entries.len(),
        forall|j: int| 0 <= j < names.len() ==> !entry_matches(entries[i], #[trigger] names[j], kind),
    ensures
        unused_spec(entries, names, kind).contains(entries[i]),
{
    assert(!entry_used(entries, i, names, kind)) by {
        if entry_used(entries, i, names, kind) {
            let j = choose|j: int|
                0 <= j < names.len() && first_match(entries, #[trigger] names[j], kind) == Some(i);
            lemma_first_match(entries, names[j], kind);
        }
    }
    lemma_unused_upto_keeps(entries, names, kind, i, entries.len() as int);
}

proof fn lemma_unused_upto_from(
    entries: Seq<Seq<char>>,
    names: Seq<Seq<char>>,
    kind: MatchKind,
    k: int,
    x: Seq<char>,
)
    requires
        0 <= k <= entries.len(),
        unused_upto(entries, names, kind, k).contains(x),
    ensures
        exists|i: int| 0 <= i < k && entries[i] == x && !entry_used(entries, i, names, kind),
    decreases k,
{
    let prev = unused_upto(entries, names, kind, k - 1);
    if prev.contains(x) {
        lemma_unused_upto_from(entries, names, kind, k - 1, x);
    } else {
        let u = unused_upto(entries, names, kind, k);
        let j = choose|j: int| 0 <= j < u.len() && u[j] == x;
        if j < prev.len() {
            assert(prev[j] == x);
        }
        assert(entries[k - 1] == x);
    }
}

/// Of entries without repeats, an entry is reported unused exactly when it
/// was never the first entry, in list order, to match a name.
pub proof fn lemma_unused_exactly_never_first(
    entries: Seq<Seq<char>>,
    names: Seq<Seq<char>>,
    kind: MatchKind,
    i: int,
)
    requires
        entries.no_duplicates(),
        0 <= i < entries.len(),
    ensures
        unused_spec(entries, names, kind).contains(entries[i]) <==> !entry_used(
            entries,
            i,
            names,
            kind,
        ),
{
    if unused_spec(entries, names, kind).contains(entries[i]) {
        lemma_unused_upto_from(entries, names, kind, entries.len() as int, entries[i]);
        let w = choose|w: int|
            0 <= w < entries.len() && entries[w] == entries[i] && !entry_used(entries, w, names, kind);
        assert(w == i);
    }
    if !entry_used(entries, i, names, kind) {
        lemma_unused_upto_keeps(entries, names, kind, i, entries.len() as int);
    }
}

proof fn lemma_unmatched_in_dedup(
    s: Seq<Seq<char>>,
    names: Seq<Seq<char>>,
    kind: MatchKind,
    entry: Seq<char>,
)
    requires
        s.contains(entry),
        forall|j: int| 0 <= j < names.len() ==> !entry_matches(entry, #[trigger] names[j], kind),
    ensures
        unused_spec(dedup(s), names, kind).len() > 0,
{
    lemma_dedup_contains(s, entry);
    let d = dedup(s);
    let i = choose|i: int| 0 <= i < d.len() && d[i] == entry;
    lemma_unmatched_entry_unused(d, names, kind, i);
}

/// With prefixes and suffixes, an entry of any of the three options that
/// matches no benchmark name (as a prefix for `--include` and `--exclude`,
/// as a suffix for `--exclude-suffix`) makes the selection report unused
/// entries.
pub proof fn lemma_fuzzy_reports_unmatched(
    names: Seq<Seq<char>>,
    includes: Seq<Seq<char>>,
    exclude: Seq<Seq<char>>,
    exclude_suffix: Seq<Seq<char>>,
    entry: Seq<char>,
)
    requires
        ((includes.contains(entry) || exclude.contains(entry)) && forall|j: int|
            0 <= j < names.len() ==> !entry.is_prefix_of(#[trigger] names[j]))
        || (exclude_suffix.contains(entry) && forall|j: int|
            0 <= j < names.len() ==> !entry.is_suffix_of(#[trigger] names[j])),
    ensures
        fuzzy_unused_spec(names, includes, exclude, exclude_suffix) is Some,
{
    if (includes.contains(entry) || exclude.contains(entry)) && forall|j: int|
        0 <= j < names.len() ==> !entry.is_prefix_of(#[trigger] names[j]) {
        assert forall|j: int| 0 <= j < names.len() implies !entry_matches(
            entry,
            #[trigger] names[j],
            MatchKind::Prefix,
        ) by {}
        if includes.contains(entry) {
            lemma_unmatched_in_dedup(includes, names, MatchKind::Prefix, entry);
        } else {
            lemma_unmatched_in_dedup(exclude, names, MatchKind::Prefix, entry);
        }
    } else {
        assert forall|j: int| 0 <= j < names.len() implies !entry_matches(
            entry,
            #[trigger] names[j],
            MatchKind::Suffix,
        ) by {}
        lemma_unmatched_in_dedup(exclude_suffix, names, MatchKind::Suffix, entry);
    }
}

/// Dropping repeats keeps every entry.
pub proof fn lemma_dedup_contains(s: Seq<Seq<char>>, x: Seq<char>)
    ensures
        dedup(s).contains(x) <==> s.contains(x),
        dedup(s).len() == 0 <==> s.len() == 0,
    decreases s.len(),
{
    if s.len() > 0 {
        let d = s.drop_last();
        let l = s.last();
        lemma_dedup_contains(d, x);
        lemma_dedup_contains(d, l);
        assert(s =~= d.push(l));
        assert(s.contains(x) <==> (d.contains(x) || x == l)) by {
            if s.contains(x) && x != l {
                let i = choose|i: int| 0 <= i < s.len() && s[i] == x;
                assert(d[i] == x);
            }
            if d.contains(x) {
                let i = choose|i: int| 0 <= i < d.len() && d[i] == x;
                assert(s[i] == x);
            }
            if x == l {
                assert(s[s.len() - 1] == x);
            }
        }
        let dd = dedup(d);
        if dd.contains(l) {
            assert(dedup(s) == dd);
            assert(dd.len() > 0);
        } else {
            assert(dedup(s) == dd.push(l));
            assert(dd.push(l).contains(x) <==> (dd.contains(x) || x == l)) by {
                if dd.push(l).contains(x) && x != l {
                    let i = choose|i: int| 0 <= i < dd.push(l).len() && dd.push(l)[i] == x;
                    assert(dd[i] == x);
                }
                if dd.contains(x) {
                    let i = choose|i: int| 0 <= i < dd.len() && dd[i] == x;
                    assert(dd.push(l)[i] == x);
                }
                if x == l {
                    assert(dd.push(l)[dd.len() as int] == x);
                }
            }
        }
    }
}

proof fn lemma_any_match_dedup(s: Seq<Seq<char>>, n: Seq<char>, kind: MatchKind)
    ensures
        any_match(dedup(s), n, kind) <==> any_match(s, n, kind),
{
    let d = dedup(s);
    if any_match(s, n, kind) {
        let i = choose|i: int| 0 <= i < s.len() && entry_matches(#[trigger] s[i], n, kind);
        assert(s.contains(s[i]));
        lemma_dedup_contains(s, s[i]);
        let j = choose|j: int| 0 <= j < d.len() && d[j] == s[i];
        assert(entry_matches(d[j], n, kind));
    }
    if any_match(d, n, kind) {
        let i = choose|i: int| 0 <= i < d.len() && entry_matches(#[trigger] d[i], n, kind);
        assert(d.contains(d[i]));
        lemma_dedup_contains(s, d[i]);
        let j = choose|j: int| 0 <= j < s.len() && s[j] == d[i];
        assert(entry_matches(s[j], n, kind));
    }
}

/// Whether counts record, for the first `j` names, which entries were used.
pub open spec fn counts_track(c: SubstringCounts, names: Seq<Seq<char>>, kind: MatchKind, j: int) -> bool {
    &&& c.wf()
    &&& forall|k: int|
        0 <= k < c.counts@.len() ==> #[trigger] c.counts@[k] <= j && (c.counts@[k] > 0
            <==> entry_used(c.entry_views(), k, names.take(j), kind))
}

/// Counts the next name, when there are entries; says whether it matched.
fn count_name(c: &mut SubstringCounts, names: &[String], j: usize, kind: MatchKind) -> (r: bool)
    requires
        j < names@.len(),
        counts_track(*old(c), string_views(names@), kind, j as int),
    ensures
        counts_track(*final(c), string_views(names@), kind, j + 1),
        final(c).entries@ == old(c).entries@,
        r == any_match(old(c).entry_views(), names@[j as int]@, kind),
{
    let ghost nv = string_views(names@);
    let ghost ev = c.entry_views();
    let ghost old_counts = c.counts@;
    proof {
        lemma_first_match(ev, nv[j as int], kind);
        assert(nv[j as int] == names@[j as int]@);
        assert(nv.take(j + 1).drop_last() =~= nv.take(j as int));
    }
    if c.entries.len() == 0 {
        assert(!any_match(ev, names@[j as int]@, kind));
        return false;
    }
    let r = substring_matches(c, names[j].as_str(), kind);
    proof {
        assert forall|k: int| 0 <= k < c.counts@.len() implies #[trigger] c.counts@[k] <= j + 1 && (
        c.counts@[k] > 0 <==> entry_used(c.entry_views(), k, nv.take(j + 1), kind)) by {
            let t = nv.take(j + 1);
            assert(t[j as int] == nv[j as int]);
            if entry_used(ev, k, nv.take(j as int), kind) {
                let w = choose|w: int|
                    0 <= w < nv.take(j as int).len() && first_match(ev, #[trigger] nv.take(j as int)[w], kind)
                        == Some(k);
                assert(t[w] == nv.take(j as int)[w]);
            }
            if entry_used(ev, k, t, kind) {
                let w = choose|w: int| 0 <= w < t.len() && first_match(ev, #[trigger] t[w], kind) == Some(k);
                if w < j {
                    assert(nv.take(j as int)[w] == t[w]);
                }
            }
            if first_match(ev, nv[j as int], kind) == Some(k) {
                assert(first_match(ev, t[j as int], kind) == Some(k));
            }
        }
    }
    r
}

/// The entries that no name used, in order.
fn unused_entries(c: &SubstringCounts, names: Ghost<Seq<Seq<char>>>, kind: MatchKind) -> (r: Vec<String>)
    requires
        counts_track(*c, names@, kind, names@.len() as int),
    ensures
        string_views(r@) == unused_spec(c.entry_views(), names@, kind),
{
    let ghost ev = c.entry_views();
    assert(names@.take(names@.len() as int) =~= names@);
    let mut out: Vec<String> = Vec::new();
    let mut k: usize = 0;
    while k < c.entries.len()
        invariant
            k <= c.entries@.len(),
            ev == c.entry_views(),
            counts_track(*c, names@, kind, names@.len() as int),
            names@.take(names@.len() as int) == names@,
            string_views(out@) == unused_upto(ev, names@, kind, k as int),
        decreases c.entries.len() - k,
    {
        let ghost before = string_views(out@);
        if c.counts[k] == 0 {
            out.push(c.entries[k].clone());
            assert(string_views(out@) =~= before.push(ev[k as int]));
        }
        k = k + 1;
        assert(string_views(out@) =~= unused_upto(ev, names@, kind, k as int));
    }
    out
}

fn push_index(v: &mut Vec<usize>, i: usize)
    ensures
        indices_view(final(v)@) == indices_view(old(v)@).push(i as int),
{
    let ghost before = indices_view(v@);
    v.push(i);
    assert(indices_view(v@) =~= before.push(i as int));
}

/// Selects names by prefixes and suffixes: a name is kept when it starts
/// with an included prefix (if any are given) and with no excluded prefix,
/// and ends with no excluded suffix. Each name counts as a use of the first
/// entry, in list order, of each option that matches it; the report names the
/// entries that no name used, among them every entry that matches no name.
pub fn select_benchmarks_fuzzy(
    names: &[String],
    includes: &[String],
    exclude: &[String],
    exclude_suffix: &[String],
) -> (r: BenchmarkSelection)
    ensures
        indices_view(r.selected@) == selected_spec(
            string_views(names@),
            fuzzy_keeps(string_views(includes@), string_views(exclude@), string_views(exclude_suffix@)),
        ),
        unused_view(r.unused) == fuzzy_unused_spec(
            string_views(names@),
            string_views(includes@),
            string_views(exclude@),
            string_views(exclude_suffix@),
        ),
        forall|e: Seq<char>|
            (#[trigger] string_views(includes@).contains(e) || string_views(exclude@).contains(e))
                && (forall|j: int|
                0 <= j < names@.len() ==> !e.is_prefix_of(#[trigger] names@[j]@)) ==> r.unused is Some,
        forall|e: Seq<char>|
            #[trigger] string_views(exclude_suffix@).contains(e) && (forall|j: int|
                0 <= j < names@.len() ==> !e.is_suffix_of(#[trigger] names@[j]@)) ==> r.unused is Some,
        forall|i: int|
            #[trigger] indices_view(r.selected@).contains(i) <==> {
                &&& 0 <= i < names@.len()
                &&& includes@.len() == 0 || exists|k: int|
                    0 <= k < includes@.len() && (#[trigger] includes@[k])@.is_prefix_of(names@[i]@)
                &&& !exists|k: int|
                    0 <= k < exclude@.len() && (#[trigger] exclude@[k])@.is_prefix_of(names@[i]@)
                &&& !exists|k: int|
                    0 <= k < exclude_suffix@.len() && (#[trigger] exclude_suffix@[k])@.is_suffix_of(
                        names@[i]@,
                    )
            },
{
    let ghost nv = string_views(names@);
    let ghost keep = fuzzy_keeps(
        string_views(includes@),
        string_views(exclude@),
        string_views(exclude_suffix@),
    );
    let mut inc = SubstringCounts::from_entries(includes);
    let mut exc = SubstringCounts::from_entries(exclude);
    let mut suf = SubstringCounts::from_entries(exclude_suffix);
    let mut selected: Vec<usize> = Vec::new();
    let mut j: usize = 0;
    assert(indices_view(selected@) =~= Seq::<int>::empty());
    assert(nv.take(0) =~= Seq::<Seq<char>>::empty());
    while j < names.len()
        invariant
            j <= names@.len(),
            nv == string_views(names@),
            keep == fuzzy_keeps(
                string_views(includes@),
                string_views(exclude@),
                string_views(exclude_suffix@),
            ),
            inc.entry_views() == dedup(string_views(includes@)),
            exc.entry_views() == dedup(string_views(exclude@)),
            suf.entry_views() == dedup(string_views(exclude_suffix@)),
            counts_track(inc, nv, MatchKind::Prefix, j as int),
            counts_track(exc, nv, MatchKind::Prefix, j as int),
            counts_track(suf, nv, MatchKind::Suffix, j as int),
            indices_view(selected@) == selected_spec(nv.take(j as int), keep),
        decreases names.len() - j,
    {
        let ghost n = names@[j as int]@;
        let mut skip = false;
        if inc.entries.len() > 0 {
            let m = count_name(&mut inc, names, j, MatchKind::Prefix);
            skip = skip || !m;
        }
        let m = count_name(&mut exc, names, j, MatchKind::Prefix);
        skip = skip || m;
        let m = count_name(&mut suf, names, j, MatchKind::Suffix);
        skip = skip || m;
        proof {
            lemma_any_match_dedup(string_views(includes@), n, MatchKind::Prefix);
            lemma_any_match_dedup(string_views(exclude@), n, MatchKind::Prefix);
            lemma_any_match_dedup(string_views(exclude_suffix@), n, MatchKind::Suffix);
            lemma_dedup_contains(string_views(includes@), n);
            assert(nv[j as int] == n);
            assert(skip == !keep(n));
            assert(nv.take(j + 1).drop_last() =~= nv.take(j as int));
            assert(nv.take(j + 1).last() == n);
        }
        if inc.entries.len() == 0 {
            assert(counts_track(inc, nv, MatchKind::Prefix, j + 1));
        }
        if !skip {
            push_index(&mut selected, j);
        }
        j = j + 1;
        assert(indices_view(selected@) =~= selected_spec(nv.take(j as int), keep));
    }
    assert(nv.take(names@.len() as int) =~= nv);
    let ui = unused_entries(&inc, Ghost(nv), MatchKind::Prefix);
    let ue = unused_entries(&exc, Ghost(nv), MatchKind::Prefix);
    let us = unused_entries(&suf, Ghost(nv), MatchKind::Suffix);
    let unused = if ui.len() > 0 {
        Some(UnusedEntries { option: FilterOption::Include, entries: ui })
    } else if ue.len() > 0 {
        Some(UnusedEntries { option: FilterOption::Exclude, entries: ue })
    } else if us.len() > 0 {
        Some(UnusedEntries { option: FilterOption::ExcludeSuffix, entries: us })
    } else {
        None
    };
    proof {
        let iv = string_views(includes@);
        let ev = string_views(exclude@);
        let sv = string_views(exclude_suffix@);
        lemma_fuzzy_selection(nv, iv, ev, sv);
        assert forall|i: int|
            #[trigger] indices_view(selected@).contains(i) <==> {
                &&& 0 <= i < names@.len()
                &&& includes@.len() == 0 || exists|k: int|
                    0 <= k < includes@.len() && (#[trigger] includes@[k])@.is_prefix_of(names@[i]@)
                &&& !exists|k: int|
                    0 <= k < exclude@.len() && (#[trigger] exclude@[k])@.is_prefix_of(names@[i]@)
                &&& !exists|k: int|
                    0 <= k < exclude_suffix@.len() && (#[trigger] exclude_suffix@[k])@.is_suffix_of(
                        names@[i]@,
                    )
            } by {
            if 0 <= i < names@.len() {
                assert(nv[i] == names@[i]@);
                if exists|k: int| 0 <= k < includes@.len() && (#[trigger] includes@[k])@.is_prefix_of(names@[i]@) {
                    let k = choose|k: int| 0 <= k < includes@.len() && (#[trigger] includes@[k])@.is_prefix_of(names@[i]@);
                    assert(iv[k] == includes@[k]@);
                }
                if exists|k: int| 0 <= k < iv.len() && (#[trigger] iv[k]).is_prefix_of(nv[i]) {
                    let k = choose|k: int| 0 <= k < iv.len() && (#[trigger] iv[k]).is_prefix_of(nv[i]);
                    assert(iv[k] == includes@[k]@);
                }
                if exists|k: int| 0 <= k < exclude@.len() && (#[trigger] exclude@[k])@.is_prefix_of(names@[i]@) {
                    let k = choose|k: int| 0 <= k < exclude@.len() && (#[trigger] exclude@[k])@.is_prefix_of(names@[i]@);
                    assert(ev[k] == exclude@[k]@);
                }
                if exists|k: int| 0 <= k < ev.len() && (#[trigger] ev[k]).is_prefix_of(nv[i]) {
                    let k = choose|k: int| 0 <= k < ev.len() && (#[trigger] ev[k]).is_prefix_of(nv[i]);
                    assert(ev[k] == exclude@[k]@);
                }
                if exists|k: int| 0 <= k < exclude_suffix@.len() && (#[trigger] exclude_suffix@[k])@.is_suffix_of(names@[i]@) {
                    let k = choose|k: int| 0 <= k < exclude_suffix@.len() && (#[trigger] exclude_suffix@[k])@.is_suffix_of(names@[i]@);
                    assert(sv[k] == exclude_suffix@[k]@);
                }
                if exists|k: int| 0 <= k < sv.len() && (#[trigger] sv[k]).is_suffix_of(nv[i]) {
                    let k = choose|k: int| 0 <= k < sv.len() && (#[trigger] sv[k]).is_suffix_of(nv[i]);
                    assert(sv[k] == exclude_suffix@[k]@);
                }
            }
        }
        assert forall|e: Seq<char>|
            (#[trigger] string_views(includes@).contains(e) || string_views(exclude@).contains(e))
                && (forall|j: int|
                0 <= j < names@.len() ==> !e.is_prefix_of(#[trigger] names@[j]@)) implies unused is Some by {
            assert forall|j: int| 0 <= j < nv.len() implies !e.is_prefix_of(#[trigger] nv[j]) by {
                assert(nv[j] == names@[j]@);
            }
            lemma_fuzzy_reports_unmatched(
                nv,
                string_views(includes@),
                string_views(exclude@),
                string_views(exclude_suffix@),
                e,
            );
        }
        assert forall|e: Seq<char>|
            #[trigger] string_views(exclude_suffix@).contains(e) && (forall|j: int|
                0 <= j < names@.len() ==> !e.is_suffix_of(#[trigger] names@[j]@)) implies unused is Some by {
            assert forall|j: int| 0 <= j < nv.len() implies !e.is_suffix_of(#[trigger] nv[j]) by {
                assert(nv[j] == names@[j]@);
            }
            lemma_fuzzy_reports_unmatched(
                nv,
                string_views(includes@),
                string_views(exclude@),
                string_views(exclude_suffix@),
                e,
            );
        }
    }
    BenchmarkSelection { selected, unused }
}


/// Whether the filter keeps a name: every name, the names listed exactly, or
/// the names that pass the prefix and suffix filters.
pub open spec fn filter_keeps(filter: CompileBenchmarkFilter) -> spec_fn(Seq<char>) -> bool {
    match filter {
        CompileBenchmarkFilter::All => |n: Seq<char>| true,
        CompileBenchmarkFilter::Exact(names) => |n: Seq<char>| string_views(names@).contains(n),
        CompileBenchmarkFilter::Fuzzy { includes, exclude, exclude_suffix } => fuzzy_keeps(
            string_views(includes@),
            string_views(exclude@),
            string_views(exclude_suffix@),
        ),
    }
}

pub open spec fn filter_unused(filter: CompileBenchmarkFilter, names: Seq<Seq<char>>) -> Option<
    (FilterOption, Seq<Seq<char>>),
> {
    match filter {
        CompileBenchmarkFilter::Fuzzy { includes, exclude, exclude_suffix } => fuzzy_unused_spec(
            names,
            string_views(includes@),
            string_views(exclude@),
            string_views(exclude_suffix@),
        ),
        _ => None,
    }
}

/// Under an exact filter a benchmark is selected exactly when its name is
/// equal to one of the listed names; with no filter, every benchmark is.
pub proof fn lemma_exact_and_all_selection(names: Seq<Seq<char>>, filter: CompileBenchmarkFilter)
    ensures
        filter matches CompileBenchmarkFilter::Exact(list) ==> forall|i: int|
            #[trigger] selected_spec(names, filter_keeps(filter)).contains(i) <==> 0 <= i
                < names.len() && exists|k: int| 0 <= k < list@.len() && (#[trigger] list@[k])@ == names[i],
        filter is All ==> forall|i: int|
            #[trigger] selected_spec(names, filter_keeps(filter)).contains(i) <==> 0 <= i
                < names.len(),
{
    lemma_selected_spec(names, filter_keeps(filter));
    if let CompileBenchmarkFilter::Exact(list) = filter {
        assert forall|i: int|
            #[trigger] selected_spec(names, filter_keeps(filter)).contains(i) <==> 0 <= i
                < names.len() && exists|k: int| 0 <= k < list@.len() && (#[trigger] list@[k])@ == names[i] by {
            if 0 <= i < names.len() {
                if string_views(list@).contains(names[i]) {
                    let k = choose|k: int| 0 <= k < string_views(list@).len() && string_views(list@)[k] == names[i];
                    assert(list@[k]@ == names[i]);
                }
                if exists|k: int| 0 <= k < list@.len() && (#[trigger] list@[k])@ == names[i] {
                    let k = choose|k: int| 0 <= k < list@.len() && (#[trigger] list@[k])@ == names[i];
                    assert(string_views(list@)[k] == names[i]);
                }
            }
        }
    }
}

/// Under prefixes and suffixes a benchmark is selected exactly when some
/// included prefix starts its name (or none is given), no excluded prefix
/// starts it, and no excluded suffix ends it.
pub proof fn lemma_fuzzy_selection(
    names: Seq<Seq<char>>,
    includes: Seq<Seq<char>>,
    exclude: Seq<Seq<char>>,
    exclude_suffix: Seq<Seq<char>>,
)
    ensures
        forall|i: int|
            #[trigger] selected_spec(names, fuzzy_keeps(includes, exclude, exclude_suffix)).contains(i)
                <==> {
                &&& 0 <= i < names.len()
                &&& includes.len() == 0 || exists|k: int|
                    0 <= k < includes.len() && (#[trigger] includes[k]).is_prefix_of(names[i])
                &&& !exists|k: int|
                    0 <= k < exclude.len() && (#[trigger] exclude[k]).is_prefix_of(names[i])
                &&& !exists|k: int|
                    0 <= k < exclude_suffix.len() && (#[trigger] exclude_suffix[k]).is_suffix_of(names[i])
            },
{
    lemma_selected_spec(names, fuzzy_keeps(includes, exclude, exclude_suffix));
}

fn list_contains(list: &[String], name: &str) -> (r: bool)
    ensures
        r == string_views(list@).contains(name@),
{
    let mut i: usize = 0;
    while i < list.len()
        invariant
            i <= list.len(),
            forall|k: int| 0 <= k < i ==> (#[trigger] list@[k])@ != name@,
        decreases list.len() - i,
    {
        if str_eq(list[i].as_str(), name) {
            assert(string_views(list@)[i as int] == name@);
            return true;
        }
        i = i + 1;
    }
    proof {
        if string_views(list@).contains(name@) {
            let k = choose|k: int| 0 <= k < string_views(list@).len() && string_views(list@)[k] == name@;
            assert(list@[k]@ == name@);
        }
    }
    false
}

/// Chooses among the benchmarks `names` (the directories of the benchmark
/// directory, in the order they were listed): the indices of the names the
/// filter keeps, in order, and for the prefix and suffix filter the entries
/// that matched no name.
pub fn select_compile_benchmarks(names: &[String], filter: &CompileBenchmarkFilter) -> (r:
    BenchmarkSelection)
    ensures
        indices_view(r.selected@) == selected_spec(string_views(names@), filter_keeps(*filter)),
        unused_view(r.unused) == filter_unused(*filter, string_views(names@)),
        *filter matches CompileBenchmarkFilter::Exact(list) ==> r.unused is None && forall|i: int|
            #[trigger] indices_view(r.selected@).contains(i) <==> 0 <= i < names@.len() && exists|k: int|
                0 <= k < list@.len() && (#[trigger] list@[k])@ == names@[i]@,
        *filter is All ==> r.unused is None && forall|i: int|
            #[trigger] indices_view(r.selected@).contains(i) <==> 0 <= i < names@.len(),
{
    proof {
        lemma_exact_and_all_selection(string_views(names@), *filter);
    }
    match filter {
        CompileBenchmarkFilter::Fuzzy { includes, exclude, exclude_suffix } => {
            select_benchmarks_fuzzy(names, includes, exclude, exclude_suffix)
        },
        _ => {
            let ghost nv = string_views(names@);
            let ghost keep = filter_keeps(*filter);
            let mut selected: Vec<usize> = Vec::new();
            let mut j: usize = 0;
            assert(indices_view(selected@) =~= Seq::<int>::empty());
            assert(nv.take(0) =~= Seq::<Seq<char>>::empty());
            while j < names.len()
                invariant
                    j <= names@.len(),
                    nv == string_views(names@),
                    keep == filter_keeps(*filter),
                    !(*filter is Fuzzy),
                    indices_view(selected@) == selected_spec(nv.take(j as int), keep),
                decreases names.len() - j,
            {
                let kept = match filter {
                    CompileBenchmarkFilter::Exact(list) => list_contains(list, names[j].as_str()),
                    _ => true,
                };
                assert(kept == keep(nv[j as int]));
                if kept {
                    push_index(&mut selected, j);
                }
                j = j + 1;
                assert(nv.take(j as int).drop_last() =~= nv.take(j - 1));
                assert(indices_view(selected@) =~= selected_spec(nv.take(j as int), keep));
            }
            assert(nv.take(names@.len() as int) =~= nv);
            BenchmarkSelection { selected, unused: None }
        },
    }
}

/// Benchmarks are ordered by name (code point order, as strings compare).
pub open spec fn benchmark_le() -> spec_fn(Benchmark, Benchmark) -> bool {
    |a: Benchmark, b: Benchmark| chars_le(a.name.0@, b.name.0@)
}

/// The selected benchmarks come out ordered by name: sorting them gives the
/// same benchmarks, each name no later than the next.
pub proof fn lemma_benchmarks_sorted_by_name(benchmarks: Seq<Benchmark>)
    ensures
        sorted_by(sort_stable(benchmarks, benchmark_le()), benchmark_le()),
        sort_stable(benchmarks, benchmark_le()).to_multiset() == benchmarks.to_multiset(),
{
    let le = benchmark_le();
    assert forall|a: Benchmark, b: Benchmark| #[trigger] le(a, b) || le(b, a) by {
        lemma_chars_le_total(a.name.0@, b.name.0@);
    }
    assert forall|a: Benchmark, b: Benchmark, c: Benchmark|
        #[trigger] le(a, b) && #[trigger] le(b, c) implies le(a, c) by {
        lemma_chars_le_transitive(a.name.0@, b.name.0@, c.name.0@);
    }
    assert(total_preorder(le));
    lemma_sort_stable_sorted(benchmarks, le);
    lemma_sort_stable_permutation(benchmarks, le);
}

/// The name of a benchmark.
pub open spec fn benchmark_name_key() -> spec_fn(Benchmark) -> Seq<char> {
    |b: Benchmark| b.name.0@
}

/// Benchmarks with distinct names (as the directories of one benchmark
/// directory have) come out in strictly increasing name order.
pub proof fn lemma_benchmarks_strictly_sorted(benchmarks: Seq<Benchmark>)
    requires
        keys_distinct(benchmarks, benchmark_name_key()),
    ensures
        forall|i: int, j: int|
            0 <= i < j < sort_stable(benchmarks, benchmark_le()).len() ==> chars_le(
                (#[trigger] sort_stable(benchmarks, benchmark_le())[i]).name.0@,
                (#[trigger] sort_stable(benchmarks, benchmark_le())[j]).name.0@,
            ) && sort_stable(benchmarks, benchmark_le())[i].name.0@ != sort_stable(
                benchmarks,
                benchmark_le(),
            )[j].name.0@,
{
    lemma_benchmarks_sorted_by_name(benchmarks);
    lemma_sort_stable_keys_distinct(benchmarks, benchmark_le(), benchmark_name_key());
    let r = sort_stable(benchmarks, benchmark_le());
    assert forall|i: int, j: int| 0 <= i < j < r.len() implies chars_le(
        (#[trigger] r[i]).name.0@,
        (#[trigger] r[j]).name.0@,
    ) && r[i].name.0@ != r[j].name.0@ by {
        assert((benchmark_le())(r[i], r[j]));
        assert((benchmark_name_key())(r[i]) != (benchmark_name_key())(r[j]));
    }
}

fn insert_benchmark(sorted: &mut Vec<Benchmark>, x: Benchmark)
    ensures
        final(sorted)@ == insert_sorted(old(sorted)@, x, benchmark_le()),
{
    let xv = str_chars(x.name.0.as_str());
    let mut j: usize = sorted.len();
    let mut placed = false;
    while j > 0 && !placed
        invariant
            j <= sorted.len(),
            xv@ == x.name.0@,
            placed ==> j > 0 && (benchmark_le())(sorted@[j - 1], x),
            forall|k: int| j <= k < sorted.len() ==> !(benchmark_le())(#[trigger] sorted@[k], x),
        decreases j + if placed { 0int } else { 1int },
    {
        let yv = str_chars(sorted[j - 1].name.0.as_str());
        if chars_le_exec(yv.as_slice(), xv.as_slice()) {
            placed = true;
        } else {
            j = j - 1;
        }
    }
    proof {
        lemma_insert_sorted_at(sorted@, x, benchmark_le(), j as int);
    }
    sorted.insert(j, x);
}

/// The benchmarks ordered by name, stably.
pub fn sort_benchmarks(benchmarks: Vec<Benchmark>) -> (r: Vec<Benchmark>)
    ensures
        r@ == sort_stable(benchmarks@, benchmark_le()),
{
    let ghost orig = benchmarks@;
    let n = benchmarks.len();
    let mut rest = benchmarks;
    let mut sorted: Vec<Benchmark> = Vec::new();
    let mut k: usize = 0;
    assert(orig.skip(0) =~= orig);
    while rest.len() > 0
        invariant
            k <= orig.len(),
            orig.len() == n,
            rest@ == orig.skip(k as int),
            sorted@ == sort_stable(orig.take(k as int), benchmark_le()),
        decreases rest.len(),
    {
        let x = rest.remove(0);
        proof {
            lemma_sort_stable_step(orig, benchmark_le(), k as int);
        }
        insert_benchmark(&mut sorted, x);
        k = k + 1;
        assert(rest@ =~= orig.skip(k as int));
    }
    assert(orig.take(k as int) =~= orig);
    sorted
}

} // verus!
