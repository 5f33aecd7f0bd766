use collector::compile::benchmark::category::Category;
use collector::compile::benchmark::select::{
    select_benchmarks_fuzzy, select_compile_benchmarks, sort_benchmarks, substring_matches,
    BenchmarkSelection, CompileBenchmarkFilter, FilterOption, MatchKind, SubstringCounts,
    UnusedEntries,
};
use collector::compile::benchmark::{default_runs, ArtifactType, Benchmark, BenchmarkConfig};
use std::path::PathBuf;

fn strings(v: &[&str]) -> Vec<String> {
    v.iter().map(|s| s.to_string()).collect()
}

fn names() -> Vec<String> {
    strings(&["cargo-0.60.0", "regex-1.5.5", "syn-1.0.89", "syn-tiny", "helloworld"])
}

fn config() -> BenchmarkConfig {
    BenchmarkConfig {
        cargo_opts: None,
        cargo_rustc_opts: None,
        cargo_toml: None,
        disabled: false,
        runs: default_runs(),
        touch_file: None,
        category: Category::Primary,
        excluded_profiles: vec![],
        excluded_scenarios: vec![],
        artifact: ArtifactType::Library,
        package: None,
    }
}

#[test]
fn all_selects_every_name() {
    let n = names();
    let r = select_compile_benchmarks(&n, &CompileBenchmarkFilter::All);
    assert_eq!(r, BenchmarkSelection { selected: vec![0, 1, 2, 3, 4], unused: None });
}

#[test]
fn exact_selects_listed_names() {
    let n = names();
    let wanted = strings(&["syn-tiny", "cargo-0.60.0", "missing"]);
    let r = select_compile_benchmarks(&n, &CompileBenchmarkFilter::Exact(&wanted));
    assert_eq!(r, BenchmarkSelection { selected: vec![0, 3], unused: None });
}

#[test]
fn fuzzy_includes_and_excludes() {
    let n = names();
    let includes = strings(&["syn", "regex"]);
    let exclude = strings(&["regex"]);
    let exclude_suffix = strings(&["-tiny"]);
    let r = select_benchmarks_fuzzy(&n, &includes, &exclude, &exclude_suffix);
    assert_eq!(r, BenchmarkSelection { selected: vec![2], unused: None });
}

#[test]
fn fuzzy_without_includes_keeps_everything_not_excluded() {
    let n = names();
    let r = select_benchmarks_fuzzy(&n, &[], &strings(&["cargo"]), &[]);
    assert_eq!(r.selected, vec![1, 2, 3, 4]);
    assert_eq!(r.unused, None);
}

#[test]
fn fuzzy_reports_unused_include() {
    let n = names();
    let includes = strings(&["syn", "sny"]);
    let r = select_benchmarks_fuzzy(&n, &includes, &[], &[]);
    assert_eq!(r.selected, vec![2, 3]);
    assert_eq!(
        r.unused,
        Some(UnusedEntries { option: FilterOption::Include, entries: strings(&["sny"]) })
    );
}

#[test]
fn fuzzy_reports_unused_exclude_and_suffix() {
    let n = names();
    let r = select_benchmarks_fuzzy(&n, &[], &strings(&["zzz"]), &strings(&["-huge"]));
    assert_eq!(r.selected, vec![0, 1, 2, 3, 4]);
    assert_eq!(
        r.unused,
        Some(UnusedEntries { option: FilterOption::Exclude, entries: strings(&["zzz"]) })
    );
    let r = select_benchmarks_fuzzy(&n, &[], &[], &strings(&["-huge", "-tiny"]));
    assert_eq!(r.selected, vec![0, 1, 2, 4]);
    assert_eq!(
        r.unused,
        Some(UnusedEntries { option: FilterOption::ExcludeSuffix, entries: strings(&["-huge"]) })
    );
}

#[test]
fn fuzzy_repeated_entries_count_once() {
    let n = names();
    let includes = strings(&["regex", "regex"]);
    let r = select_compile_benchmarks(
        &n,
        &CompileBenchmarkFilter::Fuzzy { includes: &includes, exclude: &[], exclude_suffix: &[] },
    );
    assert_eq!(r, BenchmarkSelection { selected: vec![1], unused: None });
}

#[test]
fn counts_first_matching_entry() {
    let mut counts = SubstringCounts::from_entries(&strings(&["syn", "syn-t", "syn"]));
    assert_eq!(counts.entries, strings(&["syn", "syn-t"]));
    assert_eq!(counts.counts, vec![0, 0]);
    assert!(substring_matches(&mut counts, "syn-tiny", MatchKind::Prefix));
    assert_eq!(counts.counts, vec![1, 0]);
    assert!(!substring_matches(&mut counts, "regex", MatchKind::Prefix));
    assert_eq!(counts.counts, vec![1, 0]);
    let mut other_order = SubstringCounts::from_entries(&strings(&["syn-t", "syn"]));
    assert!(substring_matches(&mut other_order, "syn-tiny", MatchKind::Prefix));
    assert_eq!(other_order.counts, vec![1, 0]);
    let mut suffixes = SubstringCounts::from_entries(&strings(&["-tiny"]));
    assert!(substring_matches(&mut suffixes, "syn-tiny", MatchKind::Suffix));
    assert!(!substring_matches(&mut suffixes, "tiny-syn", MatchKind::Suffix));
    assert_eq!(suffixes.counts, vec![1]);
}

#[test]
fn overlapping_includes_use_the_first_match() {
    let n = strings(&["abc", "ax"]);
    let r = select_benchmarks_fuzzy(&n, &strings(&["a", "ab"]), &[], &[]);
    assert_eq!(r.selected, vec![0, 1]);
    assert_eq!(
        r.unused,
        Some(UnusedEntries { option: FilterOption::Include, entries: strings(&["ab"]) })
    );
    let r = select_benchmarks_fuzzy(&n, &[], &strings(&["ab", "a"]), &[]);
    assert_eq!(r, BenchmarkSelection { selected: vec![], unused: None });
}

#[test]
fn benchmarks_sorted_by_name() {
    let mk = |name: &str| {
        Benchmark::assemble(name.to_string(), PathBuf::from(name), vec![], config())
    };
    let sorted = sort_benchmarks(vec![mk("syn"), mk("Zed"), mk("cargo"), mk("b"), mk("a")]);
    let order: Vec<&str> = sorted.iter().map(|b| b.name.0.as_str()).collect();
    assert_eq!(order, vec!["Zed", "a", "b", "cargo", "syn"]);
    let mut expected = vec!["syn", "Zed", "cargo", "b", "a"];
    expected.sort();
    assert_eq!(order, expected);
}

#[test]
fn every_unmatched_entry_is_reported() {
    let n = names();
    let includes = strings(&["helloworld", "typo-one", "cargo", "typo-two"]);
    let r = select_benchmarks_fuzzy(&n, &includes, &[], &[]);
    assert_eq!(
        r.unused,
        Some(UnusedEntries {
            option: FilterOption::Include,
            entries: strings(&["typo-one", "typo-two"]),
        })
    );
}
