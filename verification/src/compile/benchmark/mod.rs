//! Compile-time benchmarks: their configuration and selection.
use crate::paths::{path_buf_from, path_buf_from_text};
use crate::selector::{
    computed_cases, CompileTestCase, CompileTestCaseView, ComputedSet, TestScenario,
    TestScenarioView,
};
use crate::compile::execute::{
    opt_string_view, push_text, push_value, text, text_value, ArgView, CargoProcess, CmdValue,
    CommandPlan, CommandView,
};
use crate::paths::clone_path_buf;
use crate::text::{
    append_decimal, decimal_digits, parse_u32, parse_u32_spec, split_whitespace, split_ws,
    string_views, u32_to_decimal,
};
use crate::toolchain::Toolchain;
use std::path::Path;
use codegen_backend::CodegenBackend;
use target::Target;
use crate::sorting::{
    insert_sorted, lemma_insert_sorted_at, lemma_sort_stable_permutation, lemma_sort_stable_sorted,
    lemma_sort_stable_step, sort_stable, sorted_by, total_preorder,
};
use category::Category;
use patch::Patch;
use profile::Profile;
use scenario::Scenario;
use std::path::PathBuf;
use vstd::prelude::*;
use vstd::string::StringExecFns;

pub mod category;
pub mod codegen_backend;
pub mod patch;
pub mod profile;
pub mod scenario;
pub mod select;
pub mod target;

verus! {

/// How many times a benchmark runs when its configuration does not say.
pub fn default_runs() -> (r: usize)
    ensures
        r == 3,
{
    3
}


/// The name of a benchmark.
#[derive(Ord, PartialOrd, Eq, PartialEq, Clone, Hash, Debug)]
pub struct BenchmarkName(pub String);

impl BenchmarkName {
    /// The benchmark name `value`.
    pub fn new(value: &str) -> (r: BenchmarkName)
        ensures
            r.0@ == value@,
    {
        BenchmarkName(value.to_owned())
    }

    /// The name as text, as it is displayed.
    pub fn as_str(&self) -> (r: &str)
        ensures
            r@ == self.0@,
    {
        self.0.as_str()
    }

    /// A copy of this name.
    pub fn duplicate(&self) -> (r: BenchmarkName)
        ensures
            r.0@ == self.0@,
    {
        BenchmarkName(self.0.clone())
    }
}


/// What a benchmark builds.
#[derive(Debug, PartialEq, Eq, Copy, Clone, Structural)]
pub enum ArtifactType {
    Binary,
    Library,
}

impl Default for ArtifactType {
    fn default() -> (r: Self)
        ensures
            r == ArtifactType::Library,
    {
        ArtifactType::Library
    }
}

/// How an artifact type is written: `binary` or `library`.
pub open spec fn artifact_type_text(a: ArtifactType) -> Seq<char> {
    match a {
        ArtifactType::Binary => "binary"@,
        ArtifactType::Library => "library"@,
    }
}

impl ArtifactType {
    /// How this artifact type is written (its `Display` form).
    pub fn as_str(&self) -> (r: &'static str)
        ensures
            r@ == artifact_type_text(*self),
    {
        match self {
            ArtifactType::Binary => "binary",
            ArtifactType::Library => "library",
        }
    }
}

/// A benchmark's configuration, as its `perf-config.json` gives it.
pub struct BenchmarkConfig {
    pub cargo_opts: Option<String>,
    pub cargo_rustc_opts: Option<String>,
    pub cargo_toml: Option<String>,
    pub disabled: bool,
    pub runs: usize,
    /// The file that should be touched to ensure cargo re-checks the leaf
    /// crate; when absent, all files in the directory of `Cargo.toml`.
    pub touch_file: Option<String>,
    pub category: Category,
    /// Profiles that are not useful for this benchmark; they are skipped.
    pub excluded_profiles: Vec<Profile>,
    /// Scenarios that are not useful for this benchmark; they are skipped.
    pub excluded_scenarios: Vec<Scenario>,
    pub artifact: ArtifactType,
    /// Which package of a workspace to compile.
    pub package: Option<String>,
}

impl BenchmarkConfig {
    pub fn category(&self) -> (r: Category)
        ensures
            r == self.category,
    {
        self.category
    }

    pub fn artifact(&self) -> (r: ArtifactType)
        ensures
            r == self.artifact,
    {
        self.artifact
    }

    /// How many times the benchmark runs.
    pub fn iterations(&self) -> (r: usize)
        ensures
            r == self.runs,
    {
        self.runs
    }
}

/// A compile-time benchmark: its name, directory, patches (in order of
/// their index) and configuration.
pub struct Benchmark {
    pub name: BenchmarkName,
    pub path: PathBuf,
    pub patches: Vec<Patch>,
    pub config: BenchmarkConfig,
}

/// Patches are ordered by their index.
pub open spec fn patch_le() -> spec_fn(Patch, Patch) -> bool {
    |a: Patch, b: Patch| a.index <= b.index
}

/// A benchmark's patches are ordered by index: sorting them gives the same
/// patches, each index no greater than the next.
pub proof fn lemma_patches_sorted_by_index(patches: Seq<Patch>)
    ensures
        sorted_by(sort_stable(patches, patch_le()), patch_le()),
        sort_stable(patches, patch_le()).to_multiset() == patches.to_multiset(),
{
    assert(total_preorder(patch_le()));
    lemma_sort_stable_sorted(patches, patch_le());
    lemma_sort_stable_permutation(patches, patch_le());
}

/// Inserts `x` into `sorted` after every patch whose index is not above it.
fn insert_patch(sorted: &mut Vec<Patch>, x: Patch)
    ensures
        final(sorted)@ == insert_sorted(old(sorted)@, x, patch_le()),
{
    let mut j: usize = sorted.len();
    while j > 0 && sorted[j - 1].index > x.index
        invariant
            j <= sorted.len(),
            forall|k: int| j <= k < sorted.len() ==> !(patch_le())(#[trigger] sorted@[k], x),
        decreases j,
    {
        j = j - 1;
    }
    proof {
        lemma_insert_sorted_at(sorted@, x, patch_le(), j as int);
    }
    sorted.insert(j, x);
}

/// The patches ordered by index, keeping the given order among equal
/// indices (a stable sort by index).
pub fn sort_patches(patches: Vec<Patch>) -> (r: Vec<Patch>)
    ensures
        r@ == sort_stable(patches@, patch_le()),
{
    let ghost orig = patches@;
    let n = patches.len();
    let mut rest = patches;
    let mut sorted: Vec<Patch> = Vec::new();
    let mut k: usize = 0;
    assert(orig.skip(0) =~= orig);
    while rest.len() > 0
        invariant
            k <= orig.len(),
            orig.len() == n,
            rest@ == orig.skip(k as int),
            sorted@ == sort_stable(orig.take(k as int), patch_le()),
        decreases rest.len(),
    {
        let x = rest.remove(0);
        proof {
            lemma_sort_stable_step(orig, patch_le(), k as int);
        }
        insert_patch(&mut sorted, x);
        k = k + 1;
        assert(rest@ =~= orig.skip(k as int));
    }
    assert(orig.take(k as int) =~= orig);
    sorted
}

impl Benchmark {
    /// The benchmark `name` in directory `path`, with the given patches
    /// ordered by their index (stably) and the given configuration.
    pub fn assemble(name: String, path: PathBuf, patches: Vec<Patch>, config: BenchmarkConfig) -> (r:
        Benchmark)
        ensures
            r.name.0 == name,
            r.path == path,
            r.patches@ == sort_stable(patches@, patch_le()),
            r.config == config,
    {
        Benchmark { name: BenchmarkName(name), path, patches: sort_patches(patches), config }
    }

    pub fn category(&self) -> (r: Category)
        ensures
            r == self.config.category,
    {
        self.config.category
    }

    /// The command that copies `from` to `to`, following symbolic links
    /// and keeping modes and times: `cp -pLR <from> <to>`.
    pub fn copy(from: &PathBuf, to: &PathBuf) -> (r: CommandPlan)
        ensures
            r@ == (CommandView {
                program: text("cp"@),
                args: seq![text("-pLR"@), ArgView::Path(*from), ArgView::Path(*to)],
                envs: seq![],
            }),
    {
        let mut args: Vec<CmdValue> = Vec::new();
        push_text(&mut args, "-pLR");
        push_value(&mut args, CmdValue::Path(clone_path_buf(from)));
        push_value(&mut args, CmdValue::Path(clone_path_buf(to)));
        let r = CommandPlan { program: text_value("cp"), args, envs: Vec::new() };
        assert(r@.args =~= seq![text("-pLR"@), ArgView::Path(*from), ArgView::Path(*to)]);
        assert(r@.envs =~= seq![]);
        r
    }
}

/// Directory containing compile-time benchmarks.
pub fn compile_benchmark_dir() -> (r: PathBuf)
    ensures
        r == path_buf_from_text("collector/compile-benchmarks"@),
{
    path_buf_from("collector/compile-benchmarks")
}


/// Why a benchmark is not measured.
#[derive(Clone, Copy, Debug, PartialEq, Eq, Structural)]
pub enum MeasureError {
    /// The benchmark's configuration disables it.
    Disabled,
}

/// Why a benchmark has nothing to measure.
#[derive(Clone, Copy, Debug, PartialEq, Eq, Structural)]
pub enum MeasureSkip {
    /// Every requested profile is excluded.
    NoProfiles,
    /// Every requested scenario is excluded.
    NoScenarios,
    /// Every test case was computed before.
    AllComputed,
}

/// A directory a benchmark is prepared and measured in: the scenarios still
/// to compute for one profile, backend and target.
#[derive(Debug, PartialEq, Eq)]
pub struct BenchmarkDirPlan {
    pub scenarios: Vec<Scenario>,
    pub profile: Profile,
    pub backend: CodegenBackend,
    pub target: Target,
}

pub struct DirPlanView {
    pub scenarios: Seq<Scenario>,
    pub profile: Profile,
    pub backend: CodegenBackend,
    pub target: Target,
}

impl View for BenchmarkDirPlan {
    type V = DirPlanView;

    open spec fn view(&self) -> DirPlanView {
        DirPlanView {
            scenarios: self.scenarios@,
            profile: self.profile,
            backend: self.backend,
            target: self.target,
        }
    }
}

pub open spec fn dir_plans_view(v: Seq<BenchmarkDirPlan>) -> Seq<DirPlanView> {
    v.map_values(|d: BenchmarkDirPlan| d@)
}

/// What measuring a benchmark amounts to: nothing, or these directories,
/// each measured `iterations` times.
#[derive(Debug, PartialEq, Eq)]
pub enum MeasurePlan {
    Skip(MeasureSkip),
    Run { iterations: usize, dirs: Vec<BenchmarkDirPlan> },
}

/// The test case of a benchmark under a profile, backend, target and scenario.
pub open spec fn test_case_view(
    name: Seq<char>,
    profile: Profile,
    backend: CodegenBackend,
    target: Target,
    scenario: TestScenarioView,
) -> CompileTestCaseView {
    CompileTestCaseView { benchmark: name, profile, backend, target, scenario }
}

/// One build of a timing iteration: the scenario it is measured as, its
/// name, whether it is incremental, and the patch applied before it.
#[derive(Debug, PartialEq, Eq)]
pub struct RunStep {
    pub scenario: Scenario,
    pub scenario_str: String,
    pub incremental: bool,
    pub patch: Option<usize>,
}

pub struct RunStepView {
    pub scenario: Scenario,
    pub scenario_str: Seq<char>,
    pub incremental: bool,
    pub patch: Option<usize>,
}

impl View for RunStep {
    type V = RunStepView;

    open spec fn view(&self) -> RunStepView {
        RunStepView {
            scenario: self.scenario,
            scenario_str: self.scenario_str@,
            incremental: self.incremental,
            patch: self.patch,
        }
    }
}

pub open spec fn run_steps_view(v: Seq<RunStep>) -> Seq<RunStepView> {
    v.map_values(|s: RunStep| s@)
}

/// The patched builds: patch `i` is applied before the build named
/// `IncrPatched<i>`, in order.
pub open spec fn patch_steps_spec(n: nat) -> Seq<RunStepView>
    decreases n,
{
    if n == 0 {
        seq![]
    } else {
        patch_steps_spec((n - 1) as nat).push(
            RunStepView {
                scenario: Scenario::IncrPatched,
                scenario_str: "IncrPatched"@ + decimal_digits((n - 1) as nat),
                incremental: true,
                patch: Some((n - 1) as usize),
            },
        )
    }
}

/// The builds of one timing iteration: a full build when asked for; unless
/// the profile documents, an incremental build from scratch when any
/// incremental scenario is asked for (the others build on it), an unchanged
/// rebuild, and one rebuild after each patch.
pub open spec fn timing_steps_spec(profile: Profile, scenarios: Seq<Scenario>, n_patches: nat) -> Seq<
    RunStepView,
> {
    let step = |sc: Scenario, name: Seq<char>, incr: bool|
        RunStepView { scenario: sc, scenario_str: name, incremental: incr, patch: None };
    (if scenarios.contains(Scenario::Full) {
        seq![step(Scenario::Full, "Full"@, false)]
    } else {
        Seq::empty()
    }) + if profile.spec_is_doc() {
        Seq::empty()
    } else {
        (if exists|i: int| 0 <= i < scenarios.len() && (#[trigger] scenarios[i]).spec_is_incr() {
            seq![step(Scenario::IncrFull, "IncrFull"@, true)]
        } else {
            Seq::empty()
        }) + (if scenarios.contains(Scenario::IncrUnchanged) {
            seq![step(Scenario::IncrUnchanged, "IncrUnchanged"@, true)]
        } else {
            Seq::empty()
        }) + (if scenarios.contains(Scenario::IncrPatched) {
            patch_steps_spec(n_patches)
        } else {
            Seq::empty()
        })
    }
}

/// Step `k` is the incremental build from scratch (`IncrFull`, applying no
/// patch), and every other incremental step comes after it.
pub open spec fn starts_incremental_builds(steps: Seq<RunStepView>, k: int) -> bool {
    &&& 0 <= k < steps.len()
    &&& steps[k].scenario == Scenario::IncrFull
    &&& steps[k].incremental
    &&& steps[k].patch is None
    &&& forall|m: int| 0 <= m < steps.len() && (#[trigger] steps[m]).incremental && m != k ==> k < m
}

/// Incremental builds start from scratch: unless the profile documents,
/// an iteration that asks for any incremental scenario has an `IncrFull`
/// step (incremental, applying no patch) before every other incremental
/// step, and a full build, when asked for, comes first and is not
/// incremental. Without `IncrFull` being asked for, it is still there.
pub proof fn lemma_incremental_builds_start_from_scratch(
    profile: Profile,
    scenarios: Seq<Scenario>,
    n_patches: nat,
)
    requires
        !(profile is Doc || profile is DocJson),
        scenarios.contains(Scenario::IncrFull) || scenarios.contains(Scenario::IncrUnchanged)
            || scenarios.contains(Scenario::IncrPatched),
    ensures
        exists|k: int| #[trigger]
            starts_incremental_builds(timing_steps_spec(profile, scenarios, n_patches), k),
        scenarios.contains(Scenario::Full) ==> timing_steps_spec(profile, scenarios, n_patches)[0]
            .scenario == Scenario::Full && !timing_steps_spec(profile, scenarios, n_patches)[0].incremental,
{
    let steps = timing_steps_spec(profile, scenarios, n_patches);
    let w = choose|w: int|
        0 <= w < scenarios.len() && (scenarios[w] == Scenario::IncrFull || scenarios[w]
            == Scenario::IncrUnchanged || scenarios[w] == Scenario::IncrPatched);
    assert(scenarios[w].spec_is_incr());
    let k: int = if scenarios.contains(Scenario::Full) {
        1
    } else {
        0
    };
    assert(steps[k].scenario == Scenario::IncrFull && steps[k].incremental && steps[k].patch is None);
    assert forall|m: int| 0 <= m < steps.len() && (#[trigger] steps[m]).incremental && m != k implies k
        < m by {
        if k == 1 && m == 0 {
            assert(!steps[0].incremental);
        }
    }
    assert(starts_incremental_builds(steps, k));
}

proof fn lemma_patch_steps(n: nat)
    ensures
        patch_steps_spec(n).len() == n,
        forall|i: int|
            0 <= i < n ==> #[trigger] patch_steps_spec(n)[i] == (RunStepView {
                scenario: Scenario::IncrPatched,
                scenario_str: "IncrPatched"@ + decimal_digits(i as nat),
                incremental: true,
                patch: Some(i as usize),
            }),
    decreases n,
{
    if n > 0 {
        lemma_patch_steps((n - 1) as nat);
        let p = patch_steps_spec((n - 1) as nat);
        assert forall|i: int| 0 <= i < n implies #[trigger] patch_steps_spec(n)[i] == (RunStepView {
            scenario: Scenario::IncrPatched,
            scenario_str: "IncrPatched"@ + decimal_digits(i as nat),
            incremental: true,
            patch: Some(i as usize),
        }) by {
            if i < n - 1 {
                assert(patch_steps_spec(n)[i] == p[i]);
            }
        }
    }
}

/// Asking for the patched scenario (unless the profile documents) ends an
/// iteration with one incremental rebuild per patch, in patch order: the
/// `i`-th of them applies patch `i` and is named `IncrPatched<i>`. Asking
/// for the unchanged scenario gives an incremental `IncrUnchanged` step.
pub proof fn lemma_patched_steps_follow_patches(
    profile: Profile,
    scenarios: Seq<Scenario>,
    n_patches: nat,
)
    requires
        !(profile is Doc || profile is DocJson),
    ensures
        scenarios.contains(Scenario::IncrPatched) ==> timing_steps_spec(profile, scenarios, n_patches).len()
            >= n_patches && forall|i: int|
            0 <= i < n_patches ==> #[trigger] timing_steps_spec(profile, scenarios, n_patches)[
            timing_steps_spec(profile, scenarios, n_patches).len() - n_patches + i] == (RunStepView {
                scenario: Scenario::IncrPatched,
                scenario_str: "IncrPatched"@ + decimal_digits(i as nat),
                incremental: true,
                patch: Some(i as usize),
            }),
        scenarios.contains(Scenario::IncrUnchanged) ==> exists|k: int|
            0 <= k < timing_steps_spec(profile, scenarios, n_patches).len() && #[trigger] timing_steps_spec(
                profile,
                scenarios,
                n_patches,
            )[k] == (RunStepView {
                scenario: Scenario::IncrUnchanged,
                scenario_str: "IncrUnchanged"@,
                incremental: true,
                patch: None,
            }),
{
    lemma_patch_steps(n_patches);
    let steps = timing_steps_spec(profile, scenarios, n_patches);
    let a: Seq<RunStepView> = if scenarios.contains(Scenario::Full) {
        seq![RunStepView { scenario: Scenario::Full, scenario_str: "Full"@, incremental: false, patch: None }]
    } else {
        Seq::empty()
    };
    let b: Seq<RunStepView> = if exists|i: int| 0 <= i < scenarios.len() && (#[trigger] scenarios[i]).spec_is_incr() {
        seq![RunStepView { scenario: Scenario::IncrFull, scenario_str: "IncrFull"@, incremental: true, patch: None }]
    } else {
        Seq::empty()
    };
    let c: Seq<RunStepView> = if scenarios.contains(Scenario::IncrUnchanged) {
        seq![RunStepView { scenario: Scenario::IncrUnchanged, scenario_str: "IncrUnchanged"@, incremental: true, patch: None }]
    } else {
        Seq::empty()
    };
    let d: Seq<RunStepView> = if scenarios.contains(Scenario::IncrPatched) {
        patch_steps_spec(n_patches)
    } else {
        Seq::empty()
    };
    assert(steps =~= a + (b + c + d));
    if scenarios.contains(Scenario::IncrPatched) {
        let base: int = (a.len() + b.len() + c.len()) as int;
        assert forall|i: int| 0 <= i < n_patches implies #[trigger] steps[steps.len() - n_patches + i] == (RunStepView {
            scenario: Scenario::IncrPatched,
            scenario_str: "IncrPatched"@ + decimal_digits(i as nat),
            incremental: true,
            patch: Some(i as usize),
        }) by {
            assert(steps[base + i] == d[i]);
        }
    }
    if scenarios.contains(Scenario::IncrUnchanged) {
        let k: int = (a.len() + b.len()) as int;
        assert(steps[k] == c[0]);
    }
}

/// How many timing iterations run: at least two (self-profiling runs
/// separately), except that a single requested iteration stays single when
/// the processor does nothing different after the first.
pub fn timing_runs(iterations: usize, different_after_first: bool) -> (r: usize)
    ensures
        r == if iterations == 1 && !different_after_first {
            1
        } else if iterations < 2 {
            2
        } else {
            iterations
        },
{
    if iterations == 1 && !different_after_first {
        1
    } else if iterations < 2 {
        2
    } else {
        iterations
    }
}

fn scenarios_contain(scenarios: &[Scenario], s: Scenario) -> (r: bool)
    ensures
        r == scenarios@.contains(s),
{
    let mut i: usize = 0;
    while i < scenarios.len()
        invariant
            i <= scenarios.len(),
            forall|j: int| 0 <= j < i ==> scenarios@[j] != s,
        decreases scenarios.len() - i,
    {
        if scenarios[i] == s {
            return true;
        }
        i = i + 1;
    }
    false
}

fn any_incremental(scenarios: &[Scenario]) -> (r: bool)
    ensures
        r == exists|i: int| 0 <= i < scenarios@.len() && (#[trigger] scenarios@[i]).spec_is_incr(),
{
    let mut i: usize = 0;
    while i < scenarios.len()
        invariant
            i <= scenarios.len(),
            forall|j: int| 0 <= j < i ==> !(#[trigger] scenarios@[j]).spec_is_incr(),
        decreases scenarios.len() - i,
    {
        if scenarios[i].is_incr() {
            return true;
        }
        i = i + 1;
    }
    false
}

fn profiles_contain(profiles: &[Profile], p: Profile) -> (r: bool)
    ensures
        r == profiles@.contains(p),
{
    let mut i: usize = 0;
    while i < profiles.len()
        invariant
            i <= profiles.len(),
            forall|j: int| 0 <= j < i ==> profiles@[j] != p,
        decreases profiles.len() - i,
    {
        if profiles[i] == p {
            return true;
        }
        i = i + 1;
    }
    false
}

fn push_step(steps: &mut Vec<RunStep>, step: RunStep)
    ensures
        run_steps_view(final(steps)@) == run_steps_view(old(steps)@).push(step@),
{
    let ghost before = run_steps_view(steps@);
    let ghost sv = step@;
    steps.push(step);
    assert(run_steps_view(steps@) =~= before.push(sv));
}

impl Benchmark {
    /// Whether `scenario` still has to be computed: incremental scenarios
    /// never run for documentation profiles; the patched scenario runs when
    /// any one patch's result is missing (patches build on one another);
    /// the others when their own result is missing.
    pub open spec fn should_run_spec(
        &self,
        scenario: Scenario,
        profile: Profile,
        backend: CodegenBackend,
        target: Target,
        computed: Set<CompileTestCaseView>,
    ) -> bool {
        if scenario.spec_is_incr() && profile.spec_is_doc() {
            false
        } else {
            match scenario {
                Scenario::Full => !computed.contains(
                    test_case_view(self.name.0@, profile, backend, target, TestScenarioView::Empty),
                ),
                Scenario::IncrFull => !computed.contains(
                    test_case_view(
                        self.name.0@,
                        profile,
                        backend,
                        target,
                        TestScenarioView::IncrementalEmpty,
                    ),
                ),
                Scenario::IncrUnchanged => !computed.contains(
                    test_case_view(
                        self.name.0@,
                        profile,
                        backend,
                        target,
                        TestScenarioView::IncrementalFresh,
                    ),
                ),
                Scenario::IncrPatched => exists|i: int|
                    0 <= i < self.patches@.len() && !computed.contains(
                        test_case_view(
                            self.name.0@,
                            profile,
                            backend,
                            target,
                            TestScenarioView::IncrementalPatch(#[trigger] self.patches@[i].name@),
                        ),
                    ),
            }
        }
    }

    fn test_case(
        &self,
        profile: Profile,
        backend: CodegenBackend,
        target: Target,
        scenario: TestScenario,
    ) -> (r: CompileTestCase)
        ensures
            r@ == test_case_view(self.name.0@, profile, backend, target, scenario@),
    {
        CompileTestCase { benchmark: self.name.0.clone(), profile, backend, target, scenario }
    }

    /// Whether the given `scenario` still has to be computed.
    pub fn should_run_scenario(
        &self,
        scenario: &Scenario,
        profile: &Profile,
        backend: &CodegenBackend,
        target: &Target,
        already_computed: &ComputedSet,
    ) -> (r: bool)
        ensures
            r == self.should_run_spec(
                *scenario,
                *profile,
                *backend,
                *target,
                computed_cases(*already_computed),
            ),
    {
        if scenario.is_incr() && profile.is_doc() {
            return false;
        }
        match scenario {
            Scenario::Full => {
                let case = self.test_case(*profile, *backend, *target, TestScenario::Empty);
                !already_computed.contains(&case)
            },
            Scenario::IncrFull => {
                let case = self.test_case(
                    *profile,
                    *backend,
                    *target,
                    TestScenario::IncrementalEmpty,
                );
                !already_computed.contains(&case)
            },
            Scenario::IncrUnchanged => {
                let case = self.test_case(
                    *profile,
                    *backend,
                    *target,
                    TestScenario::IncrementalFresh,
                );
                !already_computed.contains(&case)
            },
            Scenario::IncrPatched => {
                let mut i: usize = 0;
                while i < self.patches.len()
                    invariant
                        i <= self.patches@.len(),
                        *scenario == Scenario::IncrPatched,
                        !profile.spec_is_doc(),
                        forall|j: int|
                            0 <= j < i ==> computed_cases(*already_computed).contains(
                                test_case_view(
                                    self.name.0@,
                                    *profile,
                                    *backend,
                                    *target,
                                    TestScenarioView::IncrementalPatch(
                                        #[trigger] self.patches@[j].name@,
                                    ),
                                ),
                            ),
                    decreases self.patches.len() - i,
                {
                    let case = self.test_case(
                        *profile,
                        *backend,
                        *target,
                        TestScenario::IncrementalPatch(self.patches[i].name.clone()),
                    );
                    if !already_computed.contains(&case) {
                        assert(!computed_cases(*already_computed).contains(
                            test_case_view(
                                self.name.0@,
                                *profile,
                                *backend,
                                *target,
                                TestScenarioView::IncrementalPatch(self.patches@[i as int].name@),
                            ),
                        ));
                        return true;
                    }
                    i = i + 1;
                }
                false
            },
        }
    }

    /// The builds of one timing iteration of a directory.
    pub fn timing_steps(&self, profile: Profile, scenarios: &[Scenario]) -> (r: Vec<RunStep>)
        ensures
            run_steps_view(r@) == timing_steps_spec(
                profile,
                scenarios@,
                self.patches@.len(),
            ),
    {
        let mut steps: Vec<RunStep> = Vec::new();
        if scenarios_contain(scenarios, Scenario::Full) {
            push_step(
                &mut steps,
                RunStep {
                    scenario: Scenario::Full,
                    scenario_str: "Full".to_owned(),
                    incremental: false,
                    patch: None,
                },
            );
        }
        let ghost s1 = run_steps_view(steps@);
        if !profile.is_doc() {
            if any_incremental(scenarios) {
                push_step(
                    &mut steps,
                    RunStep {
                        scenario: Scenario::IncrFull,
                        scenario_str: "IncrFull".to_owned(),
                        incremental: true,
                        patch: None,
                    },
                );
            }
            if scenarios_contain(scenarios, Scenario::IncrUnchanged) {
                push_step(
                    &mut steps,
                    RunStep {
                        scenario: Scenario::IncrUnchanged,
                        scenario_str: "IncrUnchanged".to_owned(),
                        incremental: true,
                        patch: None,
                    },
                );
            }
            let ghost s2 = run_steps_view(steps@);
            if scenarios_contain(scenarios, Scenario::IncrPatched) {
                let mut i: usize = 0;
                while i < self.patches.len()
                    invariant
                        i <= self.patches@.len(),
                        run_steps_view(steps@) == s2 + patch_steps_spec(i as nat),
                    decreases self.patches.len() - i,
                {
                    push_step(
                        &mut steps,
                        RunStep {
                            scenario: Scenario::IncrPatched,
                            scenario_str: append_decimal("IncrPatched", i),
                            incremental: true,
                            patch: Some(i),
                        },
                    );
                    i = i + 1;
                    assert(run_steps_view(steps@) =~= s2 + patch_steps_spec(i as nat));
                }
            } else {
                assert(run_steps_view(steps@) =~= s2 + Seq::<RunStepView>::empty());
            }
        }
        assert(run_steps_view(steps@) =~= timing_steps_spec(
            profile,
            scenarios@,
            self.patches@.len(),
        ));
        steps
    }
}


pub enum MeasurePlanView {
    Skip(MeasureSkip),
    Run { iterations: usize, dirs: Seq<DirPlanView> },
}

impl View for MeasurePlan {
    type V = MeasurePlanView;

    open spec fn view(&self) -> MeasurePlanView {
        match self {
            MeasurePlan::Skip(r) => MeasurePlanView::Skip(*r),
            MeasurePlan::Run { iterations, dirs } => MeasurePlanView::Run {
                iterations: *iterations,
                dirs: dir_plans_view(dirs@),
            },
        }
    }
}

impl Benchmark {
    /// The requested profiles the configuration does not exclude.
    pub open spec fn profile_kept(&self) -> spec_fn(Profile) -> bool {
        |p: Profile| !self.config.excluded_profiles@.contains(p)
    }

    /// The requested scenarios the configuration does not exclude.
    pub open spec fn scenario_kept(&self) -> spec_fn(Scenario) -> bool {
        |s: Scenario| !self.config.excluded_scenarios@.contains(s)
    }

    pub open spec fn scenario_pending(
        &self,
        profile: Profile,
        backend: CodegenBackend,
        target: Target,
        computed: Set<CompileTestCaseView>,
    ) -> spec_fn(Scenario) -> bool {
        |s: Scenario| self.should_run_spec(s, profile, backend, target, computed)
    }

    /// The directory for one profile, backend and target, if any scenario
    /// is still to compute there.
    pub open spec fn dir_for(
        &self,
        scenarios: Seq<Scenario>,
        profile: Profile,
        backend: CodegenBackend,
        target: Target,
        computed: Set<CompileTestCaseView>,
    ) -> Seq<DirPlanView> {
        let rem = scenarios.filter(self.scenario_pending(profile, backend, target, computed));
        if rem.len() == 0 {
            Seq::empty()
        } else {
            seq![DirPlanView { scenarios: rem, profile, backend, target }]
        }
    }

    pub open spec fn dirs_for_targets(
        &self,
        scenarios: Seq<Scenario>,
        profile: Profile,
        backend: CodegenBackend,
        targets: Seq<Target>,
        computed: Set<CompileTestCaseView>,
    ) -> Seq<DirPlanView>
        decreases targets.len(),
    {
        if targets.len() == 0 {
            Seq::empty()
        } else {
            self.dirs_for_targets(scenarios, profile, backend, targets.drop_last(), computed)
                + self.dir_for(scenarios, profile, backend, targets.last(), computed)
        }
    }

    pub open spec fn dirs_for_profiles(
        &self,
        scenarios: Seq<Scenario>,
        profiles: Seq<Profile>,
        backend: CodegenBackend,
        targets: Seq<Target>,
        computed: Set<CompileTestCaseView>,
    ) -> Seq<DirPlanView>
        decreases profiles.len(),
    {
        if profiles.len() == 0 {
            Seq::empty()
        } else {
            self.dirs_for_profiles(scenarios, profiles.drop_last(), backend, targets, computed)
                + self.dirs_for_targets(scenarios, profiles.last(), backend, targets, computed)
        }
    }

    /// Every backend, profile and target, in that nesting, with the
    /// scenarios still to compute.
    pub open spec fn dirs_for_backends(
        &self,
        scenarios: Seq<Scenario>,
        profiles: Seq<Profile>,
        backends: Seq<CodegenBackend>,
        targets: Seq<Target>,
        computed: Set<CompileTestCaseView>,
    ) -> Seq<DirPlanView>
        decreases backends.len(),
    {
        if backends.len() == 0 {
            Seq::empty()
        } else {
            self.dirs_for_backends(scenarios, profiles, backends.drop_last(), targets, computed)
                + self.dirs_for_profiles(scenarios, profiles, backends.last(), targets, computed)
        }
    }

    /// What measuring the benchmark amounts to.
    pub open spec fn measure_plan_spec(
        &self,
        profiles: Seq<Profile>,
        scenarios: Seq<Scenario>,
        backends: Seq<CodegenBackend>,
        iterations: Option<usize>,
        targets: Seq<Target>,
        computed: Set<CompileTestCaseView>,
    ) -> Result<MeasurePlanView, MeasureError> {
        if self.config.disabled {
            Err(MeasureError::Disabled)
        } else {
            let ps = profiles.filter(self.profile_kept());
            let ss = scenarios.filter(self.scenario_kept());
            if ps.len() == 0 {
                Ok(MeasurePlanView::Skip(MeasureSkip::NoProfiles))
            } else if ss.len() == 0 {
                Ok(MeasurePlanView::Skip(MeasureSkip::NoScenarios))
            } else {
                let dirs = self.dirs_for_backends(ss, ps, backends, targets, computed);
                if dirs.len() == 0 {
                    Ok(MeasurePlanView::Skip(MeasureSkip::AllComputed))
                } else {
                    Ok(
                        MeasurePlanView::Run {
                            iterations: match iterations {
                                Some(n) => n,
                                None => self.config.runs,
                            },
                            dirs,
                        },
                    )
                }
            }
        }
    }

    /// A directory a plan may hold: its profile, backend and target are
    /// among those requested and its profile is not excluded; it has
    /// scenarios, each requested, not excluded, and still to compute under
    /// that profile, backend and target.
    pub open spec fn planned_dir_ok(
        &self,
        d: DirPlanView,
        profiles: Seq<Profile>,
        scenarios: Seq<Scenario>,
        backends: Seq<CodegenBackend>,
        targets: Seq<Target>,
        computed: Set<CompileTestCaseView>,
    ) -> bool {
        &&& profiles.contains(d.profile)
        &&& (self.profile_kept())(d.profile)
        &&& backends.contains(d.backend)
        &&& targets.contains(d.target)
        &&& d.scenarios.len() > 0
        &&& forall|j: int|
            0 <= j < d.scenarios.len() ==> {
                &&& scenarios.contains(#[trigger] d.scenarios[j])
                &&& (self.scenario_kept())(d.scenarios[j])
                &&& self.should_run_spec(d.scenarios[j], d.profile, d.backend, d.target, computed)
            }
    }

    proof fn lemma_dirs_for_targets_ok(
        &self,
        ss: Seq<Scenario>,
        p: Profile,
        b: CodegenBackend,
        targets: Seq<Target>,
        computed: Set<CompileTestCaseView>,
        ps_all: Seq<Profile>,
        bs_all: Seq<CodegenBackend>,
        ts_all: Seq<Target>,
    )
        requires
            ps_all.contains(p),
            (self.profile_kept())(p),
            bs_all.contains(b),
            forall|i: int| 0 <= i < targets.len() ==> ts_all.contains(#[trigger] targets[i]),
            forall|i: int| 0 <= i < ss.len() ==> (self.scenario_kept())(#[trigger] ss[i]),
        ensures
            forall|k: int|
                0 <= k < self.dirs_for_targets(ss, p, b, targets, computed).len()
                    ==> self.planned_dir_ok(
                    #[trigger] self.dirs_for_targets(ss, p, b, targets, computed)[k],
                    ps_all,
                    ss,
                    bs_all,
                    ts_all,
                    computed,
                ),
        decreases targets.len(),
    {
        if targets.len() > 0 {
            let init = targets.drop_last();
            self.lemma_dirs_for_targets_ok(ss, p, b, init, computed, ps_all, bs_all, ts_all);
            let t = targets.last();
            let a = self.dirs_for_targets(ss, p, b, init, computed);
            let last = self.dir_for(ss, p, b, t, computed);
            let pred = self.scenario_pending(p, b, t, computed);
            let rem = ss.filter(pred);
            assert forall|j: int| 0 <= j < rem.len() implies ss.contains(#[trigger] rem[j])
                && self.should_run_spec(rem[j], p, b, t, computed) by {
                ss.lemma_filter_pred(pred, j);
                assert(rem.contains(rem[j]));
                ss.lemma_filter_contains_rev(pred, rem[j]);
            }
            assert(ts_all.contains(targets[targets.len() - 1]));
            let all = self.dirs_for_targets(ss, p, b, targets, computed);
            assert forall|k: int| 0 <= k < all.len() implies self.planned_dir_ok(
                #[trigger] all[k],
                ps_all,
                ss,
                bs_all,
                ts_all,
                computed,
            ) by {
                if k < a.len() {
                    assert(all[k] == a[k]);
                } else {
                    assert(all[k] == last[k - a.len()]);
                    let d = all[k];
                    assert forall|j: int| 0 <= j < d.scenarios.len() implies {
                        &&& ss.contains(#[trigger] d.scenarios[j])
                        &&& (self.scenario_kept())(d.scenarios[j])
                        &&& self.should_run_spec(d.scenarios[j], d.profile, d.backend, d.target, computed)
                    } by {
                        assert(d.scenarios[j] == rem[j]);
                        let i = choose|i: int| 0 <= i < ss.len() && ss[i] == rem[j];
                        assert((self.scenario_kept())(ss[i]));
                    }
                }
            }
        }
    }

    proof fn lemma_dirs_for_profiles_ok(
        &self,
        ss: Seq<Scenario>,
        profiles: Seq<Profile>,
        b: CodegenBackend,
        targets: Seq<Target>,
        computed: Set<CompileTestCaseView>,
        ps_all: Seq<Profile>,
        bs_all: Seq<CodegenBackend>,
        ts_all: Seq<Target>,
    )
        requires
            forall|i: int| 0 <= i < profiles.len() ==> ps_all.contains(#[trigger] profiles[i]) && (
            self.profile_kept())(profiles[i]),
            bs_all.contains(b),
            forall|i: int| 0 <= i < targets.len() ==> ts_all.contains(#[trigger] targets[i]),
            forall|i: int| 0 <= i < ss.len() ==> (self.scenario_kept())(#[trigger] ss[i]),
        ensures
            forall|k: int|
                0 <= k < self.dirs_for_profiles(ss, profiles, b, targets, computed).len()
                    ==> self.planned_dir_ok(
                    #[trigger] self.dirs_for_profiles(ss, profiles, b, targets, computed)[k],
                    ps_all,
                    ss,
                    bs_all,
                    ts_all,
                    computed,
                ),
        decreases profiles.len(),
    {
        if profiles.len() > 0 {
            let init = profiles.drop_last();
            let p = profiles.last();
            assert(ps_all.contains(profiles[profiles.len() - 1]));
            self.lemma_dirs_for_profiles_ok(ss, init, b, targets, computed, ps_all, bs_all, ts_all);
            self.lemma_dirs_for_targets_ok(ss, p, b, targets, computed, ps_all, bs_all, ts_all);
            let a = self.dirs_for_profiles(ss, init, b, targets, computed);
            let l = self.dirs_for_targets(ss, p, b, targets, computed);
            let all = self.dirs_for_profiles(ss, profiles, b, targets, computed);
            assert forall|k: int| 0 <= k < all.len() implies self.planned_dir_ok(
                #[trigger] all[k],
                ps_all,
                ss,
                bs_all,
                ts_all,
                computed,
            ) by {
                if k < a.len() {
                    assert(all[k] == a[k]);
                } else {
                    assert(all[k] == l[k - a.len()]);
                }
            }
        }
    }

    proof fn lemma_dirs_for_backends_ok(
        &self,
        ss: Seq<Scenario>,
        profiles: Seq<Profile>,
        backends: Seq<CodegenBackend>,
        targets: Seq<Target>,
        computed: Set<CompileTestCaseView>,
        bs_all: Seq<CodegenBackend>,
    )
        requires
            forall|i: int| 0 <= i < profiles.len() ==> (self.profile_kept())(#[trigger] profiles[i]),
            forall|i: int| 0 <= i < backends.len() ==> bs_all.contains(#[trigger] backends[i]),
            forall|i: int| 0 <= i < ss.len() ==> (self.scenario_kept())(#[trigger] ss[i]),
        ensures
            forall|k: int|
                0 <= k < self.dirs_for_backends(ss, profiles, backends, targets, computed).len()
                    ==> self.planned_dir_ok(
                    #[trigger] self.dirs_for_backends(ss, profiles, backends, targets, computed)[k],
                    profiles,
                    ss,
                    bs_all,
                    targets,
                    computed,
                ),
        decreases backends.len(),
    {
        if backends.len() > 0 {
            let init = backends.drop_last();
            let b = backends.last();
            assert(bs_all.contains(backends[backends.len() - 1]));
            assert forall|i: int| 0 <= i < profiles.len() implies profiles.contains(
                #[trigger] profiles[i],
            ) && (self.profile_kept())(profiles[i]) by {}
            assert forall|i: int| 0 <= i < targets.len() implies targets.contains(
                #[trigger] targets[i],
            ) by {}
            self.lemma_dirs_for_backends_ok(ss, profiles, init, targets, computed, bs_all);
            self.lemma_dirs_for_profiles_ok(ss, profiles, b, targets, computed, profiles, bs_all, targets);
            let a = self.dirs_for_backends(ss, profiles, init, targets, computed);
            let l = self.dirs_for_profiles(ss, profiles, b, targets, computed);
            let all = self.dirs_for_backends(ss, profiles, backends, targets, computed);
            assert forall|k: int| 0 <= k < all.len() implies self.planned_dir_ok(
                #[trigger] all[k],
                profiles,
                ss,
                bs_all,
                targets,
                computed,
            ) by {
                if k < a.len() {
                    assert(all[k] == a[k]);
                } else {
                    assert(all[k] == l[k - a.len()]);
                }
            }
        }
    }

    /// Measuring never repeats a computed test case and never runs an
    /// excluded profile or scenario: every directory of a plan has a
    /// requested, non-excluded profile, a requested backend and target, and
    /// only requested, non-excluded scenarios that still have to be computed.
    pub proof fn lemma_plan_measures_only_pending(
        &self,
        profiles: Seq<Profile>,
        scenarios: Seq<Scenario>,
        backends: Seq<CodegenBackend>,
        iterations: Option<usize>,
        targets: Seq<Target>,
        computed: Set<CompileTestCaseView>,
    )
        ensures
            match self.measure_plan_spec(profiles, scenarios, backends, iterations, targets, computed) {
                Ok(MeasurePlanView::Run { dirs, .. }) => forall|k: int|
                    0 <= k < dirs.len() ==> self.planned_dir_ok(
                        #[trigger] dirs[k],
                        profiles,
                        scenarios,
                        backends,
                        targets,
                        computed,
                    ),
                _ => true,
            },
    {
        let ps = profiles.filter(self.profile_kept());
        let ss = scenarios.filter(self.scenario_kept());
        assert forall|i: int| 0 <= i < ps.len() implies (self.profile_kept())(#[trigger] ps[i]) by {
            profiles.lemma_filter_pred(self.profile_kept(), i);
        }
        assert forall|i: int| 0 <= i < ss.len() implies (self.scenario_kept())(#[trigger] ss[i]) by {
            scenarios.lemma_filter_pred(self.scenario_kept(), i);
        }
        assert forall|i: int| 0 <= i < backends.len() implies backends.contains(
            #[trigger] backends[i],
        ) by {}
        self.lemma_dirs_for_backends_ok(ss, ps, backends, targets, computed, backends);
        let dirs = self.dirs_for_backends(ss, ps, backends, targets, computed);
        assert forall|k: int| 0 <= k < dirs.len() implies self.planned_dir_ok(
            #[trigger] dirs[k],
            profiles,
            scenarios,
            backends,
            targets,
            computed,
        ) by {
            let d = dirs[k];
            assert(self.planned_dir_ok(d, ps, ss, backends, targets, computed));
            profiles.lemma_filter_contains_rev(self.profile_kept(), d.profile);
            assert forall|j: int| 0 <= j < d.scenarios.len() implies scenarios.contains(
                #[trigger] d.scenarios[j],
            ) by {
                scenarios.lemma_filter_contains_rev(self.scenario_kept(), d.scenarios[j]);
            }
        }
    }

    /// Each scenario is still to run exactly when its own recorded test case
    /// is missing: `Full` its `Empty` case, `IncrFull` its
    /// `IncrementalEmpty` case, `IncrUnchanged` its `IncrementalFresh` case
    /// (for profiles that are not documentation profiles), and `IncrPatched`
    /// the case of some patch. So recording the result of one scenario never
    /// marks another one computed.
    pub proof fn lemma_scenarios_own_test_cases(
        &self,
        profile: Profile,
        backend: CodegenBackend,
        target: Target,
        computed: Set<CompileTestCaseView>,
    )
        ensures
            self.should_run_spec(Scenario::Full, profile, backend, target, computed)
                <==> !computed.contains(
                CompileTestCaseView {
                    benchmark: self.name.0@,
                    profile,
                    backend,
                    target,
                    scenario: TestScenarioView::Empty,
                },
            ),
            !(profile is Doc || profile is DocJson) ==> (self.should_run_spec(
                Scenario::IncrFull,
                profile,
                backend,
                target,
                computed,
            ) <==> !computed.contains(
                CompileTestCaseView {
                    benchmark: self.name.0@,
                    profile,
                    backend,
                    target,
                    scenario: TestScenarioView::IncrementalEmpty,
                },
            )),
            !(profile is Doc || profile is DocJson) ==> (self.should_run_spec(
                Scenario::IncrUnchanged,
                profile,
                backend,
                target,
                computed,
            ) <==> !computed.contains(
                CompileTestCaseView {
                    benchmark: self.name.0@,
                    profile,
                    backend,
                    target,
                    scenario: TestScenarioView::IncrementalFresh,
                },
            )),
            !(profile is Doc || profile is DocJson) ==> (self.should_run_spec(
                Scenario::IncrPatched,
                profile,
                backend,
                target,
                computed,
            ) <==> exists|i: int|
                0 <= i < self.patches@.len() && !computed.contains(
                    CompileTestCaseView {
                        benchmark: self.name.0@,
                        profile,
                        backend,
                        target,
                        scenario: TestScenarioView::IncrementalPatch(#[trigger] self.patches@[i].name@),
                    },
                )),
    {
    }

    /// Recording the result of a scenario other than `IncrUnchanged`
    /// (here the `IncrFull` case) does not change whether `IncrUnchanged` is
    /// still to run, and recording `IncrUnchanged` does not change `IncrFull`.
    pub proof fn lemma_recording_one_scenario_keeps_others(
        &self,
        profile: Profile,
        backend: CodegenBackend,
        target: Target,
        computed: Set<CompileTestCaseView>,
    )
        ensures
            self.should_run_spec(
                Scenario::IncrUnchanged,
                profile,
                backend,
                target,
                computed.insert(
                    CompileTestCaseView {
                        benchmark: self.name.0@,
                        profile,
                        backend,
                        target,
                        scenario: TestScenarioView::IncrementalEmpty,
                    },
                ),
            ) == self.should_run_spec(Scenario::IncrUnchanged, profile, backend, target, computed),
            self.should_run_spec(
                Scenario::IncrFull,
                profile,
                backend,
                target,
                computed.insert(
                    CompileTestCaseView {
                        benchmark: self.name.0@,
                        profile,
                        backend,
                        target,
                        scenario: TestScenarioView::IncrementalFresh,
                    },
                ),
            ) == self.should_run_spec(Scenario::IncrFull, profile, backend, target, computed),
            self.should_run_spec(
                Scenario::Full,
                profile,
                backend,
                target,
                computed.insert(
                    CompileTestCaseView {
                        benchmark: self.name.0@,
                        profile,
                        backend,
                        target,
                        scenario: TestScenarioView::IncrementalEmpty,
                    },
                ),
            ) == self.should_run_spec(Scenario::Full, profile, backend, target, computed),
    {
    }

    /// Rustdoc does not compile incrementally: under a documentation
    /// profile no incremental scenario is ever still to compute, and a
    /// timing iteration holds no incremental build.
    pub proof fn lemma_doc_profiles_not_incremental(
        &self,
        profile: Profile,
        scenarios: Seq<Scenario>,
        backend: CodegenBackend,
        target: Target,
        computed: Set<CompileTestCaseView>,
    )
        requires
            profile.spec_is_doc(),
        ensures
            forall|s: Scenario| #[trigger]
                s.spec_is_incr() ==> !self.should_run_spec(s, profile, backend, target, computed),
            forall|i: int|
                0 <= i < timing_steps_spec(profile, scenarios, self.patches@.len()).len()
                    ==> !(#[trigger] timing_steps_spec(profile, scenarios, self.patches@.len())[i]).incremental,
    {
    }

    fn kept_profiles(&self, profiles: &[Profile]) -> (r: Vec<Profile>)
        ensures
            r@ == profiles@.filter(self.profile_kept()),
    {
        let mut out: Vec<Profile> = Vec::new();
        let mut i: usize = 0;
        while i < profiles.len()
            invariant
                i <= profiles.len(),
                out@ == profiles@.take(i as int).filter(self.profile_kept()),
            decreases profiles.len() - i,
        {
            proof {
                reveal(Seq::filter);
                assert(profiles@.take(i + 1).drop_last() =~= profiles@.take(i as int));
            }
            if !profiles_contain(self.config.excluded_profiles.as_slice(), profiles[i]) {
                out.push(profiles[i]);
            }
            i = i + 1;
        }
        assert(profiles@.take(profiles@.len() as int) =~= profiles@);
        out
    }

    fn kept_scenarios(&self, scenarios: &[Scenario]) -> (r: Vec<Scenario>)
        ensures
            r@ == scenarios@.filter(self.scenario_kept()),
    {
        let mut out: Vec<Scenario> = Vec::new();
        let mut i: usize = 0;
        while i < scenarios.len()
            invariant
                i <= scenarios.len(),
                out@ == scenarios@.take(i as int).filter(self.scenario_kept()),
            decreases scenarios.len() - i,
        {
            proof {
                reveal(Seq::filter);
                assert(scenarios@.take(i + 1).drop_last() =~= scenarios@.take(i as int));
            }
            if !scenarios_contain(self.config.excluded_scenarios.as_slice(), scenarios[i]) {
                out.push(scenarios[i]);
            }
            i = i + 1;
        }
        assert(scenarios@.take(scenarios@.len() as int) =~= scenarios@);
        out
    }

    fn pending_scenarios(
        &self,
        scenarios: &[Scenario],
        profile: Profile,
        backend: CodegenBackend,
        target: Target,
        already_computed: &ComputedSet,
    ) -> (r: Vec<Scenario>)
        ensures
            r@ == scenarios@.filter(
                self.scenario_pending(profile, backend, target, computed_cases(*already_computed)),
            ),
    {
        let ghost pred = self.scenario_pending(
            profile,
            backend,
            target,
            computed_cases(*already_computed),
        );
        let mut out: Vec<Scenario> = Vec::new();
        let mut i: usize = 0;
        while i < scenarios.len()
            invariant
                i <= scenarios.len(),
                pred == self.scenario_pending(
                    profile,
                    backend,
                    target,
                    computed_cases(*already_computed),
                ),
                out@ == scenarios@.take(i as int).filter(pred),
            decreases scenarios.len() - i,
        {
            proof {
                reveal(Seq::filter);
                assert(scenarios@.take(i + 1).drop_last() =~= scenarios@.take(i as int));
            }
            if self.should_run_scenario(&scenarios[i], &profile, &backend, &target, already_computed) {
                out.push(scenarios[i]);
            }
            i = i + 1;
        }
        assert(scenarios@.take(scenarios@.len() as int) =~= scenarios@);
        out
    }

    /// Decides what measuring the benchmark amounts to: refused when the
    /// benchmark is disabled; nothing when every requested profile or
    /// scenario is excluded, or every test case was computed before;
    /// otherwise, for each backend, profile and target (in that nesting),
    /// the directory of the scenarios still to compute there, measured the
    /// requested number of times (by default the configured one).
    pub fn plan_measure(
        &self,
        profiles: &[Profile],
        scenarios: &[Scenario],
        backends: &[CodegenBackend],
        iterations: Option<usize>,
        targets: &[Target],
        already_computed: &ComputedSet,
    ) -> (r: Result<MeasurePlan, MeasureError>)
        ensures
            match r {
                Ok(plan) => self.measure_plan_spec(
                    profiles@,
                    scenarios@,
                    backends@,
                    iterations,
                    targets@,
                    computed_cases(*already_computed),
                ) == Ok::<MeasurePlanView, MeasureError>(plan@),
                Err(e) => self.measure_plan_spec(
                    profiles@,
                    scenarios@,
                    backends@,
                    iterations,
                    targets@,
                    computed_cases(*already_computed),
                ) == Err::<MeasurePlanView, MeasureError>(e),
            },
    {
        if self.config.disabled {
            return Err(MeasureError::Disabled);
        }
        let iterations = match iterations {
            Some(n) => n,
            None => self.config.runs,
        };
        let ps = self.kept_profiles(profiles);
        if ps.len() == 0 {
            return Ok(MeasurePlan::Skip(MeasureSkip::NoProfiles));
        }
        let ss = self.kept_scenarios(scenarios);
        if ss.len() == 0 {
            return Ok(MeasurePlan::Skip(MeasureSkip::NoScenarios));
        }
        let ghost computed = computed_cases(*already_computed);
        let mut dirs: Vec<BenchmarkDirPlan> = Vec::new();
        let mut b: usize = 0;
        while b < backends.len()
            invariant
                b <= backends.len(),
                computed == computed_cases(*already_computed),
                dir_plans_view(dirs@) == self.dirs_for_backends(
                    ss@,
                    ps@,
                    backends@.take(b as int),
                    targets@,
                    computed,
                ),
            decreases backends.len() - b,
        {
            let ghost d0 = dir_plans_view(dirs@);
            let mut p: usize = 0;
            while p < ps.len()
                invariant
                    b < backends.len(),
                    p <= ps.len(),
                    computed == computed_cases(*already_computed),
                    dir_plans_view(dirs@) == d0 + self.dirs_for_profiles(
                        ss@,
                        ps@.take(p as int),
                        backends@[b as int],
                        targets@,
                        computed,
                    ),
                decreases ps.len() - p,
            {
                let ghost d1 = dir_plans_view(dirs@);
                let mut t: usize = 0;
                while t < targets.len()
                    invariant
                        b < backends.len(),
                        p < ps.len(),
                        t <= targets.len(),
                        computed == computed_cases(*already_computed),
                        dir_plans_view(dirs@) == d1 + self.dirs_for_targets(
                            ss@,
                            ps@[p as int],
                            backends@[b as int],
                            targets@.take(t as int),
                            computed,
                        ),
                    decreases targets.len() - t,
                {
                    let rem = self.pending_scenarios(
                        ss.as_slice(),
                        ps[p],
                        backends[b],
                        targets[t],
                        already_computed,
                    );
                    let ghost d2 = dir_plans_view(dirs@);
                    if rem.len() > 0 {
                        let dir = BenchmarkDirPlan {
                            scenarios: rem,
                            profile: ps[p],
                            backend: backends[b],
                            target: targets[t],
                        };
                        let ghost dv = dir@;
                        dirs.push(dir);
                        assert(dir_plans_view(dirs@) =~= d2.push(dv));
                    }
                    proof {
                        assert(targets@.take(t + 1).drop_last() =~= targets@.take(t as int));
                        assert(dir_plans_view(dirs@) =~= d2 + self.dir_for(
                            ss@,
                            ps@[p as int],
                            backends@[b as int],
                            targets@[t as int],
                            computed,
                        ));
                    }
                    t = t + 1;
                }
                proof {
                    assert(targets@.take(targets@.len() as int) =~= targets@);
                    assert(ps@.take(p + 1).drop_last() =~= ps@.take(p as int));
                }
                p = p + 1;
            }
            proof {
                assert(ps@.take(ps@.len() as int) =~= ps@);
                assert(backends@.take(b + 1).drop_last() =~= backends@.take(b as int));
            }
            b = b + 1;
        }
        assert(backends@.take(backends@.len() as int) =~= backends@);
        if dirs.len() == 0 {
            return Ok(MeasurePlan::Skip(MeasureSkip::AllComputed));
        }
        Ok(MeasurePlan::Run { iterations, dirs })
    }
}


/// The text of an optional string, empty when absent.
pub open spec fn opt_text(o: Option<String>) -> Seq<char> {
    match o {
        Some(s) => s@,
        None => Seq::empty(),
    }
}

/// The cargo job count argument that `CARGO_THREAD_COUNT` asks for: `-j<n>`
/// when the variable holds a `u32`, nothing otherwise.
pub open spec fn thread_count_args(var: Option<Seq<char>>) -> Seq<Seq<char>> {
    match var {
        Some(v) => match parse_u32_spec(v) {
            Some(n) => seq!["-j"@ + decimal_digits(n as nat)],
            None => Seq::empty(),
        },
        None => Seq::empty(),
    }
}

fn clone_opt_string(o: &Option<String>) -> (r: Option<String>)
    ensures
        r == *o,
{
    match o {
        Some(s) => Some(s.clone()),
        None => None,
    }
}

impl Benchmark {
    /// The cargo invocation for this benchmark with a toolchain in `cwd`:
    /// the configured cargo options split at white space (plus `-j<n>` when
    /// `thread_count_var`, the value of `CARGO_THREAD_COUNT`, holds a number),
    /// the configured manifest (by default `Cargo.toml`), the configured
    /// rustc options split at white space, file to touch and package; not
    /// incremental, with no processor and no jobserver.
    pub fn mk_cargo_process<'a>(
        &'a self,
        toolchain: &'a Toolchain,
        cwd: &'a Path,
        profile: Profile,
        backend: CodegenBackend,
        target: Target,
        thread_count_var: Option<&str>,
    ) -> (r: CargoProcess<'a>)
        ensures
            r.toolchain == toolchain,
            r.cwd == cwd,
            r.profile == profile,
            r.backend == backend,
            r.target == target,
            !r.incremental,
            r.processor_etc is None,
            r.jobserver is None,
            r.processor_name.0@ == self.name.0@,
            r.manifest_path@ == match self.config.cargo_toml {
                Some(m) => m@,
                None => "Cargo.toml"@,
            },
            string_views(r.cargo_args@) == split_ws(opt_text(self.config.cargo_opts))
                + thread_count_args(opt_string_view(thread_count_var)),
            string_views(r.rustc_args@) == split_ws(opt_text(self.config.cargo_rustc_opts)),
            r.touch_file == self.config.touch_file,
            r.workspace_package == self.config.package,
    {
        let mut cargo_args = match &self.config.cargo_opts {
            Some(opts) => split_whitespace(opts.as_str()),
            None => {
                let v: Vec<String> = Vec::new();
                assert(split_ws(Seq::<char>::empty()) =~= Seq::<Seq<char>>::empty());
                assert(string_views(v@) =~= Seq::<Seq<char>>::empty());
                v
            },
        };
        let ghost before = string_views(cargo_args@);
        match thread_count_var {
            Some(v) => match parse_u32(v) {
                Some(count) => {
                    let arg = "-j".to_owned().concat(u32_to_decimal(count).as_str());
                    cargo_args.push(arg);
                    assert(string_views(cargo_args@) =~= before + thread_count_args(
                        opt_string_view(thread_count_var),
                    ));
                },
                None => {
                    assert(string_views(cargo_args@) =~= before + thread_count_args(
                        opt_string_view(thread_count_var),
                    ));
                },
            },
            None => {
                assert(string_views(cargo_args@) =~= before + thread_count_args(
                    opt_string_view(thread_count_var),
                ));
            },
        }
        let rustc_args = match &self.config.cargo_rustc_opts {
            Some(opts) => split_whitespace(opts.as_str()),
            None => {
                let v: Vec<String> = Vec::new();
                assert(split_ws(Seq::<char>::empty()) =~= Seq::<Seq<char>>::empty());
                assert(string_views(v@) =~= Seq::<Seq<char>>::empty());
                v
            },
        };
        let manifest_path = match &self.config.cargo_toml {
            Some(m) => m.clone(),
            None => "Cargo.toml".to_owned(),
        };
        CargoProcess {
            toolchain,
            cwd,
            profile,
            backend,
            incremental: false,
            processor_etc: None,
            processor_name: self.name.duplicate(),
            manifest_path,
            cargo_args,
            rustc_args,
            touch_file: clone_opt_string(&self.config.touch_file),
            jobserver: None,
            target,
            workspace_package: clone_opt_string(&self.config.package),
        }
    }
}

} // verus!
