use collector::compile::benchmark::category::Category;
use collector::compile::benchmark::codegen_backend::CodegenBackend;
use collector::compile::benchmark::patch::Patch;
use collector::compile::benchmark::profile::Profile;
use collector::compile::benchmark::scenario::Scenario;
use collector::compile::benchmark::target::Target;
use collector::compile::benchmark::{
    compile_benchmark_dir, default_runs, sort_patches, timing_runs, ArtifactType, Benchmark,
    BenchmarkConfig, BenchmarkDirPlan, BenchmarkName, MeasureError, MeasurePlan, MeasureSkip,
    RunStep,
};
use collector::compile::execute::{CmdValue, CommandPlan};
use collector::selector::{CompileTestCase, ComputedSet, TestScenario};
use collector::toolchain::{Toolchain, ToolchainComponents};
use std::path::{Path, PathBuf};

fn config() -> BenchmarkConfig {
    BenchmarkConfig {
        cargo_opts: None,
        cargo_rustc_opts: None,
        cargo_toml: None,
        disabled: false,
        runs: default_runs(),
        touch_file: None,
        category: Category::Primary,
        excluded_profiles: vec![],
        excluded_scenarios: vec![],
        artifact: ArtifactType::Library,
        package: None,
    }
}

fn patch(index: usize, name: &str) -> Patch {
    Patch::new(index, name.to_string(), PathBuf::from(format!("{name}.patch")))
}

fn benchmark(name: &str, patches: Vec<Patch>, config: BenchmarkConfig) -> Benchmark {
    Benchmark::assemble(name.to_string(), PathBuf::from(name), patches, config)
}

fn toolchain() -> Toolchain {
    Toolchain {
        components: ToolchainComponents {
            rustc: PathBuf::from("/tc/rustc"),
            rustdoc: None,
            clippy: None,
            cargo: PathBuf::from("/tc/cargo"),
            cargo_configs: vec![],
        },
        id: "tc".to_string(),
        triple: "x86_64-unknown-linux-gnu".to_string(),
    }
}

fn step(scenario: Scenario, name: &str, incremental: bool, patch: Option<usize>) -> RunStep {
    RunStep { scenario, scenario_str: name.to_string(), incremental, patch }
}

#[test]
fn default_runs_is_three() {
    assert_eq!(default_runs(), 3);
}

#[test]
fn benchmark_names() {
    let name = BenchmarkName::new("regex-1.5.5");
    assert_eq!(name.as_str(), "regex-1.5.5");
    assert_eq!(name.duplicate(), name);
    assert_eq!(name.0, "regex-1.5.5");
}

#[test]
fn artifact_types() {
    assert_eq!(ArtifactType::Binary.as_str(), "binary");
    assert_eq!(ArtifactType::Library.as_str(), "library");
    assert_eq!(ArtifactType::default(), ArtifactType::Library);
}

#[test]
fn config_getters() {
    let mut c = config();
    c.runs = 7;
    c.category = Category::Secondary;
    c.artifact = ArtifactType::Binary;
    assert_eq!(c.iterations(), 7);
    assert_eq!(c.category(), Category::Secondary);
    assert_eq!(c.artifact(), ArtifactType::Binary);
    let b = benchmark("b", vec![], c);
    assert_eq!(b.category(), Category::Secondary);
}

#[test]
fn patches_sorted_by_index_stably() {
    let sorted = sort_patches(vec![patch(2, "c"), patch(0, "a"), patch(1, "b1"), patch(1, "b2")]);
    let names: Vec<&str> = sorted.iter().map(|p| p.name.as_str()).collect();
    assert_eq!(names, vec!["a", "b1", "b2", "c"]);
    let b = benchmark("x", vec![patch(1, "second"), patch(0, "first")], config());
    assert_eq!(b.patches[0].name, "first");
    assert_eq!(b.patches[1].name, "second");
    assert_eq!(b.name.0, "x");
    assert_eq!(b.path, PathBuf::from("x"));
}

#[test]
fn benchmark_dir_path() {
    assert_eq!(compile_benchmark_dir(), PathBuf::from("collector/compile-benchmarks"));
}

#[test]
fn copy_command() {
    let from = PathBuf::from("/bench/.");
    let to = PathBuf::from("/tmp/x");
    let cmd = Benchmark::copy(&from, &to);
    assert_eq!(
        cmd,
        CommandPlan {
            program: CmdValue::Text("cp".to_string()),
            args: vec![
                CmdValue::Text("-pLR".to_string()),
                CmdValue::Path(from.clone()),
                CmdValue::Path(to.clone()),
            ],
            envs: vec![],
        }
    );
}

#[test]
fn timing_run_counts() {
    assert_eq!(timing_runs(1, false), 1);
    assert_eq!(timing_runs(1, true), 2);
    assert_eq!(timing_runs(0, false), 2);
    assert_eq!(timing_runs(3, true), 3);
    assert_eq!(timing_runs(5, false), 5);
}

#[test]
fn timing_steps_for_all_scenarios() {
    let b = benchmark("b", vec![patch(0, "p0"), patch(1, "p1")], config());
    let all = [Scenario::Full, Scenario::IncrFull, Scenario::IncrUnchanged, Scenario::IncrPatched];
    let steps = b.timing_steps(Profile::Check, &all);
    assert_eq!(
        steps,
        vec![
            step(Scenario::Full, "Full", false, None),
            step(Scenario::IncrFull, "IncrFull", true, None),
            step(Scenario::IncrUnchanged, "IncrUnchanged", true, None),
            step(Scenario::IncrPatched, "IncrPatched0", true, Some(0)),
            step(Scenario::IncrPatched, "IncrPatched1", true, Some(1)),
        ]
    );
}

#[test]
fn timing_steps_for_doc_profiles_are_not_incremental() {
    let b = benchmark("b", vec![patch(0, "p0")], config());
    let all = [Scenario::Full, Scenario::IncrFull, Scenario::IncrPatched];
    assert_eq!(b.timing_steps(Profile::Doc, &all), vec![step(Scenario::Full, "Full", false, None)]);
    assert!(b.timing_steps(Profile::DocJson, &[Scenario::IncrUnchanged]).is_empty());
}

#[test]
fn incremental_steps_need_a_build_from_scratch() {
    let b = benchmark("b", vec![], config());
    assert_eq!(
        b.timing_steps(Profile::Debug, &[Scenario::IncrUnchanged]),
        vec![
            step(Scenario::IncrFull, "IncrFull", true, None),
            step(Scenario::IncrUnchanged, "IncrUnchanged", true, None),
        ]
    );
}

fn case(name: &str, scenario: TestScenario) -> CompileTestCase {
    CompileTestCase {
        benchmark: name.to_string(),
        profile: Profile::Check,
        backend: CodegenBackend::Llvm,
        target: Target::X86_64UnknownLinuxGnu,
        scenario,
    }
}

#[test]
fn should_run_scenario_consults_computed_cases() {
    let b = benchmark("b", vec![patch(0, "p0"), patch(1, "p1")], config());
    let mut computed = ComputedSet::new();
    let run = |b: &Benchmark, s: Scenario, p: Profile, c: &ComputedSet| {
        b.should_run_scenario(&s, &p, &CodegenBackend::Llvm, &Target::X86_64UnknownLinuxGnu, c)
    };
    assert!(run(&b, Scenario::Full, Profile::Check, &computed));
    assert!(computed.insert(case("b", TestScenario::Empty)));
    assert!(!computed.insert(case("b", TestScenario::Empty)));
    assert!(!run(&b, Scenario::Full, Profile::Check, &computed));
    assert!(run(&b, Scenario::Full, Profile::Debug, &computed));
    assert!(run(&b, Scenario::IncrPatched, Profile::Check, &computed));
    computed.insert(case("b", TestScenario::IncrementalPatch("p0".to_string())));
    assert!(run(&b, Scenario::IncrPatched, Profile::Check, &computed));
    computed.insert(case("b", TestScenario::IncrementalPatch("p1".to_string())));
    assert!(!run(&b, Scenario::IncrPatched, Profile::Check, &computed));
    assert!(!run(&b, Scenario::IncrFull, Profile::Doc, &ComputedSet::new()));
    assert!(run(&b, Scenario::Full, Profile::Doc, &ComputedSet::new()));
}

#[test]
fn plan_measure_refuses_disabled_benchmarks() {
    let mut c = config();
    c.disabled = true;
    let b = benchmark("b", vec![], c);
    let r = b.plan_measure(
        &[Profile::Check],
        &[Scenario::Full],
        &[CodegenBackend::Llvm],
        None,
        &[Target::X86_64UnknownLinuxGnu],
        &ComputedSet::new(),
    );
    assert_eq!(r, Err(MeasureError::Disabled));
}

#[test]
fn plan_measure_skips() {
    let mut c = config();
    c.excluded_profiles = vec![Profile::Opt];
    c.excluded_scenarios = vec![Scenario::IncrPatched];
    let b = benchmark("b", vec![], c);
    let targets = [Target::X86_64UnknownLinuxGnu];
    let llvm = [CodegenBackend::Llvm];
    let none = ComputedSet::new();
    assert_eq!(
        b.plan_measure(&[Profile::Opt], &[Scenario::Full], &llvm, None, &targets, &none),
        Ok(MeasurePlan::Skip(MeasureSkip::NoProfiles))
    );
    assert_eq!(
        b.plan_measure(&[Profile::Check], &[Scenario::IncrPatched], &llvm, None, &targets, &none),
        Ok(MeasurePlan::Skip(MeasureSkip::NoScenarios))
    );
    let mut computed = ComputedSet::new();
    computed.insert(case("b", TestScenario::Empty));
    assert_eq!(
        b.plan_measure(&[Profile::Check], &[Scenario::Full], &llvm, None, &targets, &computed),
        Ok(MeasurePlan::Skip(MeasureSkip::AllComputed))
    );
}

#[test]
fn plan_measure_lists_directories() {
    let b = benchmark("b", vec![], config());
    let mut computed = ComputedSet::new();
    computed.insert(case("b", TestScenario::Empty));
    let plan = b.plan_measure(
        &[Profile::Check, Profile::Debug],
        &[Scenario::Full, Scenario::IncrFull],
        &[CodegenBackend::Llvm, CodegenBackend::Cranelift],
        Some(1),
        &[Target::X86_64UnknownLinuxGnu],
        &computed,
    );
    let dir = |scenarios: Vec<Scenario>, profile, backend| BenchmarkDirPlan {
        scenarios,
        profile,
        backend,
        target: Target::X86_64UnknownLinuxGnu,
    };
    assert_eq!(
        plan,
        Ok(MeasurePlan::Run {
            iterations: 1,
            dirs: vec![
                dir(vec![Scenario::IncrFull], Profile::Check, CodegenBackend::Llvm),
                dir(vec![Scenario::Full, Scenario::IncrFull], Profile::Debug, CodegenBackend::Llvm),
                dir(vec![Scenario::Full, Scenario::IncrFull], Profile::Check, CodegenBackend::Cranelift),
                dir(vec![Scenario::Full, Scenario::IncrFull], Profile::Debug, CodegenBackend::Cranelift),
            ],
        })
    );
    let default_iterations = b.plan_measure(
        &[Profile::Opt],
        &[Scenario::Full],
        &[CodegenBackend::Llvm],
        None,
        &[Target::X86_64UnknownLinuxGnu],
        &computed,
    );
    match default_iterations {
        Ok(MeasurePlan::Run { iterations, .. }) => assert_eq!(iterations, 3),
        other => panic!("unexpected plan {other:?}"),
    }
}

#[test]
fn cargo_process_from_configuration() {
    let mut c = config();
    c.cargo_opts = Some("  --features  x ".to_string());
    c.cargo_rustc_opts = Some("-Cdebuginfo=1".to_string());
    c.cargo_toml = Some("sub/Cargo.toml".to_string());
    c.touch_file = Some("src/lib.rs".to_string());
    c.package = Some("pkg".to_string());
    let b = benchmark("b", vec![], c);
    let tc = toolchain();
    let cwd = Path::new("/work");
    let p = b.mk_cargo_process(
        &tc,
        cwd,
        Profile::Opt,
        CodegenBackend::Llvm,
        Target::X86_64UnknownLinuxGnu,
        Some("8"),
    );
    assert_eq!(p.cargo_args, vec!["--features", "x", "-j8"]);
    assert_eq!(p.rustc_args, vec!["-Cdebuginfo=1"]);
    assert_eq!(p.manifest_path, "sub/Cargo.toml");
    assert_eq!(p.touch_file.as_deref(), Some("src/lib.rs"));
    assert_eq!(p.workspace_package.as_deref(), Some("pkg"));
    assert_eq!(p.processor_name.0, "b");
    assert!(!p.incremental);
    assert!(p.processor_etc.is_none());
    assert!(p.jobserver.is_none());
    assert_eq!(p.cwd, cwd);

    let plain = benchmark("plain", vec![], config());
    let q = plain.mk_cargo_process(
        &tc,
        cwd,
        Profile::Check,
        CodegenBackend::Llvm,
        Target::X86_64UnknownLinuxGnu,
        Some("many"),
    );
    assert!(q.cargo_args.is_empty());
    assert!(q.rustc_args.is_empty());
    assert_eq!(q.manifest_path, "Cargo.toml");
}

#[test]
fn patches_from_file_names() {
    let p = Patch::from_file_name("1-add-fn.patch", PathBuf::from("b/1-add-fn.patch"));
    assert_eq!(p.index, 1);
    assert_eq!(p.name, "add-fn");
    assert_eq!(p.path, PathBuf::from("b/1-add-fn.patch"));
    let p = Patch::from_file_name("println.patch", PathBuf::from("println.patch"));
    assert_eq!((p.index, p.name.as_str()), (0, "println"));
    let p = Patch::from_file_name("x-y.diff", PathBuf::from("x-y.diff"));
    assert_eq!((p.index, p.name.as_str()), (0, "y.diff"));
}
