use collector::compile::benchmark::category::Category;
use collector::compile::benchmark::codegen_backend::CodegenBackend;
use collector::compile::benchmark::patch::Patch;
use collector::compile::benchmark::profile::Profile;
use collector::compile::benchmark::scenario::Scenario;
use collector::compile::benchmark::target::Target;
use collector::compile::benchmark::{default_runs, ArtifactType, Benchmark, BenchmarkConfig};
use collector::compile::execute::bencher::Bencher;
use collector::compile::execute::profiler::Profiler;
use collector::compile::execute::{
    parse_p_core_list, performance_cores, pkgid_from_output, run_on_p_cores, CmdValue,
    CommandPlan, EnvVar, PCoreListError, PerfTool, RunRustcError, TouchTarget,
};
use collector::toolchain::{Toolchain, ToolchainComponents};
use std::path::{Path, PathBuf};

fn text(s: &str) -> CmdValue {
    CmdValue::Text(s.to_string())
}

fn path(s: &str) -> CmdValue {
    CmdValue::Path(PathBuf::from(s))
}

fn env(name: &str, value: CmdValue) -> EnvVar {
    EnvVar { name: name.to_string(), value }
}

fn config() -> BenchmarkConfig {
    BenchmarkConfig {
        cargo_opts: Some("--locked".to_string()),
        cargo_rustc_opts: Some("-Copt-level=1".to_string()),
        cargo_toml: None,
        disabled: false,
        runs: default_runs(),
        touch_file: None,
        category: Category::Primary,
        excluded_profiles: vec![],
        excluded_scenarios: vec![],
        artifact: ArtifactType::Library,
        package: Some("pkg".to_string()),
    }
}

fn toolchain(rustdoc: bool, configs: Vec<String>) -> Toolchain {
    Toolchain {
        components: ToolchainComponents {
            rustc: PathBuf::from("/tc/rustc"),
            rustdoc: if rustdoc { Some(PathBuf::from("/tc/rustdoc")) } else { None },
            clippy: None,
            cargo: PathBuf::from("/tc/cargo"),
            cargo_configs: configs,
        },
        id: "tc".to_string(),
        triple: "x86_64-unknown-linux-gnu".to_string(),
    }
}

fn base_envs() -> Vec<EnvVar> {
    vec![
        env("RUSTC", CmdValue::FakeRustc),
        env("RUSTC_REAL", path("/tc/rustc")),
        env("CARGO", path("/tc/cargo")),
        env("CARGO_INCREMENTAL", text("0")),
        env("RUSTC_BOOTSTRAP", text("1")),
    ]
}

#[test]
fn perf_tool_names() {
    assert_eq!(PerfTool::BenchTool(Bencher::PerfStat).name(), "PerfStat");
    assert_eq!(PerfTool::ProfileTool(Profiler::LlvmLines).name(), "LlvmLines");
    assert_eq!(PerfTool::ProfileTool(Profiler::DepGraph).name(), "DepGraph");
    assert_eq!(
        PerfTool::BenchTool(Bencher::XperfStatSelfProfile).name(),
        format!("{:?}", Bencher::XperfStatSelfProfile)
    );
}

#[test]
fn perf_tool_subcommands() {
    let stat = PerfTool::BenchTool(Bencher::PerfStat);
    assert_eq!(stat.cargo_subcommand(Profile::Check), Some("rustc"));
    assert_eq!(stat.cargo_subcommand(Profile::Doc), Some("rustdoc"));
    assert_eq!(stat.cargo_subcommand(Profile::DocJson), Some("rustdoc"));
    let lines = PerfTool::ProfileTool(Profiler::LlvmLines);
    assert_eq!(lines.cargo_subcommand(Profile::Debug), Some("llvm-lines"));
    assert_eq!(lines.cargo_subcommand(Profile::Opt), Some("llvm-lines"));
    assert_eq!(lines.cargo_subcommand(Profile::Check), None);
    assert!(lines.calls_cargo_recursively());
    assert!(!stat.calls_cargo_recursively());
}

#[test]
fn perf_tool_scenarios() {
    let dep = PerfTool::ProfileTool(Profiler::DepGraph);
    assert!(!dep.is_scenario_allowed(Scenario::Full));
    assert!(dep.is_scenario_allowed(Scenario::IncrFull));
    let lines = PerfTool::ProfileTool(Profiler::LlvmLines);
    assert!(lines.is_scenario_allowed(Scenario::Full));
    assert!(!lines.is_scenario_allowed(Scenario::IncrPatched));
    assert!(PerfTool::BenchTool(Bencher::PerfStat).is_scenario_allowed(Scenario::IncrUnchanged));
}

#[test]
fn p_core_lists() {
    assert_eq!(parse_p_core_list("0-7"), Ok((0, 7)));
    assert_eq!(parse_p_core_list("4-4"), Ok((4, 4)));
    assert_eq!(parse_p_core_list("0,2"), Err(PCoreListError::UnsupportedFormat));
    assert_eq!(parse_p_core_list("a-7"), Err(PCoreListError::BadStart));
    assert_eq!(parse_p_core_list("0-"), Err(PCoreListError::BadEnd));
    assert_eq!(parse_p_core_list("0-7-9"), Err(PCoreListError::BadEnd));
    assert_eq!(parse_p_core_list("8-2"), Err(PCoreListError::EndBeforeStart));
}

#[test]
fn pinned_command() {
    let cmd = run_on_p_cores(path("/tc/cargo"), "2-9");
    assert_eq!(
        cmd,
        CommandPlan {
            program: text("taskset"),
            args: vec![text("--cpu-list"), text("2-9"), path("/tc/cargo")],
            envs: vec![env("CARGO_BUILD_JOBS", text("8"))],
        }
    );
}

#[test]
fn pinned_job_count_is_the_number_of_listed_cores() {
    let jobs = |list: &str| run_on_p_cores(path("/usr/bin/cargo"), list).envs;
    assert_eq!(jobs("0-7"), vec![env("CARGO_BUILD_JOBS", text("8"))]);
    assert_eq!(jobs("5-5"), vec![env("CARGO_BUILD_JOBS", text("1"))]);
    assert_eq!(jobs("0-4294967295"), vec![env("CARGO_BUILD_JOBS", text("4294967296"))]);
}

#[test]
fn performance_core_detection() {
    assert_eq!(performance_cores(true, Some("0-7\n")), None);
    assert_eq!(performance_cores(false, Some(" 0-15\n")), Some("0-15".to_string()));
    assert_eq!(performance_cores(false, None), None);
    assert_eq!(performance_cores(true, None), None);
}

#[test]
fn base_command_plain_and_pinned() {
    let b = Benchmark::assemble("b".to_string(), PathBuf::from("b"), vec![], config());
    let tc = toolchain(true, vec!["a=1".to_string()]);
    let cwd = Path::new("/work");
    let p = b.mk_cargo_process(&tc, cwd, Profile::Check, CodegenBackend::Llvm, Target::X86_64UnknownLinuxGnu, None);
    let envs = || {
        let mut envs = base_envs();
        envs.push(env("RUSTDOC", CmdValue::FakeRustdoc));
        envs.push(env("RUSTDOC_REAL", path("/tc/rustdoc")));
        envs
    };
    assert_eq!(
        p.base_command("rustc", None),
        CommandPlan {
            program: path("/tc/cargo"),
            args: vec![
                text("rustc"),
                text("--manifest-path"),
                text("Cargo.toml"),
                text("--config"),
                text("a=1"),
            ],
            envs: envs(),
        }
    );
    let pinned = p.base_command("rustc", Some("0-3"));
    assert_eq!(pinned.program, text("taskset"));
    assert_eq!(pinned.args[..3], [text("--cpu-list"), text("0-3"), path("/tc/cargo")]);
    assert_eq!(pinned.args[3], text("rustc"));
    assert_eq!(pinned.envs[0], env("CARGO_BUILD_JOBS", text("4")));
    assert_eq!(pinned.envs[1..], envs()[..]);
}

#[test]
fn pkgid_command_names_package() {
    let b = Benchmark::assemble("b".to_string(), PathBuf::from("b"), vec![], config());
    let tc = toolchain(false, vec![]);
    let p = b.mk_cargo_process(&tc, Path::new("/w"), Profile::Debug, CodegenBackend::Llvm, Target::X86_64UnknownLinuxGnu, None);
    let cmd = p.pkgid_command(None);
    assert_eq!(
        cmd.args,
        vec![text("pkgid"), text("--manifest-path"), text("Cargo.toml"), text("-p"), text("pkg")]
    );
    assert_eq!(cmd.envs, base_envs());
    assert_eq!(pkgid_from_output("  path+file:///w#b@0.1.0\n"), "path+file:///w#b@0.1.0");
}

#[test]
fn rustc_subcommands_and_refusals() {
    let b = Benchmark::assemble("b".to_string(), PathBuf::from("b"), vec![], config());
    let tc = toolchain(false, vec![]);
    let mk = |profile| {
        b.mk_cargo_process(&tc, Path::new("/w"), profile, CodegenBackend::Llvm, Target::X86_64UnknownLinuxGnu, None)
    };
    assert_eq!(mk(Profile::Check).rustc_subcommand(), Ok("rustc"));
    assert_eq!(mk(Profile::Doc).rustc_subcommand(), Ok("rustdoc"));
    let lines = PerfTool::ProfileTool(Profiler::LlvmLines);
    assert_eq!(
        mk(Profile::Opt).processor(lines, Scenario::Full, "Full".to_string(), None).rustc_subcommand(),
        Ok("llvm-lines")
    );
    assert_eq!(
        mk(Profile::Check).processor(lines, Scenario::Full, "Full".to_string(), None).rustc_subcommand(),
        Err(RunRustcError::ProfileNotSupported(Profile::Check))
    );
    assert_eq!(
        mk(Profile::Opt)
            .processor(lines, Scenario::IncrFull, "IncrFull".to_string(), None)
            .rustc_subcommand(),
        Err(RunRustcError::ScenarioNotSupported(Scenario::IncrFull))
    );
}

#[test]
fn measured_build_command() {
    let patch = Patch::new(0, "p0".to_string(), PathBuf::from("0-p0.patch"));
    let b = Benchmark::assemble("b".to_string(), PathBuf::from("b"), vec![], config());
    let tc = toolchain(false, vec![]);
    let p = b
        .mk_cargo_process(&tc, Path::new("/w"), Profile::Clippy, CodegenBackend::Cranelift, Target::X86_64UnknownLinuxGnu, None)
        .incremental(true)
        .processor(PerfTool::BenchTool(Bencher::PerfStat), Scenario::IncrPatched, "IncrPatched0".to_string(), Some(&patch));
    assert!(p.incremental);
    let plan = p.rustc_command("rustc", "b@0.1.0", true, "-Dwarnings", true, None);
    assert_eq!(
        plan.command.args,
        vec![
            text("rustc"),
            text("--manifest-path"),
            text("Cargo.toml"),
            text("-p"),
            text("b@0.1.0"),
            text("--profile"),
            text("check"),
            text("--locked"),
            text("-Zunstable-options"),
            text("-Ztimings"),
            text("--"),
            text("-Zcodegen-backend=cranelift"),
            text("--wrap-rustc-with"),
            text("PerfStat"),
            text("-Copt-level=1"),
            text("-C"),
            CmdValue::IncrementalState,
        ]
    );
    let mut envs = base_envs();
    envs.push(env("RUSTFLAGS", text("-Dwarnings -Wclippy::all")));
    envs.push(env("RUSTC", CmdValue::FakeClippy));
    envs.push(env("EXPECT_ONLY_WRAPPED_RUSTC", text("1")));
    assert_eq!(plan.command.envs, envs);
    assert_eq!(plan.touch, Some(TouchTarget::ManifestDir("Cargo.toml".to_string())));

    let data = p.output_data().expect("a processor was set");
    assert_eq!(data.name.0, "b");
    assert_eq!(data.scenario, Scenario::IncrPatched);
    assert_eq!(data.scenario_str, "IncrPatched0");
    assert_eq!(data.patch.map(|x| x.name.as_str()), Some("p0"));
    assert_eq!(data.profile, Profile::Clippy);
    assert_eq!(data.backend, CodegenBackend::Cranelift);
}

#[test]
fn preparatory_build_command() {
    let mut c = config();
    c.touch_file = Some("src/main.rs".to_string());
    c.cargo_opts = None;
    let b = Benchmark::assemble("b".to_string(), PathBuf::from("b"), vec![], c);
    let tc = toolchain(false, vec![]);
    let p = b.mk_cargo_process(&tc, Path::new("/w"), Profile::Opt, CodegenBackend::Llvm, Target::X86_64UnknownLinuxGnu, None);
    assert!(p.output_data().is_none());
    let plan = p.rustc_command("rustc", "b", false, "", false, None);
    assert_eq!(
        plan.command.args[3..],
        [text("-p"), text("b"), text("--release"), text("--"), text("--skip-this-rustc")]
    );
    assert_eq!(plan.command.envs, base_envs());
    assert_eq!(plan.touch, None);

    let measured = p.processor(
        PerfTool::ProfileTool(Profiler::LlvmLines),
        Scenario::Full,
        "Full".to_string(),
        None,
    );
    let plan = measured.rustc_command("llvm-lines", "b", true, "", false, None);
    assert_eq!(plan.command.envs, base_envs());
    assert_eq!(plan.touch, Some(TouchTarget::File("src/main.rs".to_string())));
}
