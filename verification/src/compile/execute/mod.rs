//! Planning the cargo invocations that build and measure a benchmark.
use crate::compile::benchmark::codegen_backend::CodegenBackend;
use crate::compile::benchmark::patch::Patch;
use crate::compile::benchmark::profile::Profile;
use crate::compile::benchmark::target::Target;
use crate::compile::benchmark::BenchmarkName;
use crate::toolchain::Toolchain;
use crate::compile::benchmark::scenario::Scenario;
use crate::paths::clone_path_buf;
use vstd::string::StringExecFns;
use crate::text::{
    decimal_digits, first_index, parse_u32, parse_u32_spec, str_split_once, string_views,
    trim, trim_str, u64_to_decimal,
};
use crate::toolchain::ToolchainComponents;
use std::path::{Path, PathBuf};
use vstd::prelude::*;

pub mod bencher;
pub mod profiler;
pub mod stat_output;

use bencher::Bencher;
use profiler::Profiler;

verus! {

/// The tool a benchmark run is measured or profiled with.
#[derive(Clone, Copy, Debug, PartialEq, Eq, Structural)]
pub enum PerfTool {
    BenchTool(Bencher),
    ProfileTool(Profiler),
}

/// The name a bencher is known by (its variant name).
pub open spec fn bencher_name(b: Bencher) -> Seq<char> {
    match b {
        Bencher::PerfStat => "PerfStat"@,
        Bencher::PerfStatSelfProfile => "PerfStatSelfProfile"@,
        Bencher::XperfStat => "XperfStat"@,
        Bencher::XperfStatSelfProfile => "XperfStatSelfProfile"@,
    }
}

/// The name a profiler is known by (its variant name).
pub open spec fn profiler_name(p: Profiler) -> Seq<char> {
    match p {
        Profiler::SelfProfile => "SelfProfile"@,
        Profiler::PerfRecord => "PerfRecord"@,
        Profiler::Oprofile => "Oprofile"@,
        Profiler::Samply => "Samply"@,
        Profiler::Cachegrind => "Cachegrind"@,
        Profiler::Callgrind => "Callgrind"@,
        Profiler::Dhat => "Dhat"@,
        Profiler::DhatCopy => "DhatCopy"@,
        Profiler::Massif => "Massif"@,
        Profiler::Bytehound => "Bytehound"@,
        Profiler::Eprintln => "Eprintln"@,
        Profiler::LlvmLines => "LlvmLines"@,
        Profiler::MonoItems => "MonoItems"@,
        Profiler::LlvmIr => "LlvmIr"@,
        Profiler::DepGraph => "DepGraph"@,
    }
}

pub open spec fn perf_tool_name(t: PerfTool) -> Seq<char> {
    match t {
        PerfTool::BenchTool(b) => bencher_name(b),
        PerfTool::ProfileTool(p) => profiler_name(p),
    }
}

/// The cargo subcommand that runs a tool under a profile, if the tool
/// supports that profile.
pub open spec fn cargo_subcommand_spec(t: PerfTool, profile: Profile) -> Option<Seq<char>> {
    match t {
        PerfTool::ProfileTool(Profiler::LlvmLines) => match profile {
            Profile::Debug | Profile::Opt => Some("llvm-lines"@),
            _ => None,
        },
        _ => if profile.spec_is_doc() {
            Some("rustdoc"@)
        } else {
            Some("rustc"@)
        },
    }
}

/// Whether a tool can measure a scenario: the dependency graph is only
/// produced incrementally, and `cargo llvm-lines` only builds from scratch.
pub open spec fn scenario_allowed_spec(t: PerfTool, scenario: Scenario) -> bool {
    match t {
        PerfTool::ProfileTool(Profiler::DepGraph) => !(scenario is Full),
        PerfTool::ProfileTool(Profiler::LlvmLines) => scenario is Full,
        _ => true,
    }
}

/// Every tool but `cargo llvm-lines` supports every profile, running
/// `rustdoc` for the documentation profiles and `rustc` for the others;
/// `cargo llvm-lines` supports the debug and optimized profiles only. Every
/// tool but the dependency graph and `cargo llvm-lines` supports every
/// scenario; so such a tool never refuses a build.
pub proof fn lemma_tools_support_profiles(tool: PerfTool, profile: Profile, scenario: Scenario)
    ensures
        tool != PerfTool::ProfileTool(Profiler::LlvmLines) ==> cargo_subcommand_spec(tool, profile)
            == Some(
            if profile is Doc || profile is DocJson {
                "rustdoc"@
            } else {
                "rustc"@
            },
        ),
        tool == PerfTool::ProfileTool(Profiler::LlvmLines) ==> cargo_subcommand_spec(tool, profile)
            == if profile is Debug || profile is Opt {
            Some("llvm-lines"@)
        } else {
            None::<Seq<char>>
        },
        tool != PerfTool::ProfileTool(Profiler::LlvmLines) && tool != PerfTool::ProfileTool(
            Profiler::DepGraph,
        ) ==> scenario_allowed_spec(tool, scenario),
        tool != PerfTool::ProfileTool(Profiler::LlvmLines) && tool != PerfTool::ProfileTool(
            Profiler::DepGraph,
        ) ==> rustc_subcommand_spec(Some((tool, scenario)), profile) == Ok::<
            Seq<char>,
            RunRustcError,
        >(
            if profile is Doc || profile is DocJson {
                "rustdoc"@
            } else {
                "rustc"@
            },
        ),
{
}

/// The view of an optional string slice.
pub open spec fn opt_str_view(o: Option<&str>) -> Option<Seq<char>> {
    match o {
        Some(s) => Some(s@),
        None => None,
    }
}

impl PerfTool {
    /// The tool's name, as its `Debug` form writes it.
    pub fn name(&self) -> (r: String)
        ensures
            r@ == perf_tool_name(*self),
    {
        let s: &str = match self {
            PerfTool::BenchTool(b) => match b {
                Bencher::PerfStat => "PerfStat",
                Bencher::PerfStatSelfProfile => "PerfStatSelfProfile",
                Bencher::XperfStat => "XperfStat",
                Bencher::XperfStatSelfProfile => "XperfStatSelfProfile",
            },
            PerfTool::ProfileTool(p) => match p {
                Profiler::SelfProfile => "SelfProfile",
                Profiler::PerfRecord => "PerfRecord",
                Profiler::Oprofile => "Oprofile",
                Profiler::Samply => "Samply",
                Profiler::Cachegrind => "Cachegrind",
                Profiler::Callgrind => "Callgrind",
                Profiler::Dhat => "Dhat",
                Profiler::DhatCopy => "DhatCopy",
                Profiler::Massif => "Massif",
                Profiler::Bytehound => "Bytehound",
                Profiler::Eprintln => "Eprintln",
                Profiler::LlvmLines => "LlvmLines",
                Profiler::MonoItems => "MonoItems",
                Profiler::LlvmIr => "LlvmIr",
                Profiler::DepGraph => "DepGraph",
            },
        };
        s.to_owned()
    }

    /// The cargo subcommand that runs this tool. If not `rustc`, it is a
    /// subcommand that itself invokes `rustc`.
    pub fn cargo_subcommand(&self, profile: Profile) -> (r: Option<&'static str>)
        ensures
            opt_str_view(r) == cargo_subcommand_spec(*self, profile),
    {
        match self {
            PerfTool::ProfileTool(Profiler::LlvmLines) => match profile {
                Profile::Debug | Profile::Opt => Some("llvm-lines"),
                Profile::Check | Profile::Doc | Profile::DocJson | Profile::Clippy => None,
            },
            _ => {
                if profile.is_doc() {
                    Some("rustdoc")
                } else {
                    Some("rustc")
                }
            },
        }
    }

    /// Whether this tool calls cargo "recursively" inside of it, which rules
    /// out checking that only the final rustc is invoked.
    pub fn calls_cargo_recursively(&self) -> (r: bool)
        ensures
            r == (*self == PerfTool::ProfileTool(Profiler::LlvmLines)),
    {
        match self {
            PerfTool::ProfileTool(Profiler::LlvmLines) => true,
            _ => false,
        }
    }

    /// Whether this tool supports the given scenario.
    pub fn is_scenario_allowed(&self, scenario: Scenario) -> (r: bool)
        ensures
            r == scenario_allowed_spec(*self, scenario),
    {
        match self {
            PerfTool::ProfileTool(Profiler::DepGraph) => scenario != Scenario::Full,
            PerfTool::ProfileTool(Profiler::LlvmLines) => scenario == Scenario::Full,
            _ => true,
        }
    }
}


/// A value handed to a command: an argument, an environment value or the
/// program. Besides text and paths, it can name the fake compiler wrappers,
/// whose location the driver knows, and the incremental-state directory
/// argument `incremental=<cwd>/incremental-state`.
#[derive(Debug, PartialEq, Eq)]
pub enum CmdValue {
    Text(String),
    Path(PathBuf),
    FakeRustc,
    FakeRustdoc,
    FakeClippy,
    IncrementalState,
}

/// The mathematical view of a `CmdValue`.
pub enum ArgView {
    Text(Seq<char>),
    Path(PathBuf),
    FakeRustc,
    FakeRustdoc,
    FakeClippy,
    IncrementalState,
}

impl View for CmdValue {
    type V = ArgView;

    open spec fn view(&self) -> ArgView {
        match self {
            CmdValue::Text(s) => ArgView::Text(s@),
            CmdValue::Path(p) => ArgView::Path(*p),
            CmdValue::FakeRustc => ArgView::FakeRustc,
            CmdValue::FakeRustdoc => ArgView::FakeRustdoc,
            CmdValue::FakeClippy => ArgView::FakeClippy,
            CmdValue::IncrementalState => ArgView::IncrementalState,
        }
    }
}

/// An environment variable set for a command.
#[derive(Debug, PartialEq, Eq)]
pub struct EnvVar {
    pub name: String,
    pub value: CmdValue,
}

/// A command to run: program, arguments and environment variables, each in
/// the order they are given to the process builder (a later variable of the
/// same name overrides an earlier one). It runs in the benchmark's directory.
#[derive(Debug, PartialEq, Eq)]
pub struct CommandPlan {
    pub program: CmdValue,
    pub args: Vec<CmdValue>,
    pub envs: Vec<EnvVar>,
}

pub struct CommandView {
    pub program: ArgView,
    pub args: Seq<ArgView>,
    pub envs: Seq<(Seq<char>, ArgView)>,
}

pub open spec fn args_view(a: Seq<CmdValue>) -> Seq<ArgView> {
    a.map_values(|x: CmdValue| x@)
}

pub open spec fn envs_view(e: Seq<EnvVar>) -> Seq<(Seq<char>, ArgView)> {
    e.map_values(|x: EnvVar| (x.name@, x.value@))
}

impl View for CommandPlan {
    type V = CommandView;

    open spec fn view(&self) -> CommandView {
        CommandView { program: self.program@, args: args_view(self.args@), envs: envs_view(self.envs@) }
    }
}

pub open spec fn text(s: Seq<char>) -> ArgView {
    ArgView::Text(s)
}

/// Each string as a text argument.
pub open spec fn texts(ss: Seq<Seq<char>>) -> Seq<ArgView> {
    ss.map_values(|s: Seq<char>| ArgView::Text(s))
}

pub(crate) fn text_value(s: &str) -> (r: CmdValue)
    ensures
        r@ == text(s@),
{
    CmdValue::Text(s.to_owned())
}

pub(crate) fn push_value(args: &mut Vec<CmdValue>, v: CmdValue)
    ensures
        args_view(final(args)@) == args_view(old(args)@).push(v@),
{
    let ghost before = args_view(args@);
    let ghost vv = v@;
    args.push(v);
    assert(args_view(args@) =~= before.push(vv));
}

pub(crate) fn push_text(args: &mut Vec<CmdValue>, s: &str)
    ensures
        args_view(final(args)@) == args_view(old(args)@).push(text(s@)),
{
    push_value(args, text_value(s));
}

fn push_texts(args: &mut Vec<CmdValue>, ss: &[String])
    ensures
        args_view(final(args)@) == args_view(old(args)@) + texts(string_views(ss@)),
{
    let ghost start = args_view(args@);
    let mut i: usize = 0;
    while i < ss.len()
        invariant
            i <= ss.len(),
            args_view(args@) == start + texts(string_views(ss@.take(i as int))),
        decreases ss.len() - i,
    {
        push_text(args, ss[i].as_str());
        i = i + 1;
        assert(texts(string_views(ss@.take(i as int))) =~= texts(string_views(ss@.take(i - 1)))
            .push(text(ss@[i - 1]@)));
    }
    assert(ss@.take(ss@.len() as int) =~= ss@);
}

fn push_env(envs: &mut Vec<EnvVar>, name: &str, v: CmdValue)
    ensures
        envs_view(final(envs)@) == envs_view(old(envs)@).push((name@, v@)),
{
    let ghost before = envs_view(envs@);
    let ghost vv = v@;
    envs.push(EnvVar { name: name.to_owned(), value: v });
    assert(envs_view(envs@) =~= before.push((name@, vv)));
}

/// The performance cores to pin benchmarks to, as `taskset` reads them,
/// from what the system shows: `cpu_dir_exists` says whether
/// `/sys/devices/cpu` exists, and `cpu_core_cpus` holds the text of
/// `/sys/devices/cpu_core/cpus` where `/sys/devices/cpu_core` exists. A CPU
/// with a `/sys/devices/cpu` directory is not performance-hybrid: none. One
/// with neither directory cannot be told: none. Otherwise the list, trimmed.
pub fn performance_cores(cpu_dir_exists: bool, cpu_core_cpus: Option<&str>) -> (r: Option<String>)
    ensures
        match r {
            Some(list) => !cpu_dir_exists && cpu_core_cpus is Some && list@ == trim(
                cpu_core_cpus->0@,
            ),
            None => cpu_dir_exists || cpu_core_cpus is None,
        },
{
    if cpu_dir_exists {
        None
    } else {
        match cpu_core_cpus {
            Some(text) => Some(trim_str(text)),
            None => None,
        }
    }
}

/// Why a list of performance cores could not be read. The list is expected
/// as `first-last`, two decimal core numbers with `first <= last`.
#[derive(Clone, Copy, Debug, PartialEq, Eq, Structural)]
pub enum PCoreListError {
    /// The list holds no `-`.
    UnsupportedFormat,
    /// What stands before the first `-` is not a number.
    BadStart,
    /// What stands after the first `-` is not a number.
    BadEnd,
    /// The last core number is below the first.
    EndBeforeStart,
}

/// Reading a core list `first-last`: split at the first `-`, both sides
/// decimal `u32`s, and `first <= last`.
pub open spec fn p_core_list_spec(list: Seq<char>) -> Result<(u32, u32), PCoreListError> {
    let i = first_index(list, '-');
    if i >= list.len() {
        Err(PCoreListError::UnsupportedFormat)
    } else {
        match parse_u32_spec(list.take(i as int)) {
            None => Err(PCoreListError::BadStart),
            Some(start) => match parse_u32_spec(list.skip(i as int + 1)) {
                None => Err(PCoreListError::BadEnd),
                Some(end) => if end < start {
                    Err(PCoreListError::EndBeforeStart)
                } else {
                    Ok((start, end))
                },
            },
        }
    }
}

/// Reads a list of performance cores `first-last`.
pub fn parse_p_core_list(cpu_list: &str) -> (r: Result<(u32, u32), PCoreListError>)
    ensures
        r == p_core_list_spec(cpu_list@),
{
    let (first, last) = match str_split_once(cpu_list, '-') {
        None => return Err(PCoreListError::UnsupportedFormat),
        Some(parts) => parts,
    };
    let start = match parse_u32(first.as_str()) {
        None => return Err(PCoreListError::BadStart),
        Some(v) => v,
    };
    let end = match parse_u32(last.as_str()) {
        None => return Err(PCoreListError::BadEnd),
        Some(v) => v,
    };
    if end < start {
        return Err(PCoreListError::EndBeforeStart);
    }
    Ok((start, end))
}

/// The command that runs `program` pinned to the performance cores
/// `cpu_list` with `taskset`, with as many cargo jobs as the list names
/// cores.
pub open spec fn p_cores_command_spec(program: ArgView, cpu_list: Seq<char>, count: nat) -> CommandView {
    CommandView {
        program: text("taskset"@),
        args: seq![text("--cpu-list"@), text(cpu_list), program],
        envs: seq![("CARGO_BUILD_JOBS"@, text(decimal_digits(count)))],
    }
}

/// Makes `program` run only on the performance cores `cpu_list`.
pub fn run_on_p_cores(program: CmdValue, cpu_list: &str) -> (r: CommandPlan)
    requires
        p_core_list_spec(cpu_list@) is Ok,
    ensures
        r@ == p_cores_command_spec(
            program@,
            cpu_list@,
            (p_core_list_spec(cpu_list@)->Ok_0.1 - p_core_list_spec(cpu_list@)->Ok_0.0 + 1) as nat,
        ),
{
    let (core_start, core_end) = match parse_p_core_list(cpu_list) {
        Ok(pair) => pair,
        Err(_) => (0, 0),
    };
    let core_count: u64 = (core_end - core_start) as u64 + 1;
    let mut envs: Vec<EnvVar> = Vec::new();
    push_env(&mut envs, "CARGO_BUILD_JOBS", CmdValue::Text(u64_to_decimal(core_count)));
    let mut args: Vec<CmdValue> = Vec::new();
    push_text(&mut args, "--cpu-list");
    push_text(&mut args, cpu_list);
    push_value(&mut args, program);
    let r = CommandPlan { program: text_value("taskset"), args, envs };
    assert(r@.args =~= seq![text("--cpu-list"@), text(cpu_list@), program@]);
    assert(r@.envs =~= seq![("CARGO_BUILD_JOBS"@, text(decimal_digits(core_count as nat)))]);
    r
}


pub open spec fn config_args_spec(cfgs: Seq<Seq<char>>) -> Seq<ArgView>
    decreases cfgs.len(),
{
    if cfgs.len() == 0 {
        seq![]
    } else {
        config_args_spec(cfgs.drop_last()) + seq![text("--config"@), text(cfgs.last())]
    }
}

/// The environment every cargo invocation gets: the fake rustc in front of
/// the real one, the toolchain's cargo, incremental compilation off for
/// dependencies, unstable features on, and the fake rustdoc and clippy when
/// the toolchain has them.
pub open spec fn base_envs_spec(c: ToolchainComponents) -> Seq<(Seq<char>, ArgView)> {
    seq![
        ("RUSTC"@, ArgView::FakeRustc),
        ("RUSTC_REAL"@, ArgView::Path(c.rustc)),
        ("CARGO"@, ArgView::Path(c.cargo)),
        ("CARGO_INCREMENTAL"@, text("0"@)),
        ("RUSTC_BOOTSTRAP"@, text("1"@)),
    ] + match c.rustdoc {
        Some(r) => seq![("RUSTDOC"@, ArgView::FakeRustdoc), ("RUSTDOC_REAL"@, ArgView::Path(r))],
        None => Seq::<(Seq<char>, ArgView)>::empty(),
    } + match c.clippy {
        Some(p) => seq![("CLIPPY_REAL"@, ArgView::Path(p))],
        None => Seq::<(Seq<char>, ArgView)>::empty(),
    }
}

/// Whether a core list is one that `run_on_p_cores` accepts.
pub open spec fn p_cores_ok(p_cores: Option<Seq<char>>) -> bool {
    p_cores matches Some(list) ==> p_core_list_spec(list) is Ok
}

/// The cargo invocation `cargo <subcommand> --manifest-path <manifest>` with
/// the toolchain's `--config` entries, pinned to the performance cores when
/// the machine has them.
pub open spec fn base_command_spec(
    c: ToolchainComponents,
    manifest_path: Seq<char>,
    subcommand: Seq<char>,
    p_cores: Option<Seq<char>>,
) -> CommandView {
    let start = match p_cores {
        Some(list) => p_cores_command_spec(
            ArgView::Path(c.cargo),
            list,
            (p_core_list_spec(list)->Ok_0.1 - p_core_list_spec(list)->Ok_0.0 + 1) as nat,
        ),
        None => CommandView {
            program: ArgView::Path(c.cargo),
            args: Seq::empty(),
            envs: Seq::empty(),
        },
    };
    CommandView {
        program: start.program,
        args: start.args + seq![text(subcommand), text("--manifest-path"@), text(manifest_path)]
            + config_args_spec(string_views(c.cargo_configs@)),
        envs: start.envs + base_envs_spec(c),
    }
}

pub open spec fn opt_string_view(o: Option<&str>) -> Option<Seq<char>> {
    match o {
        Some(s) => Some(s@),
        None => None,
    }
}

/// Where the files to touch before a measured build are: one file under the
/// benchmark directory, or every file under the directory of the manifest.
#[derive(Debug, PartialEq, Eq)]
pub enum TouchTarget {
    File(String),
    ManifestDir(String),
}

pub enum TouchView {
    File(Seq<char>),
    ManifestDir(Seq<char>),
}

impl View for TouchTarget {
    type V = TouchView;

    open spec fn view(&self) -> TouchView {
        match self {
            TouchTarget::File(f) => TouchView::File(f@),
            TouchTarget::ManifestDir(m) => TouchView::ManifestDir(m@),
        }
    }
}

pub open spec fn touch_view(t: Option<TouchTarget>) -> Option<TouchView> {
    match t {
        Some(x) => Some(x@),
        None => None,
    }
}

/// The cargo invocation that builds a benchmark, and what to touch first.
#[derive(Debug, PartialEq, Eq)]
pub struct RustcPlan {
    pub command: CommandPlan,
    pub touch: Option<TouchTarget>,
}

/// Why a measured build cannot run.
#[derive(Clone, Copy, Debug, PartialEq, Eq, Structural)]
pub enum RunRustcError {
    /// The tool does not support the scenario.
    ScenarioNotSupported(Scenario),
    /// The tool does not support the profile.
    ProfileNotSupported(Profile),
}

/// What a measured build is handed to its processor with: the tool that
/// measures it, the scenario, its name, and the patch it applies.
pub struct ProcessorEtc<'a> {
    pub perf_tool: PerfTool,
    pub scenario: Scenario,
    pub scenario_str: String,
    pub patch: Option<&'a Patch>,
}

/// A cargo invocation for a benchmark.
pub struct CargoProcess<'a> {
    pub toolchain: &'a Toolchain,
    pub cwd: &'a Path,
    pub profile: Profile,
    pub backend: CodegenBackend,
    pub incremental: bool,
    pub processor_etc: Option<ProcessorEtc<'a>>,
    pub processor_name: BenchmarkName,
    pub manifest_path: String,
    pub cargo_args: Vec<String>,
    pub rustc_args: Vec<String>,
    pub touch_file: Option<String>,
    pub jobserver: Option<jobserver::Client>,
    pub target: Target,
    pub workspace_package: Option<String>,
}

#[verifier::external_type_specification]
#[verifier::external_body]
pub struct ExJobserverClient(jobserver::Client);

/// The subcommand a build runs with: the processor's tool decides, and
/// refuses scenarios and profiles it does not support; without a processor,
/// rustdoc for documentation profiles and rustc otherwise.
pub open spec fn rustc_subcommand_spec(etc: Option<(PerfTool, Scenario)>, profile: Profile) -> Result<
    Seq<char>,
    RunRustcError,
> {
    match etc {
        Some((tool, scenario)) => if !scenario_allowed_spec(tool, scenario) {
            Err(RunRustcError::ScenarioNotSupported(scenario))
        } else {
            match cargo_subcommand_spec(tool, profile) {
                None => Err(RunRustcError::ProfileNotSupported(profile)),
                Some(sub) => Ok(sub),
            }
        },
        None => if profile.spec_is_doc() {
            Ok("rustdoc"@)
        } else {
            Ok("rustc"@)
        },
    }
}

/// The profile's own cargo arguments.
pub open spec fn profile_args_spec(profile: Profile) -> Seq<ArgView> {
    match profile {
        Profile::Check | Profile::Clippy => seq![text("--profile"@), text("check"@)],
        Profile::Debug | Profile::Doc => Seq::empty(),
        Profile::DocJson => seq![text("-Zunstable-options"@), text("--output-format=json"@)],
        Profile::Opt => seq![text("--release"@)],
    }
}

pub open spec fn backend_args_spec(backend: CodegenBackend) -> Seq<ArgView> {
    match backend {
        CodegenBackend::Llvm => Seq::empty(),
        CodegenBackend::Cranelift => seq![text("-Zcodegen-backend=cranelift"@)],
    }
}

/// The arguments after `--` that concern the final crate: a measured build
/// wraps rustc with the tool, a preparatory one skips the final rustc.
pub open spec fn final_args_spec(
    needs_final: bool,
    profile: Profile,
    tool: PerfTool,
    rustc_args: Seq<Seq<char>>,
) -> Seq<ArgView> {
    if needs_final {
        (if profile is DocJson {
            seq![text("--document-private-items"@), text("--document-hidden-items"@)]
        } else {
            Seq::empty()
        }) + seq![text("--wrap-rustc-with"@), text(perf_tool_name(tool))] + texts(rustc_args)
    } else {
        seq![text("--skip-this-rustc"@)]
    }
}

impl<'a> CargoProcess<'a> {
    pub open spec fn processor_spec(&self) -> Option<(PerfTool, Scenario)> {
        match self.processor_etc {
            Some(etc) => Some((etc.perf_tool, etc.scenario)),
            None => None,
        }
    }

    /// The same invocation, incremental or not.
    pub fn incremental(self, incremental: bool) -> (r: Self)
        ensures
            r == (Self { incremental, ..self }),
    {
        let mut s = self;
        s.incremental = incremental;
        s
    }

    /// The same invocation, measured by a tool in a scenario.
    pub fn processor(
        self,
        perf_tool: PerfTool,
        scenario: Scenario,
        scenario_str: String,
        patch: Option<&'a Patch>,
    ) -> (r: Self)
        ensures
            r == (Self {
                processor_etc: Some(ProcessorEtc { perf_tool, scenario, scenario_str, patch }),
                ..self
            }),
    {
        let mut s = self;
        s.processor_etc = Some(ProcessorEtc { perf_tool, scenario, scenario_str, patch });
        s
    }

    /// The same invocation, sharing a jobserver.
    pub fn jobserver(self, server: jobserver::Client) -> (r: Self)
        ensures
            r == (Self { jobserver: Some(server), ..self }),
    {
        let mut s = self;
        s.jobserver = Some(server);
        s
    }

    /// The cargo invocation `cargo <subcommand>` for this benchmark's manifest.
    pub fn base_command(&self, subcommand: &str, p_cores: Option<&str>) -> (r: CommandPlan)
        requires
            p_cores_ok(opt_string_view(p_cores)),
        ensures
            r@ == base_command_spec(
                self.toolchain.components,
                self.manifest_path@,
                subcommand@,
                opt_string_view(p_cores),
            ),
    {
        let c = &self.toolchain.components;
        let cargo = CmdValue::Path(clone_path_buf(&c.cargo));
        let cmd0 = match p_cores {
            Some(list) => run_on_p_cores(cargo, list),
            None => {
                let r = CommandPlan { program: cargo, args: Vec::new(), envs: Vec::new() };
                assert(r@.args =~= Seq::empty());
                assert(r@.envs =~= Seq::empty());
                r
            },
        };
        let ghost start = cmd0@;
        assert(start == match opt_string_view(p_cores) {
            Some(list) => p_cores_command_spec(
                ArgView::Path(c.cargo),
                list,
                (p_core_list_spec(list)->Ok_0.1 - p_core_list_spec(list)->Ok_0.0 + 1) as nat,
            ),
            None => CommandView {
                program: ArgView::Path(c.cargo),
                args: Seq::empty(),
                envs: Seq::empty(),
            },
        });
        let CommandPlan { program, args: mut cargs, envs: mut cenvs } = cmd0;
        push_env(&mut cenvs, "RUSTC", CmdValue::FakeRustc);
        push_env(&mut cenvs, "RUSTC_REAL", CmdValue::Path(clone_path_buf(&c.rustc)));
        push_env(&mut cenvs, "CARGO", CmdValue::Path(clone_path_buf(&c.cargo)));
        push_env(&mut cenvs, "CARGO_INCREMENTAL", text_value("0"));
        push_env(&mut cenvs, "RUSTC_BOOTSTRAP", text_value("1"));
        push_text(&mut cargs, subcommand);
        push_text(&mut cargs, "--manifest-path");
        push_text(&mut cargs, self.manifest_path.as_str());
        let ghost after_fixed = envs_view(cenvs@);
        match &c.rustdoc {
            Some(r) => {
                push_env(&mut cenvs, "RUSTDOC", CmdValue::FakeRustdoc);
                push_env(&mut cenvs, "RUSTDOC_REAL", CmdValue::Path(clone_path_buf(r)));
            },
            None => {},
        }
        let ghost after_rustdoc = envs_view(cenvs@);
        match &c.clippy {
            Some(p) => {
                push_env(&mut cenvs, "CLIPPY_REAL", CmdValue::Path(clone_path_buf(p)));
            },
            None => {},
        }
        assert(envs_view(cenvs@) =~= start.envs + base_envs_spec(*c));
        let ghost before_configs = args_view(cargs@);
        let mut i: usize = 0;
        while i < c.cargo_configs.len()
            invariant
                i <= c.cargo_configs.len(),
                args_view(cargs@) == before_configs + config_args_spec(
                    string_views(c.cargo_configs@.take(i as int)),
                ),
            decreases c.cargo_configs.len() - i,
        {
            push_text(&mut cargs, "--config");
            push_text(&mut cargs, c.cargo_configs[i].as_str());
            i = i + 1;
            assert(string_views(c.cargo_configs@.take(i as int)).drop_last() =~= string_views(
                c.cargo_configs@.take(i - 1),
            ));
        }
        assert(c.cargo_configs@.take(c.cargo_configs@.len() as int) =~= c.cargo_configs@);
        assert(args_view(cargs@) =~= start.args + seq![
            text(subcommand@),
            text("--manifest-path"@),
            text(self.manifest_path@),
        ] + config_args_spec(string_views(c.cargo_configs@)));
        let cmd = CommandPlan { program, args: cargs, envs: cenvs };
        cmd
    }

    /// The invocation `cargo pkgid`, naming the workspace package if there is one.
    pub fn pkgid_command(&self, p_cores: Option<&str>) -> (r: CommandPlan)
        requires
            p_cores_ok(opt_string_view(p_cores)),
        ensures
            r@ == ({
                let base = base_command_spec(
                    self.toolchain.components,
                    self.manifest_path@,
                    "pkgid"@,
                    opt_string_view(p_cores),
                );
                CommandView {
                    args: base.args + match self.workspace_package {
                        Some(p) => seq![text("-p"@), text(p@)],
                        None => Seq::empty(),
                    },
                    ..base
                }
            }),
    {
        let cmd = self.base_command("pkgid", p_cores);
        let CommandPlan { program, args: mut args, envs } = cmd;
        let ghost before = args_view(args@);
        match &self.workspace_package {
            Some(package) => {
                push_text(&mut args, "-p");
                push_text(&mut args, package.as_str());
            },
            None => {},
        }
        let r = CommandPlan { program, args, envs };
        assert(r@.args =~= before + match self.workspace_package {
            Some(p) => seq![text("-p"@), text(p@)],
            None => Seq::empty(),
        });
        r
    }

    /// The subcommand this build runs with, or why it cannot run.
    pub fn rustc_subcommand(&self) -> (r: Result<&'static str, RunRustcError>)
        ensures
            match r {
                Ok(sub) => rustc_subcommand_spec(self.processor_spec(), self.profile) == Ok::<
                    Seq<char>,
                    RunRustcError,
                >(sub@),
                Err(e) => rustc_subcommand_spec(self.processor_spec(), self.profile) == Err::<
                    Seq<char>,
                    RunRustcError,
                >(e),
            },
    {
        match &self.processor_etc {
            Some(etc) => {
                let perf_tool = etc.perf_tool;
                if !perf_tool.is_scenario_allowed(etc.scenario) {
                    return Err(RunRustcError::ScenarioNotSupported(etc.scenario));
                }
                match perf_tool.cargo_subcommand(self.profile) {
                    None => Err(RunRustcError::ProfileNotSupported(self.profile)),
                    Some(sub) => Ok(sub),
                }
            },
            None => {
                if self.profile.is_doc() {
                    Ok("rustdoc")
                } else {
                    Ok("rustc")
                }
            },
        }
    }

    pub open spec fn rustc_envs_spec(&self, needs_final: bool, rustflags: Seq<char>) -> Seq<
        (Seq<char>, ArgView),
    > {
        let tool = self.processor_etc->Some_0.perf_tool;
        (if self.profile is Clippy {
            seq![("RUSTFLAGS"@, text(rustflags + " -Wclippy::all"@))]
        } else {
            Seq::empty()
        }) + (if needs_final && self.profile is Clippy {
            seq![("RUSTC"@, ArgView::FakeClippy)]
        } else {
            Seq::empty()
        }) + (if needs_final && tool != PerfTool::ProfileTool(Profiler::LlvmLines) {
            seq![("EXPECT_ONLY_WRAPPED_RUSTC"@, text("1"@))]
        } else {
            Seq::empty()
        })
    }

    pub open spec fn rustc_args_spec(&self, pkgid: Seq<char>, needs_final: bool, record_timing: bool) -> Seq<
        ArgView,
    > {
        let tool = self.processor_etc->Some_0.perf_tool;
        seq![text("-p"@), text(pkgid)] + profile_args_spec(self.profile) + texts(
            string_views(self.cargo_args@),
        ) + (if record_timing {
            seq![text("-Zunstable-options"@), text("-Ztimings"@)]
        } else {
            Seq::empty()
        }) + seq![text("--"@)] + backend_args_spec(self.backend) + final_args_spec(
            needs_final,
            self.profile,
            tool,
            string_views(self.rustc_args@),
        ) + (if self.incremental {
            seq![text("-C"@), ArgView::IncrementalState]
        } else {
            Seq::empty()
        })
    }

    pub open spec fn touch_spec(&self, needs_final: bool) -> Option<TouchView> {
        if needs_final {
            Some(
                match self.touch_file {
                    Some(f) => TouchView::File(f@),
                    None => TouchView::ManifestDir(self.manifest_path@),
                },
            )
        } else {
            None
        }
    }

    /// The cargo arguments of a build start with `-p <pkgid>`, followed by
    /// the profile's own options: `--profile check` for the check and clippy
    /// profiles, `--release` for the optimized profile,
    /// `-Zunstable-options --output-format=json` for JSON documentation, and
    /// none for the debug and documentation profiles, whose cargo options
    /// come right after the package.
    pub proof fn lemma_profile_options(&self, pkgid: Seq<char>, needs_final: bool, record_timing: bool)
        ensures
            self.rustc_args_spec(pkgid, needs_final, record_timing)[0] == ArgView::Text("-p"@),
            self.rustc_args_spec(pkgid, needs_final, record_timing)[1] == ArgView::Text(pkgid),
            (self.profile is Check || self.profile is Clippy) ==> self.rustc_args_spec(
                pkgid,
                needs_final,
                record_timing,
            )[2] == ArgView::Text("--profile"@) && self.rustc_args_spec(
                pkgid,
                needs_final,
                record_timing,
            )[3] == ArgView::Text("check"@),
            self.profile is Opt ==> self.rustc_args_spec(pkgid, needs_final, record_timing)[2]
                == ArgView::Text("--release"@),
            self.profile is DocJson ==> self.rustc_args_spec(pkgid, needs_final, record_timing)[2]
                == ArgView::Text("-Zunstable-options"@) && self.rustc_args_spec(
                pkgid,
                needs_final,
                record_timing,
            )[3] == ArgView::Text("--output-format=json"@),
            (self.profile is Debug || self.profile is Doc) ==> forall|j: int|
                0 <= j < self.cargo_args@.len() ==> self.rustc_args_spec(
                    pkgid,
                    needs_final,
                    record_timing,
                )[2 + j] == ArgView::Text((#[trigger] self.cargo_args@[j])@),
    {
        let a = self.rustc_args_spec(pkgid, needs_final, record_timing);
        let head = seq![text("-p"@), text(pkgid)] + profile_args_spec(self.profile);
        let cargo = texts(string_views(self.cargo_args@));
        assert(a[0] == head[0] && a[1] == head[1]);
        if self.profile is Check || self.profile is Clippy || self.profile is DocJson {
            assert(a[2] == head[2] && a[3] == head[3]);
        }
        if self.profile is Opt {
            assert(a[2] == head[2]);
        }
        if self.profile is Debug || self.profile is Doc {
            assert(head.len() == 2);
            assert forall|j: int| 0 <= j < self.cargo_args@.len() implies a[2 + j] == ArgView::Text(
                (#[trigger] self.cargo_args@[j])@,
            ) by {
                assert(a[2 + j] == cargo[j]);
                assert(string_views(self.cargo_args@)[j] == self.cargo_args@[j]@);
            }
        }
    }

    /// A build ends its arguments with the incremental-state option
    /// `-C incremental=...` exactly when it is incremental; a preparatory
    /// build (one that does not need the final crate) asks, just before
    /// that, to skip the final rustc, and a measured build wraps the final
    /// rustc with its tool's name, followed by the benchmark's rustc options.
    pub proof fn lemma_final_options(&self, pkgid: Seq<char>, needs_final: bool, record_timing: bool)
        ensures
            ({
                let a = self.rustc_args_spec(pkgid, needs_final, record_timing);
                let tail: int = if self.incremental {
                    2
                } else {
                    0
                };
                &&& self.incremental ==> a[a.len() - 2] == ArgView::Text("-C"@) && a[a.len() - 1]
                    == ArgView::IncrementalState
                &&& !self.incremental ==> a[a.len() - 1] != ArgView::IncrementalState
                &&& !needs_final ==> a[a.len() - tail - 1] == ArgView::Text("--skip-this-rustc"@)
                &&& needs_final ==> a[a.len() - tail - self.rustc_args@.len() - 2] == ArgView::Text(
                    "--wrap-rustc-with"@,
                ) && a[a.len() - tail - self.rustc_args@.len() - 1] == ArgView::Text(
                    perf_tool_name(self.processor_etc->Some_0.perf_tool),
                ) && forall|j: int|
                    0 <= j < self.rustc_args@.len() ==> a[a.len() - tail - self.rustc_args@.len() + j]
                        == ArgView::Text((#[trigger] self.rustc_args@[j])@)
            }),
    {
        let a = self.rustc_args_spec(pkgid, needs_final, record_timing);
        let tool = self.processor_etc->Some_0.perf_tool;
        let rv = texts(string_views(self.rustc_args@));
        let fin = final_args_spec(needs_final, self.profile, tool, string_views(self.rustc_args@));
        let inc: Seq<ArgView> = if self.incremental {
            seq![text("-C"@), ArgView::IncrementalState]
        } else {
            Seq::empty()
        };
        let pre = seq![text("-p"@), text(pkgid)] + profile_args_spec(self.profile) + texts(
            string_views(self.cargo_args@),
        ) + (if record_timing {
            seq![text("-Zunstable-options"@), text("-Ztimings"@)]
        } else {
            Seq::empty()
        }) + seq![text("--"@)] + backend_args_spec(self.backend);
        assert(a =~= pre + fin + inc);
        if !self.incremental {
            assert(a[a.len() - 1] == fin[fin.len() - 1]);
            if needs_final {
                if self.rustc_args@.len() > 0 {
                    assert(fin[fin.len() - 1] == rv[rv.len() - 1]);
                } else {
                    assert(fin[fin.len() - 1] == text(perf_tool_name(tool)));
                }
            }
        }
        if needs_final {
            let w = seq![text("--wrap-rustc-with"@), text(perf_tool_name(tool))];
            let d: Seq<ArgView> = if self.profile is DocJson {
                seq![text("--document-private-items"@), text("--document-hidden-items"@)]
            } else {
                Seq::empty()
            };
            assert(fin =~= d + w + rv);
            let base: int = (pre.len() + d.len()) as int;
            assert(a[base] == w[0]);
            assert(a[base + 1] == w[1]);
            assert forall|j: int| 0 <= j < self.rustc_args@.len() implies a[base + 2 + j] == ArgView::Text(
                (#[trigger] self.rustc_args@[j])@,
            ) by {
                assert(a[base + 2 + j] == rv[j]);
                assert(string_views(self.rustc_args@)[j] == self.rustc_args@[j]@);
            }
        }
    }

    /// The arguments before the final crate's: package, profile, cargo
    /// options, timings, `--` and the backend.
    fn leading_args(&self, pkgid: &str, record_timing: bool) -> (r: Vec<CmdValue>)
        ensures
            args_view(r@) == seq![text("-p"@), text(pkgid@)] + profile_args_spec(self.profile)
                + texts(string_views(self.cargo_args@)) + (if record_timing {
                seq![text("-Zunstable-options"@), text("-Ztimings"@)]
            } else {
                Seq::empty()
            }) + seq![text("--"@)] + backend_args_spec(self.backend),
    {
        let mut args: Vec<CmdValue> = Vec::new();
        push_text(&mut args, "-p");
        push_text(&mut args, pkgid);
        let ghost a1 = args_view(args@);
        match self.profile {
            Profile::Check | Profile::Clippy => {
                push_text(&mut args, "--profile");
                push_text(&mut args, "check");
            },
            Profile::Debug | Profile::Doc => {},
            Profile::DocJson => {
                push_text(&mut args, "-Zunstable-options");
                push_text(&mut args, "--output-format=json");
            },
            Profile::Opt => {
                push_text(&mut args, "--release");
            },
        }
        assert(args_view(args@) =~= a1 + profile_args_spec(self.profile));
        push_texts(&mut args, self.cargo_args.as_slice());
        let ghost a2 = args_view(args@);
        if record_timing {
            push_text(&mut args, "-Zunstable-options");
            push_text(&mut args, "-Ztimings");
        }
        push_text(&mut args, "--");
        let ghost a3 = args_view(args@);
        match self.backend {
            CodegenBackend::Llvm => {},
            CodegenBackend::Cranelift => {
                push_text(&mut args, "-Zcodegen-backend=cranelift");
            },
        }
        assert(args_view(args@) =~= a3 + backend_args_spec(self.backend));
        assert(a3 =~= a2 + (if record_timing {
            seq![text("-Zunstable-options"@), text("-Ztimings"@)]
        } else {
            Seq::empty()
        }) + seq![text("--"@)]);
        args
    }

    /// The arguments that concern the final crate, and incremental state.
    fn trailing_args(&self, needs_final: bool) -> (r: Vec<CmdValue>)
        requires
            needs_final ==> self.processor_etc is Some,
        ensures
            args_view(r@) == final_args_spec(
                needs_final,
                self.profile,
                self.processor_etc->Some_0.perf_tool,
                string_views(self.rustc_args@),
            ) + (if self.incremental {
                seq![text("-C"@), ArgView::IncrementalState]
            } else {
                Seq::empty()
            }),
    {
        let mut args: Vec<CmdValue> = Vec::new();
        match &self.processor_etc {
            Some(etc) if needs_final => {
                if self.profile == Profile::DocJson {
                    push_text(&mut args, "--document-private-items");
                    push_text(&mut args, "--document-hidden-items");
                }
                push_text(&mut args, "--wrap-rustc-with");
                push_value(&mut args, CmdValue::Text(etc.perf_tool.name()));
                push_texts(&mut args, self.rustc_args.as_slice());
            },
            _ => {
                push_text(&mut args, "--skip-this-rustc");
            },
        }
        let ghost a1 = args_view(args@);
        assert(a1 =~= final_args_spec(
            needs_final,
            self.profile,
            self.processor_etc->Some_0.perf_tool,
            string_views(self.rustc_args@),
        ));
        if self.incremental {
            push_text(&mut args, "-C");
            push_value(&mut args, CmdValue::IncrementalState);
        }
        assert(args_view(args@) =~= a1 + (if self.incremental {
            seq![text("-C"@), ArgView::IncrementalState]
        } else {
            Seq::empty()
        }));
        args
    }

    /// The environment a build adds to the base one.
    fn rustc_envs(&self, needs_final: bool, rustflags: &str) -> (r: Vec<EnvVar>)
        requires
            needs_final ==> self.processor_etc is Some,
        ensures
            envs_view(r@) == self.rustc_envs_spec(needs_final, rustflags@),
    {
        let mut envs: Vec<EnvVar> = Vec::new();
        if self.profile == Profile::Clippy {
            let flags = rustflags.to_owned().concat(" -Wclippy::all");
            push_env(&mut envs, "RUSTFLAGS", CmdValue::Text(flags));
        }
        let ghost e1 = envs_view(envs@);
        match &self.processor_etc {
            Some(etc) if needs_final => {
                if self.profile == Profile::Clippy {
                    push_env(&mut envs, "RUSTC", CmdValue::FakeClippy);
                }
                let ghost e2 = envs_view(envs@);
                if !etc.perf_tool.calls_cargo_recursively() {
                    push_env(&mut envs, "EXPECT_ONLY_WRAPPED_RUSTC", text_value("1"));
                }
                assert(envs_view(envs@) =~= self.rustc_envs_spec(needs_final, rustflags@));
            },
            _ => {
                assert(envs_view(envs@) =~= self.rustc_envs_spec(needs_final, rustflags@));
            },
        }
        envs
    }

    /// The cargo invocation that builds the benchmark package `pkgid` with
    /// `subcommand`: the profile's options, the benchmark's cargo options,
    /// cargo timings when asked for, the backend, and then either the tool
    /// that wraps the final rustc (with the benchmark's rustc options) or the
    /// instruction to skip it; incremental state under the benchmark directory
    /// when incremental. A measured build touches the benchmark's files first.
    /// `rustflags` is the `RUSTFLAGS` of the environment (empty when unset);
    /// `record_timing` says whether `CARGO_RECORD_TIMING` is set.
    pub fn rustc_command(
        &self,
        subcommand: &str,
        pkgid: &str,
        needs_final: bool,
        rustflags: &str,
        record_timing: bool,
        p_cores: Option<&str>,
    ) -> (r: RustcPlan)
        requires
            p_cores_ok(opt_string_view(p_cores)),
            needs_final ==> self.processor_etc is Some,
        ensures
            ({
                let base = base_command_spec(
                    self.toolchain.components,
                    self.manifest_path@,
                    subcommand@,
                    opt_string_view(p_cores),
                );
                r.command@ == CommandView {
                    program: base.program,
                    args: base.args + self.rustc_args_spec(pkgid@, needs_final, record_timing),
                    envs: base.envs + self.rustc_envs_spec(needs_final, rustflags@),
                }
            }),
            touch_view(r.touch) == self.touch_spec(needs_final),
    {
        let cmd = self.base_command(subcommand, p_cores);
        let CommandPlan { program, args: mut args, envs: mut envs } = cmd;
        let ghost base_args = args_view(args@);
        let ghost base_envs = envs_view(envs@);
        let mut lead = self.leading_args(pkgid, record_timing);
        let mut trail = self.trailing_args(needs_final);
        let ghost lv = args_view(lead@);
        let ghost tv = args_view(trail@);
        args.append(&mut lead);
        assert(args_view(args@) =~= base_args + lv);
        let ghost a1 = args_view(args@);
        args.append(&mut trail);
        assert(args_view(args@) =~= a1 + tv);
        assert(args_view(args@) =~= base_args + self.rustc_args_spec(
            pkgid@,
            needs_final,
            record_timing,
        ));
        let mut extra = self.rustc_envs(needs_final, rustflags);
        let ghost ev = envs_view(extra@);
        envs.append(&mut extra);
        assert(envs_view(envs@) =~= base_envs + ev);
        let touch = if needs_final {
            match &self.touch_file {
                Some(file) => Some(TouchTarget::File(file.clone())),
                None => Some(TouchTarget::ManifestDir(self.manifest_path.clone())),
            }
        } else {
            None
        };
        RustcPlan { command: CommandPlan { program, args, envs }, touch }
    }

    /// What the processor is handed with the output of a measured build.
    pub fn output_data(&self) -> (r: Option<ProcessOutputData<'a>>)
        ensures
            r is Some <==> self.processor_etc is Some,
            r matches Some(d) ==> {
                let etc = self.processor_etc->Some_0;
                &&& d.name.0@ == self.processor_name.0@
                &&& d.cwd == self.cwd
                &&& d.profile == self.profile
                &&& d.scenario == etc.scenario
                &&& d.scenario_str@ == etc.scenario_str@
                &&& d.patch == etc.patch
                &&& d.backend == self.backend
                &&& d.target == self.target
            },
    {
        match &self.processor_etc {
            Some(etc) => Some(
                ProcessOutputData {
                    name: self.processor_name.duplicate(),
                    cwd: self.cwd,
                    profile: self.profile,
                    scenario: etc.scenario,
                    scenario_str: etc.scenario_str.clone(),
                    patch: etc.patch,
                    backend: self.backend,
                    target: self.target,
                },
            ),
            None => None,
        }
    }
}

/// The package id that `cargo pkgid` printed: its output without surrounding
/// white space.
pub fn pkgid_from_output(stdout: &str) -> (r: String)
    ensures
        r@ == trim(stdout@),
{
    trim_str(stdout)
}

/// Whether a processor asks for a build to run again.
#[derive(Debug, PartialEq, Eq)]
pub enum Retry {
    No,
    Yes,
}

/// What a processor is handed along with the output of a measured build.
pub struct ProcessOutputData<'a> {
    pub name: BenchmarkName,
    pub cwd: &'a Path,
    pub profile: Profile,
    pub scenario: Scenario,
    pub scenario_str: String,
    pub patch: Option<&'a Patch>,
    pub backend: CodegenBackend,
    pub target: Target,
}

} // verus!
