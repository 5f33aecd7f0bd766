//! Tools that profile a benchmark.
use vstd::prelude::*;

verus! {

/// A tool that profiles a build.
#[derive(Clone, Copy, Debug, PartialEq, Eq, Hash, Structural)]
pub enum Profiler {
    SelfProfile,
    PerfRecord,
    Oprofile,
    Samply,
    Cachegrind,
    Callgrind,
    Dhat,
    DhatCopy,
    Massif,
    Bytehound,
    Eprintln,
    LlvmLines,
    MonoItems,
    LlvmIr,
    DepGraph,
}

} // verus!
