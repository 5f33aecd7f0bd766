//! Tools that measure a benchmark.
use vstd::prelude::*;

verus! {

/// A tool that records performance counters of a build.
#[derive(Clone, Copy, Debug, PartialEq, Eq, Hash, Structural)]
pub enum Bencher {
    PerfStat,
    PerfStatSelfProfile,
    XperfStat,
    XperfStatSelfProfile,
}

} // verus!
