//! Compilation targets.
use vstd::prelude::*;

verus! {

/// The target triple a benchmark is compiled for.
#[derive(Clone, Copy, Debug, PartialEq, Eq, Hash, Structural)]
pub enum Target {
    X86_64UnknownLinuxGnu,
}

} // verus!
