//! The toolchain a benchmark is built with.
use std::path::PathBuf;
use vstd::prelude::*;

verus! {

/// The executables and settings of a toolchain.
pub struct ToolchainComponents {
    pub rustc: PathBuf,
    pub rustdoc: Option<PathBuf>,
    pub clippy: Option<PathBuf>,
    pub cargo: PathBuf,
    pub cargo_configs: Vec<String>,
}

/// A toolchain to benchmark.
pub struct Toolchain {
    pub components: ToolchainComponents,
    pub id: String,
    pub triple: String,
}

} // verus!
