//! Code generation backends.
use vstd::prelude::*;

verus! {

/// The backend rustc generates code with.
#[derive(Clone, Copy, Debug, PartialEq, Eq, Hash, Structural)]
pub enum CodegenBackend {
    Llvm,
    Cranelift,
}

} // verus!
