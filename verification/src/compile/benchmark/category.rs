//! Benchmark categories.
use vstd::prelude::*;

verus! {

/// The group a benchmark belongs to.
#[derive(Clone, Copy, Debug, PartialEq, Eq, Hash, Structural)]
pub enum Category {
    Primary,
    Secondary,
    Stable,
}

} // verus!
