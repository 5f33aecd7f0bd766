//! Build scenarios.
use vstd::prelude::*;

verus! {

/// How a benchmark is built: from scratch, or incrementally.
#[derive(Clone, Copy, Debug, PartialEq, Eq, Hash, Structural)]
pub enum Scenario {
    Full,
    IncrFull,
    IncrUnchanged,
    IncrPatched,
}

impl Scenario {
    pub open spec fn spec_is_incr(self) -> bool {
        !(self is Full)
    }

    /// Whether this scenario uses incremental compilation.
    pub fn is_incr(&self) -> (r: bool)
        ensures
            r == self.spec_is_incr(),
    {
        match self {
            Scenario::Full => false,
            _ => true,
        }
    }
}

} // verus!
