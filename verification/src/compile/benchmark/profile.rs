//! Compilation profiles.
use vstd::prelude::*;

verus! {

/// The profile a benchmark is built with.
#[derive(Clone, Copy, Debug, PartialEq, Eq, Hash, Structural)]
pub enum Profile {
    Check,
    Debug,
    Doc,
    DocJson,
    Opt,
    Clippy,
}

impl Profile {
    pub open spec fn spec_is_doc(self) -> bool {
        self is Doc || self is DocJson
    }

    /// Whether this profile runs rustdoc rather than rustc.
    pub fn is_doc(&self) -> (r: bool)
        ensures
            r == self.spec_is_doc(),
    {
        match self {
            Profile::Doc | Profile::DocJson => true,
            _ => false,
        }
    }
}

} // verus!
