//! Test cases of compile-time benchmarks, as results are recorded under, and
//! the set of cases whose results are already known.
use crate::compile::benchmark::codegen_backend::CodegenBackend;
use crate::compile::benchmark::profile::Profile;
use crate::compile::benchmark::target::Target;
use vstd::prelude::*;

verus! {

/// The scenario a result is recorded under.
#[derive(Clone, Debug, PartialEq, Eq, Hash)]
pub enum TestScenario {
    /// A full build.
    Empty,
    /// An incremental build from scratch.
    IncrementalEmpty,
    /// An incremental build with nothing changed.
    IncrementalFresh,
    /// An incremental build after the named patch.
    IncrementalPatch(String),
}

pub enum TestScenarioView {
    Empty,
    IncrementalEmpty,
    IncrementalFresh,
    IncrementalPatch(Seq<char>),
}

impl View for TestScenario {
    type V = TestScenarioView;

    open spec fn view(&self) -> TestScenarioView {
        match self {
            TestScenario::Empty => TestScenarioView::Empty,
            TestScenario::IncrementalEmpty => TestScenarioView::IncrementalEmpty,
            TestScenario::IncrementalFresh => TestScenarioView::IncrementalFresh,
            TestScenario::IncrementalPatch(p) => TestScenarioView::IncrementalPatch(p@),
        }
    }
}

/// One recorded measurement: a benchmark built with a profile, backend and
/// target in a scenario.
#[derive(Clone, Debug, PartialEq, Eq, Hash)]
pub struct CompileTestCase {
    pub benchmark: String,
    pub profile: Profile,
    pub backend: CodegenBackend,
    pub target: Target,
    pub scenario: TestScenario,
}

pub struct CompileTestCaseView {
    pub benchmark: Seq<char>,
    pub profile: Profile,
    pub backend: CodegenBackend,
    pub target: Target,
    pub scenario: TestScenarioView,
}

impl View for CompileTestCase {
    type V = CompileTestCaseView;

    open spec fn view(&self) -> CompileTestCaseView {
        CompileTestCaseView {
            benchmark: self.benchmark@,
            profile: self.profile,
            backend: self.backend,
            target: self.target,
            scenario: self.scenario@,
        }
    }
}

/// The test cases whose results are already known, held in a
/// `hashbrown::HashSet`.
#[verifier::external_body]
pub struct ComputedSet {
    cases: hashbrown::HashSet<CompileTestCase>,
}

/// The test cases a `ComputedSet` holds, by their views.
pub uninterp spec fn computed_cases(s: ComputedSet) -> Set<CompileTestCaseView>;

impl ComputedSet {
    /// `hashbrown::HashSet::new`: an empty set.
    #[verifier::external_body]
    pub fn new() -> (r: ComputedSet)
        ensures
            computed_cases(r) == Set::<CompileTestCaseView>::empty(),
    {
        ComputedSet { cases: hashbrown::HashSet::new() }
    }

    /// `hashbrown::HashSet::insert`: adds `case`; says whether it was new.
    /// Two cases are the same item exactly when their views agree, as the
    /// derived `Eq` and `Hash` compare and hash field by field.
    #[verifier::external_body]
    pub fn insert(&mut self, case: CompileTestCase) -> (r: bool)
        ensures
            computed_cases(*final(self)) == computed_cases(*old(self)).insert(case@),
            r == !computed_cases(*old(self)).contains(case@),
    {
        self.cases.insert(case)
    }

    /// `hashbrown::HashSet::contains`: whether `case` is in the set.
    #[verifier::external_body]
    pub fn contains(&self, case: &CompileTestCase) -> (r: bool)
        ensures
            r == computed_cases(*self).contains(case@),
    {
        self.cases.contains(case)
    }
}

} // verus!
