use vstd::prelude::*;
use vstd::string::*;

verus! {

/// The three-valued result of one test case: a real pass, a real failure,
/// or not applicable because the case was skipped.
#[derive(Clone, Copy, PartialEq, Eq, Structural, Debug)]
pub enum PassState {
    Passed,
    Failed,
    NotApplicable,
}

/// The outcome of one test case.  `output` carries the re-encoded bytes of a
/// round-trip mismatch, rendered in hexadecimal; `error` carries a
/// diagnostic.  Which fields may be present is governed by the executor's
/// contracts, not by this structure.
#[derive(Debug, PartialEq)]
pub struct Outcome {
    pub pass: PassState,
    pub output: Option<String>,
    pub error: Option<String>,
}

pub ghost struct OutcomeModel {
    pub pass: PassState,
    pub output: Option<Seq<char>>,
    pub error: Option<Seq<char>>,
}

impl View for Outcome {
    type V = OutcomeModel;

    open spec fn view(&self) -> OutcomeModel {
        OutcomeModel {
            pass: self.pass,
            output: match self.output {
                Some(s) => Some(s@),
                None => None,
            },
            error: match self.error {
                Some(s) => Some(s@),
                None => None,
            },
        }
    }
}

/// The outcome recorded for a skipped case: not applicable, nothing else.
pub open spec fn skipped_outcome() -> OutcomeModel {
    OutcomeModel { pass: PassState::NotApplicable, output: None, error: None }
}

/// The outcome of a rejection-mode case: the case passes exactly when the
/// codec refused, and the refusal's diagnostic is kept.
pub open spec fn flag_outcome(refused: bool, info: Seq<char>) -> OutcomeModel {
    if refused {
        OutcomeModel { pass: PassState::Passed, output: None, error: Some(info) }
    } else {
        OutcomeModel { pass: PassState::Failed, output: None, error: None }
    }
}

pub open spec fn outcomes_model(s: Seq<Outcome>) -> Seq<OutcomeModel> {
    Seq::new(s.len(), |i: int| s[i]@)
}

/// Run metadata: where the codec under test lives, and its version.
pub struct Metadata {
    pub link: String,
    pub version: String,
}

impl View for Metadata {
    type V = (Seq<char>, Seq<char>);

    open spec fn view(&self) -> (Seq<char>, Seq<char>) {
        (self.link@, self.version@)
    }
}

/// The final report: metadata plus, for each fixture file, the outcomes of
/// its cases in fixture order.  Files are kept in the order they were added,
/// so a run over an unchanged corpus rebuilds an identical report.
pub struct Report {
    pub metadata: Metadata,
    pub files: Vec<(String, Vec<Outcome>)>,
}

pub ghost struct ReportModel {
    pub metadata: (Seq<char>, Seq<char>),
    pub files: Seq<(Seq<char>, Seq<OutcomeModel>)>,
}

impl View for Report {
    type V = ReportModel;

    open spec fn view(&self) -> ReportModel {
        ReportModel {
            metadata: self.metadata@,
            files: Seq::new(
                self.files@.len(),
                |i: int| (self.files@[i].0@, outcomes_model(self.files@[i].1@)),
            ),
        }
    }
}

impl Report {
    /// A fresh report with no files yet.
    pub fn new(metadata: Metadata) -> (r: Report)
        ensures
            r@.metadata == metadata@,
            r@.files.len() == 0,
    {
        let r = Report { metadata, files: Vec::new() };
        proof {
            assert(r@.files =~= Seq::<(Seq<char>, Seq<OutcomeModel>)>::empty());
        }
        r
    }

    /// Append one fixture file's outcomes.  Earlier files and the metadata
    /// are untouched; the new file comes last.
    pub fn add_file(&mut self, name: String, outcomes: Vec<Outcome>)
        ensures
            final(self)@.metadata == old(self)@.metadata,
            final(self)@.files == old(self)@.files.push((name@, outcomes_model(outcomes@))),
    {
        self.files.push((name, outcomes));
        proof {
            assert(final(self)@.files =~= old(self)@.files.push(
                (name@, outcomes_model(outcomes@)),
            ));
        }
    }
}

pub open spec fn deps_model(deps: Seq<(String, String)>) -> Seq<(Seq<char>, Seq<char>)> {
    Seq::new(deps.len(), |i: int| (deps[i].0@, deps[i].1@))
}

/// The first version recorded under `name`, if any.
pub open spec fn version_lookup(deps: Seq<(Seq<char>, Seq<char>)>, name: Seq<char>) -> Option<
    Seq<char>,
>
    decreases deps,
{
    if deps.len() == 0 {
        None
    } else if deps[0].0 == name {
        Some(deps[0].1)
    } else {
        version_lookup(deps.subrange(1, deps.len() as int), name)
    }
}

proof fn lemma_version_lookup_found(deps: Seq<(Seq<char>, Seq<char>)>, name: Seq<char>, i: int)
    requires
        0 <= i < deps.len(),
        deps[i].0 == name,
        forall|j: int| 0 <= j < i ==> deps[j].0 != name,
    ensures
        version_lookup(deps, name) == Some(deps[i].1),
    decreases deps,
{
    if i > 0 {
        let rest = deps.subrange(1, deps.len() as int);
        assert(forall|j: int| 0 <= j < rest.len() ==> rest[j] == deps[j + 1]);
        lemma_version_lookup_found(rest, name, i - 1);
    }
}

proof fn lemma_version_lookup_absent(deps: Seq<(Seq<char>, Seq<char>)>, name: Seq<char>)
    requires
        forall|j: int| 0 <= j < deps.len() ==> deps[j].0 != name,
    ensures
        version_lookup(deps, name) is None,
    decreases deps,
{
    if deps.len() > 0 {
        let rest = deps.subrange(1, deps.len() as int);
        assert(forall|j: int| 0 <= j < rest.len() ==> rest[j] == deps[j + 1]);
        lemma_version_lookup_absent(rest, name);
    }
}

/// The version string recorded for a dependency, or the sentinel
/// `unknown-<name>` when the table has no entry for it.
#[verifier::loop_isolation(false)]
pub fn get_dependency_version(deps: &Vec<(String, String)>, dependency: &str) -> (r: String)
    ensures
        match version_lookup(deps_model(deps@), dependency@) {
            Some(v) => r@ == v,
            None => r@ == "unknown-"@ + dependency@,
        },
{
    let key = dependency.to_owned();
    let mut i: usize = 0;
    while i < deps.len()
        invariant
            0 <= i <= deps@.len(),
            forall|j: int| 0 <= j < i ==> deps@[j].0@ != dependency@,
        decreases deps@.len() - i,
    {
        if deps[i].0.eq(&key) {
            proof {
                lemma_version_lookup_found(deps_model(deps@), dependency@, i as int);
            }
            return deps[i].1.clone();
        }
        i = i + 1;
    }
    proof {
        lemma_version_lookup_absent(deps_model(deps@), dependency@);
    }
    let mut s = "unknown-".to_owned();
    s.append(dependency);
    s
}

} // verus!
