use std::collections::HashMap;
use vstd::prelude::*;

verus! {

broadcast use vstd::std_specs::hash::group_hash_axioms;

/// Verdict of one test case.
#[derive(Clone, Copy, Debug, PartialEq, Eq, Structural)]
pub enum TestState {
    Ready,
    Pending,
    Success,
    RuntimeErr,
    DiedOnSignal,
    TimeLimitExceed,
    MemLimitExceed,
    Failed,
}

impl Default for TestState {
    fn default() -> (r: TestState)
        ensures
            r == TestState::Ready,
    {
        TestState::Ready
    }
}

/// Overall state of a submission.
#[derive(Clone, Copy, Debug, PartialEq, Eq, Structural)]
pub enum SubmissionState {
    Ready,
    DoCompile,
    CompileComplete,
    CompileError,
    Pending,
    Failed,
    Success,
}

impl Default for SubmissionState {
    fn default() -> (r: SubmissionState)
        ensures
            r == SubmissionState::Ready,
    {
        SubmissionState::Ready
    }
}

impl SubmissionState {
    /// A terminal state admits no further transition.
    pub open spec fn spec_is_terminal(self) -> bool {
        self == SubmissionState::CompileError || self == SubmissionState::Failed || self
            == SubmissionState::Success
    }

    #[verifier::when_used_as_spec(spec_is_terminal)]
    pub fn is_terminal(self) -> (r: bool)
        ensures
            r == self.spec_is_terminal(),
    {
        match self {
            SubmissionState::CompileError | SubmissionState::Failed | SubmissionState::Success => true,
            _ => false,
        }
    }
}

/// Result of running the submission on one test case. Identifiers are the
/// 128-bit values of the UUIDs; `time` is in milliseconds, `mem` in kB and
/// `score` in whole points.
#[derive(Clone, Copy, Debug, PartialEq, Eq, Structural)]
pub struct TestCase {
    pub test_uuid: u128,
    pub status: TestState,
    pub score: Option<u64>,
    pub exit_code: Option<i32>,
    pub exit_sig: Option<i32>,
    pub time: Option<u64>,
    pub mem: Option<u64>,
}

impl TestCase {
    /// A case that has not run yet.
    pub open spec fn spec_new(test_uuid: u128) -> TestCase {
        TestCase {
            test_uuid,
            status: TestState::Ready,
            score: None,
            exit_code: None,
            exit_sig: None,
            time: None,
            mem: None,
        }
    }

    pub fn new(test_uuid: u128) -> (r: TestCase)
        ensures
            r == TestCase::spec_new(test_uuid),
    {
        TestCase {
            test_uuid,
            status: TestState::Ready,
            score: None,
            exit_code: None,
            exit_sig: None,
            time: None,
            mem: None,
        }
    }

    pub fn uuid(&self) -> (r: u128)
        ensures
            r == self.test_uuid,
    {
        self.test_uuid
    }

    pub fn status(&self) -> (r: TestState)
        ensures
            r == self.status,
    {
        self.status
    }

    pub fn score(&self) -> (r: Option<u64>)
        ensures
            r == self.score,
    {
        self.score
    }

    pub fn exit_code(&self) -> (r: Option<i32>)
        ensures
            r == self.exit_code,
    {
        self.exit_code
    }

    pub fn exit_sig(&self) -> (r: Option<i32>)
        ensures
            r == self.exit_sig,
    {
        self.exit_sig
    }

    /// Running time in milliseconds.
    pub fn time(&self) -> (r: Option<u64>)
        ensures
            r == self.time,
    {
        self.time
    }

    /// Memory use in kB.
    pub fn mem(&self) -> (r: Option<u64>)
        ensures
            r == self.mem,
    {
        self.mem
    }
}

/// The aggregated state of one submission, as stored and as broadcast.
#[derive(Clone, Debug)]
pub struct Submission {
    pub judge_uuid: u128,
    pub submission_state: SubmissionState,
    pub number_of_cases: usize,
    pub number_of_done: usize,
    pub compile_output: String,
    pub score: u64,
    pub cases: HashMap<u128, TestCase>,
}

/// Mathematical model of a [`Submission`].
pub struct SubmissionView {
    pub judge_uuid: u128,
    pub submission_state: SubmissionState,
    pub number_of_cases: usize,
    pub number_of_done: usize,
    pub compile_output: Seq<char>,
    pub score: u64,
    pub cases: Map<u128, TestCase>,
}

impl Submission {
    /// Builds the initial snapshot of submission `judge_uuid` whose task has
    /// the test cases `test_ids`.
    pub fn new(judge_uuid: u128, test_ids: &Vec<u128>) -> (r: Submission)
        ensures
            r@ == initial_snapshot(judge_uuid, test_ids@),
            r@.wf(),
    {
        let mut cases: HashMap<u128, TestCase> = HashMap::new();
        let mut i: usize = 0;
        while i < test_ids.len()
            invariant
                i <= test_ids.len(),
                cases@ == Map::new(
                    |t: u128| test_ids@.take(i as int).contains(t),
                    |t: u128| TestCase::spec_new(t),
                ),
            decreases test_ids.len() - i,
        {
            let t = test_ids[i];
            cases.insert(t, TestCase::new(t));
            proof {
                let prev = test_ids@.take(i as int);
                assert(test_ids@.take(i + 1) == prev.push(t));
                assert forall|u: u128| #[trigger] prev.push(t).contains(u) <==> (prev.contains(u)
                    || u == t) by {
                    if prev.contains(u) {
                        let j = choose|j: int| 0 <= j < prev.len() && prev[j] == u;
                        assert(prev.push(t)[j] == u);
                    }
                    if u == t {
                        assert(prev.push(t)[prev.len() as int] == u);
                    }
                }
                assert(cases@ =~= Map::new(
                    |u: u128| test_ids@.take(i + 1).contains(u),
                    |u: u128| TestCase::spec_new(u),
                ));
            }
            i = i + 1;
        }
        proof {
            assert(test_ids@.take(i as int) == test_ids@);
            assert(done_cases(cases@) =~= Set::empty());
            assert(credited_cases(cases@) =~= Set::empty());
        }
        let number_of_cases = cases.len();
        Submission {
            judge_uuid,
            submission_state: SubmissionState::Ready,
            number_of_cases,
            number_of_done: 0,
            compile_output: String::new(),
            score: 0,
            cases,
        }
    }
}

impl Submission {
    pub fn uuid(&self) -> (r: u128)
        ensures
            r == self.judge_uuid,
    {
        self.judge_uuid
    }

    pub fn number_of_cases(&self) -> (r: usize)
        ensures
            r == self.number_of_cases,
    {
        self.number_of_cases
    }

    pub fn number_of_done(&self) -> (r: usize)
        ensures
            r == self.number_of_done,
    {
        self.number_of_done
    }

    pub fn compile_output(&self) -> (r: String)
        ensures
            r@ == self.compile_output@,
    {
        self.compile_output.clone()
    }

    pub fn score(&self) -> (r: u64)
        ensures
            r == self.score,
    {
        self.score
    }

    pub fn cases(&self) -> (r: HashMap<u128, TestCase>)
        ensures
            r@ == self.cases@,
    {
        self.cases.clone()
    }

    /// The case with identifier `t`, if the snapshot holds one.
    pub fn case(&self, t: u128) -> (r: Option<TestCase>)
        ensures
            r == (if self.cases@.contains_key(t) {
                Some(self.cases@[t])
            } else {
                None
            }),
    {
        match self.cases.get(&t) {
            Some(c) => Some(*c),
            None => None,
        }
    }
}

impl View for Submission {
    type V = SubmissionView;

    open spec fn view(&self) -> SubmissionView {
        SubmissionView {
            judge_uuid: self.judge_uuid,
            submission_state: self.submission_state,
            number_of_cases: self.number_of_cases,
            number_of_done: self.number_of_done,
            compile_output: self.compile_output@,
            score: self.score,
            cases: self.cases@,
        }
    }
}

/// Identifiers of the cases that have a verdict.
pub open spec fn done_cases(cases: Map<u128, TestCase>) -> Set<u128> {
    cases.dom().filter(|t: u128| cases[t].status != TestState::Ready)
}

/// Identifiers of the cases that earned their point.
pub open spec fn credited_cases(cases: Map<u128, TestCase>) -> Set<u128> {
    cases.dom().filter(|t: u128| cases[t].score is Some)
}

/// The snapshot that the enqueue path stores for a new submission: one
/// case in `Ready` for each distinct identifier, everything else at its
/// default.
pub open spec fn initial_snapshot(judge_uuid: u128, test_ids: Seq<u128>) -> SubmissionView {
    let cases = Map::new(|t: u128| test_ids.contains(t), |t: u128| TestCase::spec_new(t));
    SubmissionView {
        judge_uuid,
        submission_state: SubmissionState::Ready,
        number_of_cases: cases.len() as usize,
        number_of_done: 0,
        compile_output: Seq::empty(),
        score: 0,
        cases,
    }
}

impl SubmissionView {
    /// The snapshot invariants: the counters agree with the cases, and each
    /// case is stored under its own identifier.
    pub open spec fn wf(self) -> bool {
        &&& self.cases.dom().finite()
        &&& self.number_of_cases == self.cases.len()
        &&& self.number_of_done == done_cases(self.cases).len()
        &&& self.score == credited_cases(self.cases).len()
        &&& forall|t: u128| #[trigger] self.cases.contains_key(t) ==> self.cases[t].test_uuid == t
    }
}

} // verus!
