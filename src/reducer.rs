use crate::model::{
    credited_cases, done_cases, Submission, SubmissionState, SubmissionView, TestCase, TestState,
};
use vstd::prelude::*;
use vstd::set_lib::lemma_len_subset;

verus! {

broadcast use vstd::std_specs::hash::group_hash_axioms;

/// One progress report of the judge for a submission. Case identifiers are
/// the 128-bit values of their UUIDs, times are in milliseconds and memory
/// in kB.
#[derive(Clone, Debug)]
pub enum JudgeState {
    DoCompile,
    CompleteCompile(String),
    CompileError(String),
    Accepted(u128, u64, u64),
    WrongAnswer(u128, u64, u64),
    RuntimeError(u128, i32),
    DiedOnSignal(u128, i32),
    TimeLimitExceed(u128),
    MemLimitExceed(u128),
    InternalError(u128),
    GeneralError(String),
    UnknownError,
    JudgeNotFound,
    LanguageNotFound,
    LockedSlave,
}

impl JudgeState {
    /// The test case a per-case event reports on; `None` for events about
    /// the whole submission.
    pub open spec fn spec_case_id(&self) -> Option<u128> {
        match self {
            JudgeState::Accepted(t, _, _) => Some(*t),
            JudgeState::WrongAnswer(t, _, _) => Some(*t),
            JudgeState::RuntimeError(t, _) => Some(*t),
            JudgeState::DiedOnSignal(t, _) => Some(*t),
            JudgeState::TimeLimitExceed(t) => Some(*t),
            JudgeState::MemLimitExceed(t) => Some(*t),
            JudgeState::InternalError(t) => Some(*t),
            _ => None,
        }
    }

    #[verifier::when_used_as_spec(spec_case_id)]
    pub fn case_id(&self) -> (r: Option<u128>)
        ensures
            r == self.spec_case_id(),
    {
        match self {
            JudgeState::Accepted(t, _, _) => Some(*t),
            JudgeState::WrongAnswer(t, _, _) => Some(*t),
            JudgeState::RuntimeError(t, _) => Some(*t),
            JudgeState::DiedOnSignal(t, _) => Some(*t),
            JudgeState::TimeLimitExceed(t) => Some(*t),
            JudgeState::MemLimitExceed(t) => Some(*t),
            JudgeState::InternalError(t) => Some(*t),
            _ => None,
        }
    }
}

/// What a per-case event writes into its case.
pub open spec fn updated_case(c: TestCase, e: JudgeState) -> TestCase {
    match e {
        JudgeState::Accepted(_, time, mem) => TestCase {
            time: Some(time),
            mem: Some(mem),
            status: TestState::Success,
            score: Some(1),
            ..c
        },
        JudgeState::WrongAnswer(_, time, mem) => TestCase {
            time: Some(time),
            mem: Some(mem),
            status: TestState::Success,
            ..c
        },
        JudgeState::RuntimeError(_, code) => TestCase {
            exit_code: Some(code),
            status: TestState::RuntimeErr,
            ..c
        },
        JudgeState::DiedOnSignal(_, sig) => TestCase {
            exit_sig: Some(sig),
            status: TestState::DiedOnSignal,
            ..c
        },
        JudgeState::TimeLimitExceed(_) => TestCase { status: TestState::TimeLimitExceed, ..c },
        JudgeState::MemLimitExceed(_) => TestCase { status: TestState::MemLimitExceed, ..c },
        JudgeState::InternalError(_) => TestCase { status: TestState::Failed, ..c },
        _ => c,
    }
}

/// Folding a per-case event on case `t`, which the snapshot holds. The
/// done counter moves only when the case leaves `Ready` and the total score
/// only on the first point of the case, so that a repeated event counts
/// once. When the last case is done the submission succeeds.
pub open spec fn reduce_case(s: SubmissionView, t: u128, e: JudgeState) -> SubmissionView {
    let old_case = s.cases[t];
    let done = if old_case.status == TestState::Ready && s.number_of_done < s.number_of_cases {
        s.number_of_done + 1
    } else {
        s.number_of_done as int
    };
    let score = if e is Accepted && old_case.score is None && s.score < u64::MAX {
        s.score + 1
    } else {
        s.score as int
    };
    SubmissionView {
        submission_state: if done == s.number_of_cases {
            SubmissionState::Success
        } else {
            s.submission_state
        },
        number_of_done: done as usize,
        score: score as u64,
        cases: s.cases.insert(t, updated_case(old_case, e)),
        ..s
    }
}

/// Folding an event about the whole submission.
pub open spec fn reduce_submission(s: SubmissionView, e: JudgeState) -> SubmissionView {
    match e {
        JudgeState::DoCompile => SubmissionView { submission_state: SubmissionState::DoCompile, ..s },
        JudgeState::CompleteCompile(out) => SubmissionView {
            submission_state: SubmissionState::CompileComplete,
            compile_output: out@,
            ..s
        },
        JudgeState::CompileError(err) => SubmissionView {
            submission_state: SubmissionState::CompileError,
            compile_output: err@,
            ..s
        },
        JudgeState::GeneralError(_) => SubmissionView { submission_state: SubmissionState::Failed, ..s },
        JudgeState::UnknownError => SubmissionView { submission_state: SubmissionState::Failed, ..s },
        JudgeState::JudgeNotFound => SubmissionView { submission_state: SubmissionState::Failed, ..s },
        JudgeState::LanguageNotFound => SubmissionView {
            submission_state: SubmissionState::Failed,
            ..s
        },
        JudgeState::LockedSlave => SubmissionView { submission_state: SubmissionState::Failed, ..s },
        _ => s,
    }
}

/// The next snapshot after event `e`. A terminal snapshot absorbs every
/// event; an event on a case the snapshot does not hold marks the snapshot
/// corrupted, which fails the submission and leaves the rest unchanged.
pub open spec fn reduce(s: SubmissionView, e: JudgeState) -> SubmissionView {
    if s.submission_state.is_terminal() {
        s
    } else {
        match e.spec_case_id() {
            Some(t) => if s.cases.contains_key(t) {
                reduce_case(s, t, e)
            } else {
                SubmissionView { submission_state: SubmissionState::Failed, ..s }
            },
            None => reduce_submission(s, e),
        }
    }
}

/// Folding any event keeps the snapshot invariants.
pub proof fn lemma_reduce_preserves_wf(s: SubmissionView, e: JudgeState)
    requires
        s.wf(),
    ensures
        reduce(s, e).wf(),
{
    if !s.submission_state.is_terminal() {
        if let Some(t) = e.spec_case_id() {
            if s.cases.contains_key(t) {
                lemma_reduce_case_preserves_wf(s, t, e);
            }
        }
    }
}

proof fn lemma_reduce_case_preserves_wf(s: SubmissionView, t: u128, e: JudgeState)
    requires
        s.wf(),
        s.cases.contains_key(t),
        e.spec_case_id() == Some(t),
    ensures
        reduce_case(s, t, e).wf(),
{
    let old_case = s.cases[t];
    let c = updated_case(old_case, e);
    let cases = s.cases.insert(t, c);
    let r = reduce_case(s, t, e);
    assert(cases.dom() =~= s.cases.dom());
    assert(c.status != TestState::Ready);
    let dom_t = s.cases.dom().remove(t);
    // the done cases gain `t`, and nothing else
    let old_done = done_cases(s.cases);
    assert(done_cases(cases) =~= old_done.insert(t));
    if old_case.status == TestState::Ready {
        assert(old_done.subset_of(dom_t));
        lemma_len_subset(old_done, dom_t);
    } else {
        assert(old_done.insert(t) =~= old_done);
    }
    // the credited cases gain `t` on an accepted verdict
    let old_credited = credited_cases(s.cases);
    if e is Accepted {
        assert(credited_cases(cases) =~= old_credited.insert(t));
        if old_case.score is None {
            assert(old_credited.subset_of(dom_t));
            lemma_len_subset(old_credited, dom_t);
            assert(s.score < s.number_of_cases);
        } else {
            assert(old_credited.insert(t) =~= old_credited);
        }
    } else {
        assert(credited_cases(cases) =~= old_credited);
    }
    lemma_len_subset(old_done, s.cases.dom());
    lemma_len_subset(old_credited, s.cases.dom());
}

fn update_case(c: TestCase, e: &JudgeState) -> (r: TestCase)
    ensures
        r == updated_case(c, *e),
{
    match e {
        JudgeState::Accepted(_, time, mem) => TestCase {
            time: Some(*time),
            mem: Some(*mem),
            status: TestState::Success,
            score: Some(1),
            ..c
        },
        JudgeState::WrongAnswer(_, time, mem) => TestCase {
            time: Some(*time),
            mem: Some(*mem),
            status: TestState::Success,
            ..c
        },
        JudgeState::RuntimeError(_, code) => TestCase {
            exit_code: Some(*code),
            status: TestState::RuntimeErr,
            ..c
        },
        JudgeState::DiedOnSignal(_, sig) => TestCase {
            exit_sig: Some(*sig),
            status: TestState::DiedOnSignal,
            ..c
        },
        JudgeState::TimeLimitExceed(_) => TestCase { status: TestState::TimeLimitExceed, ..c },
        JudgeState::MemLimitExceed(_) => TestCase { status: TestState::MemLimitExceed, ..c },
        JudgeState::InternalError(_) => TestCase { status: TestState::Failed, ..c },
        _ => c,
    }
}

impl Submission {
    /// Folds one judge event into the snapshot.
    pub fn apply_event(&mut self, event: JudgeState)
        ensures
            final(self)@ == reduce(old(self)@, event),
    {
        if self.submission_state.is_terminal() {
            return ;
        }
        match event.case_id() {
            Some(t) => {
                let found: Option<TestCase> = match self.cases.get(&t) {
                    Some(c) => Some(*c),
                    None => None,
                };
                match found {
                    None => {
                        self.submission_state = SubmissionState::Failed;
                    },
                    Some(old_case) => {
                        let accepted = match &event {
                            JudgeState::Accepted(_, _, _) => true,
                            _ => false,
                        };
                        if old_case.status == TestState::Ready && self.number_of_done
                            < self.number_of_cases {
                            self.number_of_done = self.number_of_done + 1;
                        }
                        if accepted && old_case.score.is_none() && self.score < u64::MAX {
                            self.score = self.score + 1;
                        }
                        self.cases.insert(t, update_case(old_case, &event));
                        if self.number_of_done == self.number_of_cases {
                            self.submission_state = SubmissionState::Success;
                        }
                    },
                }
            },
            None => {
                match event {
                    JudgeState::DoCompile => {
                        self.submission_state = SubmissionState::DoCompile;
                    },
                    JudgeState::CompleteCompile(out) => {
                        self.submission_state = SubmissionState::CompileComplete;
                        self.compile_output = out;
                    },
                    JudgeState::CompileError(err) => {
                        self.submission_state = SubmissionState::CompileError;
                        self.compile_output = err;
                    },
                    JudgeState::GeneralError(_)
                    | JudgeState::UnknownError
                    | JudgeState::JudgeNotFound
                    | JudgeState::LanguageNotFound
                    | JudgeState::LockedSlave => {
                        self.submission_state = SubmissionState::Failed;
                    },
                    _ => {},
                }
            },
        }
    }
}

} // verus!
