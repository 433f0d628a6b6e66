use pms_backend::{
    fold_stored, JudgeState, Submission, SubmissionState, TestState,
};

const SUB: u128 = 0x1111_1111_1111_1111_1111_1111_1111_1111;
const A: u128 = 0xa;
const B: u128 = 0xb;

fn fresh() -> Submission {
    Submission::new(SUB, &vec![A, B])
}

fn feed(mut s: Submission, events: Vec<JudgeState>) -> Submission {
    for e in events {
        s.apply_event(e);
    }
    s
}

#[test]
fn initial_snapshot_has_every_case_ready() {
    let s = fresh();
    assert_eq!(s.uuid(), SUB);
    assert_eq!(s.submission_state, SubmissionState::Ready);
    assert_eq!(s.number_of_cases(), 2);
    assert_eq!(s.number_of_done(), 0);
    assert_eq!(s.score(), 0);
    assert_eq!(s.compile_output(), "");
    assert_eq!(s.cases().len(), 2);
    let a = s.case(A).unwrap();
    assert_eq!(a.uuid(), A);
    assert_eq!(a.status(), TestState::Ready);
    assert_eq!(a.score(), None);
    assert_eq!(a.exit_code(), None);
    assert_eq!(a.exit_sig(), None);
    assert_eq!(a.time(), None);
    assert_eq!(a.mem(), None);
}

#[test]
fn repeated_case_ids_make_one_case() {
    let s = Submission::new(SUB, &vec![A, B, A]);
    assert_eq!(s.number_of_cases(), 2);
    let empty = Submission::new(SUB, &vec![]);
    assert_eq!(empty.number_of_cases(), 0);
    assert!(empty.case(A).is_none());
}

#[test]
fn accepted_and_wrong_answer_finish_the_submission() {
    let s = feed(
        fresh(),
        vec![
            JudgeState::DoCompile,
            JudgeState::CompleteCompile(String::new()),
            JudgeState::Accepted(A, 10, 1024),
            JudgeState::WrongAnswer(B, 20, 2048),
        ],
    );
    assert_eq!(s.submission_state, SubmissionState::Success);
    assert_eq!(s.number_of_done, 2);
    assert_eq!(s.score, 1);
    let a = s.case(A).unwrap();
    let b = s.case(B).unwrap();
    assert_eq!(a.status, TestState::Success);
    assert_eq!(b.status, TestState::Success);
    assert_eq!(a.time, Some(10));
    assert_eq!(a.mem, Some(1024));
    assert_eq!(a.score, Some(1));
    assert_eq!(b.time, Some(20));
    assert_eq!(b.mem, Some(2048));
    assert_eq!(b.score, None);
}

#[test]
fn compile_error_is_final() {
    let s = feed(
        fresh(),
        vec![JudgeState::DoCompile, JudgeState::CompileError("syntax".to_string())],
    );
    assert_eq!(s.submission_state, SubmissionState::CompileError);
    assert_eq!(s.compile_output, "syntax");
    assert_eq!(s.number_of_done, 0);
}

#[test]
fn duplicate_accepted_counts_once() {
    let s = feed(
        fresh(),
        vec![
            JudgeState::DoCompile,
            JudgeState::CompleteCompile("ok".to_string()),
            JudgeState::Accepted(A, 10, 1024),
            JudgeState::Accepted(A, 10, 1024),
        ],
    );
    assert_eq!(s.number_of_done, 1);
    assert_eq!(s.score, 1);
    assert_eq!(s.submission_state, SubmissionState::CompileComplete);
    assert_eq!(s.compile_output, "ok");
}

#[test]
fn unknown_case_fails_the_submission() {
    let s = feed(
        fresh(),
        vec![JudgeState::DoCompile, JudgeState::Accepted(0x2, 1, 1)],
    );
    assert_eq!(s.submission_state, SubmissionState::Failed);
    assert_eq!(s.number_of_done, 0);
    assert_eq!(s.score, 0);
    assert_eq!(s.case(A).unwrap().status, TestState::Ready);
    assert!(s.case(0x2).is_none());
}

#[test]
fn each_case_verdict_is_recorded() {
    let mut s = Submission::new(SUB, &vec![1, 2, 3, 4, 5, 6]);
    s.apply_event(JudgeState::RuntimeError(1, 3));
    s.apply_event(JudgeState::DiedOnSignal(2, 9));
    s.apply_event(JudgeState::TimeLimitExceed(3));
    s.apply_event(JudgeState::MemLimitExceed(4));
    s.apply_event(JudgeState::InternalError(5));
    assert_eq!(s.case(1).unwrap().status, TestState::RuntimeErr);
    assert_eq!(s.case(1).unwrap().exit_code, Some(3));
    assert_eq!(s.case(2).unwrap().status, TestState::DiedOnSignal);
    assert_eq!(s.case(2).unwrap().exit_sig, Some(9));
    assert_eq!(s.case(3).unwrap().status, TestState::TimeLimitExceed);
    assert_eq!(s.case(4).unwrap().status, TestState::MemLimitExceed);
    assert_eq!(s.case(5).unwrap().status, TestState::Failed);
    assert_eq!(s.case(6).unwrap().status, TestState::Ready);
    assert_eq!(s.number_of_done, 5);
    assert_eq!(s.score, 0);
    assert_eq!(s.submission_state, SubmissionState::Ready);
    s.apply_event(JudgeState::WrongAnswer(6, 7, 8));
    assert_eq!(s.number_of_done, 6);
    assert_eq!(s.submission_state, SubmissionState::Success);
}

#[test]
fn every_failure_report_fails_the_submission() {
    for e in vec![
        JudgeState::GeneralError("boom".to_string()),
        JudgeState::UnknownError,
        JudgeState::JudgeNotFound,
        JudgeState::LanguageNotFound,
        JudgeState::LockedSlave,
    ] {
        let s = feed(fresh(), vec![JudgeState::DoCompile, e]);
        assert_eq!(s.submission_state, SubmissionState::Failed);
        assert_eq!(s.number_of_done, 0);
    }
}

#[test]
fn failed_submission_absorbs_later_events() {
    let s = feed(
        fresh(),
        vec![
            JudgeState::UnknownError,
            JudgeState::Accepted(A, 1, 1),
            JudgeState::Accepted(B, 1, 1),
            JudgeState::CompleteCompile("late".to_string()),
        ],
    );
    assert_eq!(s.submission_state, SubmissionState::Failed);
    assert_eq!(s.number_of_done, 0);
    assert_eq!(s.score, 0);
    assert_eq!(s.compile_output, "");
}

#[test]
fn done_counter_never_decreases_nor_passes_case_count() {
    let events = vec![
        JudgeState::DoCompile,
        JudgeState::Accepted(A, 1, 1),
        JudgeState::Accepted(A, 1, 1),
        JudgeState::RuntimeError(A, 1),
        JudgeState::WrongAnswer(B, 2, 2),
        JudgeState::Accepted(B, 2, 2),
    ];
    let mut s = fresh();
    let mut last = 0;
    for e in events {
        s.apply_event(e);
        assert!(s.number_of_done >= last);
        assert!(s.number_of_done <= s.number_of_cases);
        last = s.number_of_done;
    }
    assert_eq!(last, 2);
}

#[test]
fn reported_cases_leave_ready() {
    let s = feed(
        Submission::new(SUB, &vec![A, B, 0xc]),
        vec![JudgeState::TimeLimitExceed(A), JudgeState::Accepted(0xc, 5, 5)],
    );
    assert_ne!(s.case(A).unwrap().status, TestState::Ready);
    assert_ne!(s.case(0xc).unwrap().status, TestState::Ready);
    assert_eq!(s.case(B).unwrap().status, TestState::Ready);
}

#[test]
fn score_counts_distinct_accepted_cases() {
    let s = feed(
        Submission::new(SUB, &vec![1, 2, 3]),
        vec![
            JudgeState::Accepted(1, 1, 1),
            JudgeState::Accepted(1, 1, 1),
            JudgeState::Accepted(2, 1, 1),
            JudgeState::RuntimeError(3, 1),
        ],
    );
    assert_eq!(s.score, 2);
    assert_eq!(s.submission_state, SubmissionState::Success);
}

#[test]
fn reduction_is_deterministic() {
    let events = || {
        vec![
            JudgeState::DoCompile,
            JudgeState::CompleteCompile("x".to_string()),
            JudgeState::Accepted(A, 3, 4),
        ]
    };
    let x = feed(fresh(), events());
    let y = feed(fresh(), events());
    assert_eq!(x.submission_state, y.submission_state);
    assert_eq!(x.number_of_done, y.number_of_done);
    assert_eq!(x.score, y.score);
    assert_eq!(x.compile_output, y.compile_output);
    assert_eq!(x.cases, y.cases);
}

#[test]
fn missing_snapshot_drops_the_event() {
    assert!(fold_stored(None, JudgeState::DoCompile).is_none());
    let next = fold_stored(Some(fresh()), JudgeState::DoCompile).unwrap();
    assert_eq!(next.submission_state, SubmissionState::DoCompile);
}

#[test]
fn terminal_states() {
    assert!(SubmissionState::CompileError.is_terminal());
    assert!(SubmissionState::Failed.is_terminal());
    assert!(SubmissionState::Success.is_terminal());
    assert!(!SubmissionState::Ready.is_terminal());
    assert!(!SubmissionState::CompileComplete.is_terminal());
    assert_eq!(SubmissionState::default(), SubmissionState::Ready);
    assert_eq!(TestState::default(), TestState::Ready);
    assert_eq!(JudgeState::Accepted(A, 1, 2).case_id(), Some(A));
    assert_eq!(JudgeState::DoCompile.case_id(), None);
}
