//! Properties of folding a whole sequence of judge events into a snapshot.
use crate::model::{credited_cases, SubmissionView, TestState};
use crate::reducer::{lemma_reduce_preserves_wf, reduce, JudgeState};
use vstd::prelude::*;

verus! {

/// The snapshot after folding the events `evs`, in order, into `s`.
pub open spec fn fold_events(s: SubmissionView, evs: Seq<JudgeState>) -> SubmissionView
    decreases evs.len(),
{
    if evs.len() == 0 {
        s
    } else {
        reduce(fold_events(s, evs.drop_last()), evs.last())
    }
}

/// The snapshot after the first `k` events of `evs`.
pub open spec fn after(s: SubmissionView, evs: Seq<JudgeState>, k: int) -> SubmissionView {
    fold_events(s, evs.take(k))
}

/// Event `e`, folded into `st`, is an accepted verdict on case `t` that the
/// reducer takes into account.
pub open spec fn accepts_case(st: SubmissionView, e: JudgeState, t: u128) -> bool {
    &&& !st.submission_state.is_terminal()
    &&& e is Accepted
    &&& e.spec_case_id() == Some(t)
    &&& st.cases.contains_key(t)
}

/// The cases for which an accepted verdict was processed while folding
/// `evs` into `s`.
pub open spec fn accepted_ids(s: SubmissionView, evs: Seq<JudgeState>) -> Set<u128> {
    Set::new(
        |t: u128|
            exists|i: int| 0 <= i < evs.len() && #[trigger] accepts_case(after(s, evs, i), evs[i], t),
    )
}

proof fn lemma_after_step(s: SubmissionView, evs: Seq<JudgeState>, k: int)
    requires
        0 <= k < evs.len(),
    ensures
        after(s, evs, k + 1) == reduce(after(s, evs, k), evs[k]),
{
    assert(evs.take(k + 1).drop_last() =~= evs.take(k));
}

proof fn lemma_after_whole(s: SubmissionView, evs: Seq<JudgeState>)
    ensures
        after(s, evs, evs.len() as int) == fold_events(s, evs),
{
    assert(evs.take(evs.len() as int) =~= evs);
}

/// Reduction is a function of the snapshot and the event alone: equal
/// inputs give equal snapshots, one event at a time and over a sequence.
pub proof fn law_reduce_deterministic(
    s1: SubmissionView,
    s2: SubmissionView,
    evs1: Seq<JudgeState>,
    evs2: Seq<JudgeState>,
)
    requires
        s1 == s2,
        evs1 == evs2,
    ensures
        evs1.len() > 0 ==> reduce(s1, evs1[0]) == reduce(s2, evs2[0]),
        fold_events(s1, evs1) == fold_events(s2, evs2),
{
}

proof fn lemma_reduce_counters(s: SubmissionView, e: JudgeState)
    requires
        s.number_of_done <= s.number_of_cases,
    ensures
        reduce(s, e).number_of_cases == s.number_of_cases,
        s.number_of_done <= reduce(s, e).number_of_done <= reduce(s, e).number_of_cases,
{
}

proof fn lemma_reduce_keeps_verdicts(s: SubmissionView, e: JudgeState)
    ensures
        reduce(s, e).cases.dom() =~= s.cases.dom(),
        forall|t: u128|
            s.cases.contains_key(t) && s.cases[t].status != TestState::Ready
                ==> #[trigger] reduce(s, e).cases[t].status != TestState::Ready,
{
}

/// The done counter never decreases along a sequence of events and never
/// passes the number of cases, which itself does not change.
pub proof fn law_done_monotone(s: SubmissionView, evs: Seq<JudgeState>, i: int, j: int)
    requires
        s.number_of_done <= s.number_of_cases,
        0 <= i <= j <= evs.len(),
    ensures
        after(s, evs, i).number_of_done <= after(s, evs, j).number_of_done,
        after(s, evs, j).number_of_done <= after(s, evs, j).number_of_cases,
        after(s, evs, j).number_of_cases == s.number_of_cases,
    decreases j,
{
    if j == 0 {
        assert(evs.take(0) =~= Seq::<JudgeState>::empty());
    } else {
        law_done_monotone(s, evs, if i == j { j - 1 } else { i }, j - 1);
        lemma_after_step(s, evs, j - 1);
        lemma_reduce_counters(after(s, evs, j - 1), evs[j - 1]);
    }
}

proof fn lemma_case_stays_done(s: SubmissionView, evs: Seq<JudgeState>, i: int, k: int, t: u128)
    requires
        0 <= i < k <= evs.len(),
        after(s, evs, i + 1).cases.contains_key(t),
        after(s, evs, i + 1).cases[t].status != TestState::Ready,
    ensures
        after(s, evs, k).cases.contains_key(t),
        after(s, evs, k).cases[t].status != TestState::Ready,
    decreases k,
{
    if k > i + 1 {
        lemma_case_stays_done(s, evs, i, k - 1, t);
        lemma_after_step(s, evs, k - 1);
        lemma_reduce_keeps_verdicts(after(s, evs, k - 1), evs[k - 1]);
    }
}

/// Every case that an event reported on, while the submission was still
/// open, has left `Ready` in the final snapshot.
pub proof fn law_reported_cases_done(s: SubmissionView, evs: Seq<JudgeState>, i: int, t: u128)
    requires
        0 <= i < evs.len(),
        !after(s, evs, i).submission_state.is_terminal(),
        evs[i].spec_case_id() == Some(t),
        after(s, evs, i).cases.contains_key(t),
    ensures
        fold_events(s, evs).cases.contains_key(t),
        fold_events(s, evs).cases[t].status != TestState::Ready,
{
    lemma_after_step(s, evs, i);
    lemma_case_stays_done(s, evs, i, evs.len() as int, t);
    lemma_after_whole(s, evs);
}

/// Once a snapshot is terminal, later events leave it as it is; in
/// particular a compile error or a failure never turns into success.
pub proof fn law_terminal_absorbs(s: SubmissionView, evs: Seq<JudgeState>, i: int, j: int)
    requires
        0 <= i <= j <= evs.len(),
        after(s, evs, i).submission_state.is_terminal(),
    ensures
        after(s, evs, j) == after(s, evs, i),
        after(s, evs, j).submission_state == after(s, evs, i).submission_state,
    decreases j - i,
{
    if j > i {
        law_terminal_absorbs(s, evs, i, j - 1);
        lemma_after_step(s, evs, j - 1);
    }
}

proof fn lemma_accepted_ids_step(s: SubmissionView, evs: Seq<JudgeState>, k: int)
    requires
        0 <= k < evs.len(),
    ensures
        accepted_ids(s, evs.take(k + 1)) =~= (if evs[k] is Accepted && accepts_case(
            after(s, evs, k),
            evs[k],
            evs[k].spec_case_id().unwrap(),
        ) {
            accepted_ids(s, evs.take(k)).insert(evs[k].spec_case_id().unwrap())
        } else {
            accepted_ids(s, evs.take(k))
        }),
{
    let pre = evs.take(k);
    let pre1 = evs.take(k + 1);
    assert forall|i: int| 0 <= i <= k implies after(s, pre1, i) == after(s, evs, i) && after(
        s,
        pre,
        i,
    ) == after(s, evs, i) by {
        assert(pre1.take(i) =~= evs.take(i));
        assert(pre.take(i) =~= evs.take(i));
    }
    assert forall|t: u128| #[trigger]
        accepted_ids(s, pre1).contains(t) == (accepted_ids(s, pre).contains(t) || (
        accepts_case(after(s, evs, k), evs[k], t))) by {
        if accepted_ids(s, pre1).contains(t) {
            let i = choose|i: int|
                0 <= i < pre1.len() && #[trigger] accepts_case(after(s, pre1, i), pre1[i], t);
            if i < k {
                assert(accepts_case(after(s, pre, i), pre[i], t));
            }
        }
        if accepted_ids(s, pre).contains(t) {
            let i = choose|i: int|
                0 <= i < pre.len() && #[trigger] accepts_case(after(s, pre, i), pre[i], t);
            assert(accepts_case(after(s, pre1, i), pre1[i], t));
        }
        if accepts_case(after(s, evs, k), evs[k], t) {
            assert(accepts_case(after(s, pre1, k), pre1[k], t));
        }
    }
}

proof fn lemma_score_tracks_accepted(s: SubmissionView, evs: Seq<JudgeState>, k: int)
    requires
        s.wf(),
        s.score == 0,
        0 <= k <= evs.len(),
    ensures
        after(s, evs, k).wf(),
        credited_cases(after(s, evs, k).cases) == accepted_ids(s, evs.take(k)),
    decreases k,
{
    if k == 0 {
        assert(evs.take(0) =~= Seq::<JudgeState>::empty());
        assert(credited_cases(s.cases).len() == 0);
        assert(credited_cases(s.cases) =~= Set::empty());
        assert(accepted_ids(s, evs.take(0)) =~= Set::empty());
    } else {
        let st = after(s, evs, k - 1);
        let e = evs[k - 1];
        lemma_score_tracks_accepted(s, evs, k - 1);
        lemma_after_step(s, evs, k - 1);
        lemma_reduce_preserves_wf(st, e);
        lemma_accepted_ids_step(s, evs, k - 1);
        let next = reduce(st, e);
        if e is Accepted && accepts_case(st, e, e.spec_case_id().unwrap()) {
            assert(credited_cases(next.cases) =~= credited_cases(st.cases).insert(
                e.spec_case_id().unwrap(),
            ));
        } else {
            assert(credited_cases(next.cases) =~= credited_cases(st.cases));
        }
    }
}

/// Starting from a well-formed snapshot with no point scored, the final
/// score is the number of distinct cases for which an accepted verdict was
/// processed; a repeated verdict is counted once.
pub proof fn law_score_counts_accepted(s: SubmissionView, evs: Seq<JudgeState>)
    requires
        s.wf(),
        s.score == 0,
    ensures
        fold_events(s, evs).wf(),
        fold_events(s, evs).score == accepted_ids(s, evs).len(),
{
    lemma_score_tracks_accepted(s, evs, evs.len() as int);
    lemma_after_whole(s, evs);
    assert(evs.take(evs.len() as int) =~= evs);
}

} // verus!
