//! Decisions of the event hub. The hub owns the subscriber registry; for
//! each judge event it folds the stored snapshot, and once the new snapshot
//! is durably stored it decides who receives it.
use crate::model::Submission;
use crate::reducer::{reduce, JudgeState};
use crate::registry::{active_indices, active_sinks, closed, slots_of, Registry};
use vstd::prelude::*;

verus! {

/// Folds `event` into the snapshot read from the store. A snapshot that is
/// missing (the event raced the enqueue write) drops the event.
pub fn fold_stored(stored: Option<Submission>, event: JudgeState) -> (r: Option<Submission>)
    ensures
        match stored {
            None => r is None,
            Some(s) => (r matches Some(n) && n@ == reduce(s@, event)),
        },
{
    match stored {
        None => None,
        Some(mut s) => {
            s.apply_event(event);
            Some(s)
        },
    }
}

/// Who receives a new snapshot.
pub enum Dispatch<S> {
    /// The snapshot was not stored: nobody sees it.
    Skip,
    /// Send to the sinks of these active slots, which stay subscribed.
    Slots(Vec<usize>),
    /// The snapshot is final: send it to each of these sinks, then drop them.
    Last(Vec<S>),
}

/// The hub's own state: the live subscribers of every submission.
pub struct JudgeService<S> {
    pub judge_addrs: Registry<S>,
}

impl<S> JudgeService<S> {
    pub fn new() -> (r: JudgeService<S>)
        ensures
            r.judge_addrs@ == Map::<u128, Seq<Option<S>>>::empty(),
    {
        JudgeService { judge_addrs: Registry::new() }
    }

    /// Decides the delivery of snapshot `next` of submission `id`, where
    /// `persisted` tells whether the store accepted it. A final snapshot
    /// closes every slot of `id` and hands out the live sinks.
    pub fn dispatch(&mut self, id: u128, persisted: bool, next: &Submission) -> (r: Dispatch<S>)
        ensures
            !persisted ==> r is Skip && final(self).judge_addrs@ == old(self).judge_addrs@,
            persisted && !next@.submission_state.is_terminal() ==> (r matches Dispatch::Slots(ks)
                && ks@ == active_indices(slots_of(old(self).judge_addrs@, id))
                && final(self).judge_addrs@ == old(self).judge_addrs@),
            persisted && next@.submission_state.is_terminal() ==> (r matches Dispatch::Last(sinks)
                && sinks@ == active_sinks(slots_of(old(self).judge_addrs@, id))
                && final(self).judge_addrs@ == closed(old(self).judge_addrs@, id)),
    {
        if !persisted {
            Dispatch::Skip
        } else if next.submission_state.is_terminal() {
            Dispatch::Last(self.judge_addrs.close(id))
        } else {
            Dispatch::Slots(self.judge_addrs.active_slots(id))
        }
    }
}

} // verus!
