//! The decisions of the hover preview manager: which preview task a hover starts,
//! which earlier task it supersedes, and when the slot of the running task is freed.
//! The tasks themselves (debounce timer, parser call, output) are run by the caller.
use vstd::prelude::*;

verus! {

/// The task slot of the manager: the task currently running, if any, and the
/// number the next task gets.
#[derive(Clone, Copy, Debug, PartialEq, Eq, Structural)]
pub struct HoverState {
    pub active: Option<u64>,
    pub next_id: u64,
}

/// What a hover asks the caller to do: abort the superseded task, if any, and
/// start a task with the given number.
#[derive(Clone, Copy, Debug, PartialEq, Eq, Structural)]
pub struct HoverStart {
    pub abort: Option<u64>,
    pub task_id: u64,
}

/// The state after a hover, and what it asks for.
pub open spec fn hover_next(s: HoverState) -> (HoverState, HoverStart) {
    (
        HoverState { active: Some(s.next_id), next_id: (s.next_id + 1) as u64 },
        HoverStart { abort: s.active, task_id: s.next_id },
    )
}

/// The state after the pointer leaves, and the task to abort.
pub open spec fn hover_off_next(s: HoverState) -> (HoverState, Option<u64>) {
    (HoverState { active: None, next_id: s.next_id }, s.active)
}

/// The state after task `id` has completed: the slot is freed only if `id` is
/// still the running task.
pub open spec fn finished_next(s: HoverState, id: u64) -> HoverState {
    if s.active == Some(id) {
        HoverState { active: None, next_id: s.next_id }
    } else {
        s
    }
}

impl HoverState {
    /// A manager with no task and none started yet.
    pub fn new() -> (s: Self)
        ensures
            s.active is None,
            s.next_id == 0,
    {
        HoverState { active: None, next_id: 0 }
    }

    /// A hover: supersedes the running task and starts the next one.
    pub fn hover(&mut self) -> (a: HoverStart)
        requires
            old(self).next_id < u64::MAX,
        ensures
            (*final(self), a) == hover_next(*old(self)),
    {
        let a = HoverStart { abort: self.active, task_id: self.next_id };
        self.active = Some(self.next_id);
        self.next_id = self.next_id + 1;
        a
    }

    /// The pointer leaves: the running task, if any, is to be aborted.
    pub fn hover_off(&mut self) -> (abort: Option<u64>)
        ensures
            (*final(self), abort) == hover_off_next(*old(self)),
    {
        let abort = self.active;
        self.active = None;
        abort
    }

    /// Task `id` has completed.
    pub fn task_finished(&mut self, id: u64)
        ensures
            *final(self) == finished_next(*old(self), id),
    {
        match self.active {
            Some(cur) => {
                if cur == id {
                    self.active = None;
                }
            },
            None => {},
        }
    }
}

/// Every task in the slot was started before: its number is below the next one.
pub open spec fn hover_inv(s: HoverState) -> bool {
    s.active matches Some(id) ==> id < s.next_id
}

/// Hovers, hover-offs and completions keep the slot consistent, and task numbers
/// never go back, so no number is handed out twice.
pub proof fn lemma_hover_inv(s: HoverState, id: u64)
    requires
        hover_inv(s),
    ensures
        s.next_id < u64::MAX ==> hover_inv(hover_next(s).0) && hover_next(s).0.next_id
            > s.next_id,
        hover_inv(hover_off_next(s).0) && hover_off_next(s).0.next_id == s.next_id,
        hover_inv(finished_next(s, id)) && finished_next(s, id).next_id == s.next_id,
{
}

/// A hover supersedes the task of the hover before it: the second hover aborts
/// the first task, and when the first task completes afterwards it leaves the
/// second one running.
pub proof fn lemma_superseded_task(s: HoverState)
    requires
        s.next_id < u64::MAX - 1,
    ensures
        ({
            let (s1, first) = hover_next(s);
            let (s2, second) = hover_next(s1);
            &&& second.abort == Some(first.task_id)
            &&& second.task_id != first.task_id
            &&& finished_next(s2, first.task_id).active == Some(second.task_id)
        }),
{
}

/// After the pointer leaves nothing is running, and a completion changes nothing.
pub proof fn lemma_off_then_finished(s: HoverState, id: u64)
    ensures
        hover_off_next(s).0.active is None,
        finished_next(hover_off_next(s).0, id) == hover_off_next(s).0,
{
}

/// A hover aborts exactly the task that was running and makes its own task the
/// running one; when that task completes, nothing is running; a completion of any
/// task that is not running changes nothing; numbers are handed out in turn.
pub proof fn lemma_hover_task_lifecycle(s: HoverState, other: u64)
    requires
        s.next_id < u64::MAX,
    ensures
        ({
            let (s1, start) = hover_next(s);
            &&& start.abort == s.active
            &&& start.task_id == s.next_id
            &&& s1.next_id == s.next_id + 1
            &&& s1.active == Some(start.task_id)
            &&& finished_next(s1, start.task_id).active is None
            &&& finished_next(s1, start.task_id).next_id == s1.next_id
            &&& (other != start.task_id ==> finished_next(s1, other) == s1)
        }),
        s.active != Some(other) ==> finished_next(s, other) == s,
{
}

} // verus!
