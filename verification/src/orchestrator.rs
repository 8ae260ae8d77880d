use vstd::pervasive::unreached;
use vstd::prelude::*;

verus! {

/// The lifecycle of one task: created pending, marked running when it is
/// dispatched, done once its result is in. There are no retries at this
/// layer, and a terminal state is never left.
pub enum TaskState<T, E> {
    Pending,
    Running,
    Done(Result<T, E>),
}

/// Tracks N independent operations. Every task owns the slot it was created
/// with, so completion order never reorders the outcome list and one task's
/// failure touches no other slot.
pub struct Orchestrator<T, E> {
    slots: Vec<TaskState<T, E>>,
}

impl<T, E> Orchestrator<T, E> {
    /// The slots, by creation order.
    pub closed spec fn slots(&self) -> Seq<TaskState<T, E>> {
        self.slots@
    }

    /// Creates `n` tasks, all pending.
    pub fn new(n: usize) -> (r: Self)
        ensures
            r.slots().len() == n,
            forall|i: int| 0 <= i < n ==> #[trigger] r.slots()[i] is Pending,
    {
        let mut slots: Vec<TaskState<T, E>> = Vec::new();
        let mut i: usize = 0;
        while i < n
            invariant
                i <= n,
                slots@.len() == i,
                forall|j: int| 0 <= j < i ==> #[trigger] slots@[j] is Pending,
            decreases n - i,
        {
            slots.push(TaskState::Pending);
            i = i + 1;
        }
        Orchestrator { slots }
    }

    /// Marks one pending task as dispatched. No other slot changes.
    pub fn start(&mut self, i: usize)
        requires
            i < old(self).slots().len(),
            old(self).slots()[i as int] is Pending,
        ensures
            final(self).slots() == old(self).slots().update(i as int, TaskState::Running),
    {
        self.slots[i] = TaskState::Running;
    }

    /// Records one running task's terminal result. No other slot changes,
    /// so a failure here never cancels or blocks the other tasks.
    pub fn finish(&mut self, i: usize, outcome: Result<T, E>)
        requires
            i < old(self).slots().len(),
            old(self).slots()[i as int] is Running,
        ensures
            final(self).slots() == old(self).slots().update(
                i as int,
                TaskState::Done(outcome),
            ),
    {
        self.slots[i] = TaskState::Done(outcome);
    }

    /// Whether every task has reached a terminal state.
    pub fn all_done(&self) -> (r: bool)
        ensures
            r <==> forall|i: int| 0 <= i < self.slots().len() ==> #[trigger] self.slots()[i]
                is Done,
    {
        let n = self.slots.len();
        let mut i: usize = 0;
        while i < n
            invariant
                n == self.slots@.len(),
                i <= n,
                forall|j: int| 0 <= j < i ==> #[trigger] self.slots@[j] is Done,
            decreases n - i,
        {
            match &self.slots[i] {
                TaskState::Done(_) => {
                    i = i + 1;
                },
                _ => {
                    return false;
                },
            }
        }
        true
    }

    /// Hands the results out in creation order, one per task, whatever
    /// order the tasks finished in.
    pub fn into_results(self) -> (r: Vec<Result<T, E>>)
        requires
            forall|i: int| 0 <= i < self.slots().len() ==> #[trigger] self.slots()[i] is Done,
        ensures
            r@.len() == self.slots().len(),
            forall|i: int| 0 <= i < r@.len() ==> self.slots()[i] == TaskState::Done(
                #[trigger] r@[i],
            ),
    {
        let ghost all = self.slots@;
        let mut slots = self.slots;
        let mut out: Vec<Result<T, E>> = Vec::new();
        while slots.len() > 0
            invariant
                out@.len() + slots@.len() == all.len(),
                forall|j: int| 0 <= j < slots@.len() ==> #[trigger] slots@[j] == all[out@.len()
                    + j],
                forall|i: int| 0 <= i < all.len() ==> #[trigger] all[i] is Done,
                forall|i: int| 0 <= i < out@.len() ==> all[i] == TaskState::Done(
                    #[trigger] out@[i],
                ),
            decreases slots@.len(),
        {
            let s = slots.remove(0);
            match s {
                TaskState::Done(outcome) => {
                    out.push(outcome);
                },
                _ => {
                    proof {
                        assert(all[out@.len() as int] is Done);
                    }
                    unreached()
                },
            }
        }
        out
    }
}

/// Law: result reporting is order-preserving regardless of completion
/// order — finishing two different tasks in either order leaves the same
/// slots, so the list `into_results` hands out depends only on each task's
/// own outcome, never on timing.
pub proof fn lemma_finish_commutes<T, E>(
    slots: Seq<TaskState<T, E>>,
    i: int,
    j: int,
    ri: Result<T, E>,
    rj: Result<T, E>,
)
    requires
        0 <= i < slots.len(),
        0 <= j < slots.len(),
        i != j,
    ensures
        slots.update(i, TaskState::Done(ri)).update(j, TaskState::Done(rj)) == slots.update(
            j,
            TaskState::Done(rj),
        ).update(i, TaskState::Done(ri)),
{
    assert(slots.update(i, TaskState::Done(ri)).update(j, TaskState::Done(rj)) =~= slots.update(
        j,
        TaskState::Done(rj),
    ).update(i, TaskState::Done(ri)));
}

} // verus!
