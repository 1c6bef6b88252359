//! The states of a task.
use vstd::prelude::*;

verus! {

#[derive(Debug, Clone, Copy, PartialEq, Eq, Structural)]
pub enum TaskStatus {
    Dispatchable,
    Blocked,
    Running,
    Terminal,
}

#[derive(Debug, Clone, Copy, PartialEq, Eq, Structural)]
pub enum TaskExitReason {
    Completed,
    Failed,
    Cancelled,
    Timeout,
}

/// The transitions a task can make: between its open states, except from blocked
/// straight to running, and from each of them to its end.
pub open spec fn task_transition(from: TaskStatus, to: TaskStatus) -> bool {
    &&& from != TaskStatus::Terminal
    &&& from != to
    &&& !(from == TaskStatus::Blocked && to == TaskStatus::Running)
}

impl TaskStatus {
    pub fn is_terminal(self) -> (b: bool)
        ensures
            b == (self == TaskStatus::Terminal),
    {
        self == TaskStatus::Terminal
    }

    pub fn can_transition_to(self, to: Self) -> (b: bool)
        ensures
            b == task_transition(self, to),
    {
        matches!(
            (self, to),
            (TaskStatus::Blocked, TaskStatus::Dispatchable | TaskStatus::Terminal)
                | (
                    TaskStatus::Dispatchable,
                    TaskStatus::Running | TaskStatus::Blocked | TaskStatus::Terminal
                )
                | (
                    TaskStatus::Running,
                    TaskStatus::Terminal | TaskStatus::Dispatchable | TaskStatus::Blocked
                )
        )
    }
}

/// A task that has ended makes no further transition, and any other can end.
pub proof fn law_tasks_end_once(from: TaskStatus, to: TaskStatus)
    ensures
        !task_transition(TaskStatus::Terminal, to),
        from != TaskStatus::Terminal ==> task_transition(from, TaskStatus::Terminal),
{
}

/// The transitions of a task, all of them.
pub proof fn law_how_tasks_change(from: TaskStatus, to: TaskStatus)
    ensures
        task_transition(from, to) <==> (from == TaskStatus::Blocked && to
            == TaskStatus::Dispatchable) || (from == TaskStatus::Blocked && to
            == TaskStatus::Terminal) || (from == TaskStatus::Dispatchable && to
            == TaskStatus::Running) || (from == TaskStatus::Dispatchable && to
            == TaskStatus::Blocked) || (from == TaskStatus::Dispatchable && to
            == TaskStatus::Terminal) || (from == TaskStatus::Running && to
            == TaskStatus::Terminal) || (from == TaskStatus::Running && to
            == TaskStatus::Dispatchable) || (from == TaskStatus::Running && to
            == TaskStatus::Blocked),
{
}

} // verus!
