//! Task identity and the per-task record the scheduler operates on.

use vstd::prelude::*;
use crate::executor::Executor;
use crate::task_local::LocalsMap;

verus! {

/// Identifier of one task, unique for the lifetime of its runtime and never
/// reused. Identifiers are issued in strictly increasing order, so they are
/// comparable: a task spawned later has a larger id.
#[derive(Clone, Copy, Debug, PartialEq, Eq, Structural, Hash)]
pub struct TaskId {
    /// The numeric identity; the first task of a runtime gets `1`.
    pub n: usize,
}

/// The lifecycle of a task inside the executor.
///
/// A task starts `Ready`, is driven forward one suspension step at a time
/// (`Running` is the transient state during such a step; the driving step is
/// atomic, so a task is never observed `Running` at rest), and ends in one
/// of the terminal states. `Completed` and `Failed` are final: the result or
/// failure is recorded and never changes afterwards.
#[derive(Clone, Copy, Debug, PartialEq, Eq, Structural)]
pub enum TaskState {
    /// Waiting to be driven forward; held until its readiness condition
    /// (wake time reached, awaited task finished) lets a step run it.
    Ready,
    /// Being driven forward right now.
    Running,
    /// Finished normally; the produced value is stored in the result slot.
    Completed,
    /// Hit an unrecoverable failure; fatal to the whole run.
    Failed,
}

impl TaskState {
    /// Whether the task has finished, normally or by failure.
    pub open spec fn is_terminal(self) -> bool {
        self is Completed || self is Failed
    }
}

/// A non-owning reference to a task, handed out for introspection.
///
/// Holding a `TaskRef` never keeps the task alive: resolving it against a
/// runtime may fail once the task no longer exists, and consumers must treat
/// that as "task gone", not as an error to propagate.
#[derive(Clone, Copy, Debug, PartialEq, Eq, Structural, Hash)]
pub struct TaskRef {
    /// The identity this reference resolves through.
    pub id: TaskId,
}

impl TaskRef {
    /// The identity of the referenced task.
    pub fn id(&self) -> (r: TaskId)
        ensures
            r == self.id,
    {
        self.id
    }

    /// The configured name of the referenced task, looked up in the given
    /// runtime. `None` when no name was configured — or when the
    /// reference no longer resolves there: the task is gone, which is an
    /// expected answer, not a failure.
    pub fn name<'a>(&self, ex: &'a Executor) -> (r: Option<&'a String>)
        ensures
            1 <= self.id.n <= ex.tasks@.len() ==> (match r {
                Some(s) => ex.tasks@[self.id.n - 1].name == Some(*s),
                None => ex.tasks@[self.id.n - 1].name is None,
            }),
            !(1 <= self.id.n <= ex.tasks@.len()) ==> r is None,
    {
        ex.name_of(*self)
    }
}

/// One task as the executor sees it: identity, optional name, the resumable
/// state of its computation (program, resume point, accumulator), its
/// scheduling bookkeeping, its private local storage, and its completion
/// slot.
pub struct Task {
    /// Unique identity, issued at spawn time.
    pub id: TaskId,
    /// Optional name configured by the spawning builder.
    pub name: Option<String>,
    /// Optional stack-size hint configured by the spawning builder; absence
    /// means "use the runtime default". The model scheduler records it but
    /// needs no real stacks.
    pub stack_size: Option<usize>,
    /// Index of the task's program in the executor's program table.
    pub prog: usize,
    /// Resume point: the next instruction of the program to run.
    pub pc: usize,
    /// The computation's working value; a completing task produces it.
    pub acc: u64,
    /// Lifecycle state.
    pub state: TaskState,
    /// The task is not runnable before the logical clock reaches this time.
    pub wake_at: u64,
    /// When suspended on a join, the task being awaited.
    pub waiting_on: Option<TaskId>,
    /// Join handles the task retained for the tasks it spawned, oldest first.
    pub handles: Vec<TaskId>,
    /// The task's own private storage; torn down when the task terminates.
    pub locals: LocalsMap,
    /// The completion slot: the produced value, written exactly once, when
    /// the task completes and after its local storage is torn down.
    pub result: Option<u64>,
}

} // verus!
