//! Configuration of a task before it is spawned.

use vstd::prelude::*;
use crate::executor::{Executor, fresh_task};
use crate::join_handle::JoinHandle;
use crate::task::TaskRef;
use crate::task_local::AccessError;

verus! {

/// Pure configuration for one spawn: an optional name and an optional
/// stack-size hint. A builder is consumed exactly once, by
/// [`Builder::spawn`], the only operation that turns it into a live task.
pub struct Builder {
    /// The name the spawned task will carry.
    pub name: Option<String>,
    /// A stack-size hint the executor may use when provisioning the task's
    /// execution context; absence means the runtime default.
    pub stack_size: Option<usize>,
}

impl Builder {
    /// The default configuration: no name, no stack-size hint. A pure
    /// constructor with no side effects.
    pub fn new() -> (b: Builder)
        ensures
            b.name is None,
            b.stack_size is None,
    {
        Builder { name: None, stack_size: None }
    }

    /// This configuration with the given name set; nothing shared is
    /// mutated, the reconfigured builder is returned.
    pub fn name(self, name: String) -> (b: Builder)
        ensures
            b.name == Some(name),
            b.stack_size == self.stack_size,
    {
        Builder { name: Some(name), stack_size: self.stack_size }
    }

    /// This configuration with the given stack-size hint recorded.
    pub fn stack_size(self, bytes: usize) -> (b: Builder)
        ensures
            b.stack_size == Some(bytes),
            b.name == self.name,
    {
        Builder { name: self.name, stack_size: Some(bytes) }
    }

    /// Spawns a task for the program at table index `prog`: a fresh
    /// identity is assigned, the configured name attached, empty local
    /// storage created, and the task registered with the executor as
    /// ready; the returned handle is bound to the task's eventual result.
    /// Fails — creating no task and consuming no identity — exactly when
    /// the executor cannot provision the task.
    pub fn spawn(self, ex: &mut Executor, prog: usize) -> (r: Result<JoinHandle, AccessError>)
        requires
            old(ex).wf(),
        ensures
            final(ex).wf(),
            final(ex).programs@ == old(ex).programs@,
            final(ex).clock == old(ex).clock,
            r is Ok <==> (prog < old(ex).programs@.len() && old(ex).tasks@.len() < usize::MAX - 1),
            r matches Err(_) ==> final(ex).tasks@ == old(ex).tasks@,
            r matches Ok(h) ==> {
                &&& h.spec_task().id.n == old(ex).tasks@.len() + 1
                &&& final(ex).tasks@.len() == old(ex).tasks@.len() + 1
                &&& final(ex).tasks@.subrange(0, old(ex).tasks@.len() as int) == old(ex).tasks@
                &&& fresh_task(
                    final(ex).tasks@[old(ex).tasks@.len() as int],
                    h.spec_task().id.n as int,
                    self.name,
                    self.stack_size,
                    prog,
                )
            },
    {
        match ex.provision(self.name, self.stack_size, prog) {
            Ok(id) => Ok(JoinHandle::attach(TaskRef { id })),
            Err(e) => Err(e),
        }
    }
}

} // verus!
