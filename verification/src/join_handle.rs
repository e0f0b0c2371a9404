//! A handle to the eventual result of one spawned task.

use vstd::prelude::*;
use crate::executor::{Executor, RunResult, run_rel};
use crate::poll::Poll;
use crate::task::{TaskRef, TaskState};

verus! {

/// An asynchronous computation that resolves, exactly once, to the value
/// produced by the task it is bound to, once that task completes.
///
/// The handle is non-owning. Discarding it before resolution detaches the
/// task: the task keeps running to completion regardless, and its eventual
/// value is discarded. A failure of the task is never surfaced through the
/// handle; it is fatal to the whole run and reported by the runtime
/// itself.
#[derive(Debug)]
pub struct JoinHandle {
    tref: TaskRef,
}

impl JoinHandle {
    /// The task reference this handle resolves through.
    pub closed spec fn spec_task(self) -> TaskRef {
        self.tref
    }

    /// Binds a handle to a task reference.
    pub(crate) fn attach(tref: TaskRef) -> (h: JoinHandle)
        ensures
            h.spec_task() == tref,
    {
        JoinHandle { tref }
    }

    /// The non-owning task reference, for introspection (identity, name)
    /// without any effect on scheduling or on the task's lifetime.
    pub fn task(&self) -> (r: TaskRef)
        ensures
            r == self.spec_task(),
    {
        self.tref
    }

    /// One pull on the handle. It is ready, carrying exactly the task's
    /// produced value, precisely when the referenced task has completed;
    /// pending otherwise. By then the task's local storage has been torn
    /// down: completion is published only after teardown.
    pub fn poll(&self, ex: &Executor) -> (r: Poll<u64>)
        requires
            ex.wf(),
        ensures
            r matches Poll::Ready(v) ==> 1 <= self.spec_task().id.n <= ex.tasks@.len()
                && ex.tasks@[self.spec_task().id.n - 1].state is Completed
                && ex.tasks@[self.spec_task().id.n - 1].result == Some(v),
            (1 <= self.spec_task().id.n <= ex.tasks@.len() && ex.tasks@[self.spec_task().id.n
                - 1].state is Completed) ==> (ex.tasks@[self.spec_task().id.n - 1].result matches
                Some(v) && r == Poll::<u64>::Ready(v)),
            r is Ready ==> ex.tasks@[self.spec_task().id.n - 1].locals@ == Map::<u64, u64>::empty(),
    {
        let idn = self.tref.id.n;
        if idn >= 1 && idn <= ex.tasks.len() {
            proof {
                assert(ex.task_wf(idn - 1));
            }
            let st = ex.tasks[idn - 1].state;
            match st {
                TaskState::Completed => {
                    let res = ex.tasks[idn - 1].result;
                    match res {
                        Some(v) => Poll::Ready(v),
                        None => {
                            proof {
                                assert(false);
                            }
                            Poll::Pending
                        },
                    }
                },
                _ => Poll::Pending,
            }
        } else {
            Poll::Pending
        }
    }

    /// Awaits the handle: drives the runtime — one full run under the
    /// given step budget, following [`run_rel`] — and resolves to exactly
    /// the value the referenced task produced. It fails to resolve
    /// precisely when that task has not completed by the end of the run
    /// (it failed, the budget ran out first, or the reference resolves to
    /// no task of this runtime); the driven run's outcome is then
    /// reported.
    pub fn join(self, ex: &mut Executor, fuel: u64) -> (r: Result<u64, RunResult>)
        requires
            old(ex).wf(),
        ensures
            final(ex).wf(),
            final(ex).programs@ == old(ex).programs@,
            final(ex).clock >= old(ex).clock,
            r matches Ok(v) ==> (1 <= self.spec_task().id.n <= final(ex).tasks@.len()
                && final(ex).tasks@[self.spec_task().id.n - 1].state is Completed
                && final(ex).tasks@[self.spec_task().id.n - 1].result == Some(v)),
            exists|rr: RunResult|
                #[trigger] run_rel(*old(ex), *final(ex), rr, fuel) && ({
                    let idn = self.spec_task().id.n;
                    if 1 <= idn <= final(ex).tasks@.len() && final(ex).tasks@[idn - 1].state
                        is Completed {
                        final(ex).tasks@[idn - 1].result matches Some(v) && r == Ok::<
                            u64,
                            RunResult,
                        >(v)
                    } else {
                        r == Err::<u64, RunResult>(rr)
                    }
                }),
    {
        let rr = ex.run(fuel);
        match self.poll(ex) {
            Poll::Ready(v) => Ok(v),
            Poll::Pending => Err(rr),
        }
    }
}

} // verus!
