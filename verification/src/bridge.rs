//! The synchronous bridge and the spawn shorthand.

use vstd::prelude::*;
use crate::builder::Builder;
use crate::executor::{BlockError, Executor, block_rel, fresh_task};
use crate::instr::{Instr, prog_wf, prog_sync, eval_sync};
use crate::join_handle::JoinHandle;
use crate::task::TaskRef;
use crate::task_local::AccessError;

verus! {

/// Spawns a task with the default configuration: shorthand for
/// `Builder::new().spawn(..)`. The spawned task is detached from its
/// spawner unless the returned handle is kept.
pub fn spawn(ex: &mut Executor, prog: usize) -> (r: Result<JoinHandle, AccessError>)
    requires
        old(ex).wf(),
    ensures
        final(ex).wf(),
        final(ex).programs@ == old(ex).programs@,
        final(ex).clock == old(ex).clock,
        r is Ok <==> (prog < old(ex).programs@.len() && old(ex).tasks@.len() < usize::MAX - 1),
        r matches Err(_) ==> final(ex).tasks@ == old(ex).tasks@,
        r matches Ok(h) ==> {
            &&& h.spec_task().id.n == old(ex).tasks@.len() + 1
            &&& final(ex).tasks@.len() == old(ex).tasks@.len() + 1
            &&& final(ex).tasks@.subrange(0, old(ex).tasks@.len() as int) == old(ex).tasks@
            &&& fresh_task(
                final(ex).tasks@[old(ex).tasks@.len() as int],
                h.spec_task().id.n as int,
                None,
                None,
                prog,
            )
        },
{
    Builder::new().spawn(ex, prog)
}

/// Offloads genuinely blocking synchronous work off the cooperative
/// schedule, so it cannot starve cooperative tasks, and returns a handle
/// that resolves once the work has finished — with exactly the value the
/// work produced, or, when the work failed, as a task failure that is
/// fatal to the next run.
pub fn spawn_blocking(ex: &mut Executor, work: Vec<Instr>) -> (r: Result<JoinHandle, AccessError>)
    requires
        old(ex).wf(),
    ensures
        final(ex).wf(),
        final(ex).clock == old(ex).clock,
        final(ex).tasks@.subrange(0, old(ex).tasks@.len() as int) == old(ex).tasks@,
        r is Ok <==> (prog_sync(work@) && old(ex).tasks@.len() < usize::MAX - 1),
        r matches Err(_) ==> final(ex).tasks@ == old(ex).tasks@ && final(ex).programs@ == old(
            ex,
        ).programs@,
        r is Ok ==> final(ex).programs@ == old(ex).programs@.push(work),
        r matches Ok(h) ==> {
            &&& h.spec_task().id.n == old(ex).tasks@.len() + 1
            &&& final(ex).tasks@.len() == old(ex).tasks@.len() + 1
            &&& ({
                let t = final(ex).tasks@[old(ex).tasks@.len() as int];
                &&& t.state.is_terminal()
                &&& (eval_sync(work@, 0, 0) matches Some(v) ==> t.state is Completed && t.result
                    == Some(v))
                &&& (eval_sync(work@, 0, 0) is None ==> t.state is Failed)
            })
        },
{
    match ex.spawn_blocking(work) {
        Ok(id) => Ok(JoinHandle::attach(TaskRef { id })),
        Err(e) => Err(e),
    }
}

/// Drives one computation to completion from synchronous code: constructs
/// a minimal runtime over the given program table, spawns the program at
/// index `root` as the root task, and blocks the calling thread until the
/// root and every task it transitively spawned have completed, returning
/// the root's produced value. The exact completion guarantees are those
/// of [`Executor::block_on`]; a failure anywhere is reported, never
/// absorbed.
pub fn block_on(programs: Vec<Vec<Instr>>, root: usize, fuel: u64) -> (r: Result<u64, BlockError>)
    ensures
        r == Err::<u64, BlockError>(BlockError::BadProgram) <==> !((forall|p: int|
            0 <= p < programs@.len() ==> prog_wf(#[trigger] programs@[p]@, programs@.len() as nat))
            && root < programs@.len()),
        ((forall|p: int|
            0 <= p < programs@.len() ==> prog_wf(#[trigger] programs@[p]@, programs@.len() as nat))
            && root < programs@.len()) ==> exists|pre: Executor, post: Executor|
            #![trigger block_rel(pre, post, root, fuel, r)]
            {
                &&& pre.wf()
                &&& pre.programs@ == programs@
                &&& pre.tasks@.len() == 0
                &&& pre.clock == 0
                &&& block_rel(pre, post, root, fuel, r)
            },
{
    match Executor::new(programs) {
        Err(_) => Err(BlockError::BadProgram),
        Ok(mut ex) => {
            let ghost pre0 = ex;
            let res = ex.block_on(root, fuel);
            proof {
                if root < pre0.programs@.len() {
                    assert(block_rel(pre0, ex, root, fuel, res));
                }
            }
            res
        },
    }
}

/// The task the calling execution context belongs to; fails when called
/// from outside any task, which — the runtime driving each task step
/// atomically — is the only place ordinary code runs.
pub fn current(ex: &Executor) -> (r: Result<TaskRef, AccessError>)
    ensures
        r == Err::<TaskRef, AccessError>(AccessError::NoCurrentTask),
{
    ex.current()
}

} // verus!
