//! The executor: a cooperative scheduling loop over a table of tasks.
//!
//! Tasks are cooperatively scheduled, stack-free units. The executor holds
//! the program table, the task table and a logical clock. One driving loop
//! ([`Executor::run`]) repeatedly picks a runnable task and drives it one
//! suspension step forward ([`Executor::step`]); a task that suspends
//! (yield, sleep, join) returns to `Ready` and is held until its readiness
//! condition lets it run again — a task with no progress to make is never
//! stepped. When no task is runnable the loop advances the clock to the
//! next wake time. `Completed` and `Failed` are terminal: the produced
//! value or the failure is recorded, the task's local storage is torn down
//! first, and the completion slot is published only afterwards.
//!
//! No ordering is promised between unrelated tasks beyond eventually
//! running every ready task; the loop here scans in table order, which is
//! starvation-free because every task it passes over is either terminal or
//! not ready to proceed.
//!
//! A failed task is fatal to the whole run: [`Executor::run`] reports it
//! and never reports success while any task has failed, whether or not a
//! join handle for the failed task was retained anywhere.

use vstd::prelude::*;
use crate::instr::{Instr, instr_wf, prog_wf, instr_sync, prog_sync, eval_sync, spec_sat_add, sat_add, lemma_prog_wf_widen};
use crate::task::{Task, TaskId, TaskRef, TaskState};
use crate::task_local::{AccessError, LocalsMap};

verus! {

/// The outcome of one driving run of the executor.
#[derive(Clone, Copy, Debug, PartialEq, Eq, Structural)]
pub enum RunResult {
    /// Every task ran to completion; none failed.
    Done,
    /// The task with this identity failed; the failure is fatal to the
    /// whole run and is never absorbed.
    Fatal(TaskId),
    /// The step budget ran out before every task finished.
    OutOfFuel,
}

/// Why a synchronous bridge call did not produce a value.
#[derive(Clone, Copy, Debug, PartialEq, Eq, Structural)]
pub enum BlockError {
    /// The root program (or the table) references a program that does not
    /// exist.
    BadProgram,
    /// No further task could be provisioned.
    Exhausted,
    /// The task with this identity failed; fatal to the whole run.
    Fatal(TaskId),
    /// The step budget ran out before every task finished.
    OutOfFuel,
}

/// A freshly provisioned task record: configured identity and program,
/// resume point at the start, empty local storage, no completion yet.
pub open spec fn fresh_task(
    t: Task,
    id_n: int,
    name: Option<String>,
    stack_size: Option<usize>,
    prog: usize,
) -> bool {
    &&& t.id.n == id_n
    &&& t.name == name
    &&& t.stack_size == stack_size
    &&& t.prog == prog
    &&& t.pc == 0
    &&& t.acc == 0
    &&& t.state is Ready
    &&& t.wake_at == 0
    &&& t.waiting_on is None
    &&& t.handles@.len() == 0
    &&& t.locals@ == Map::<u64, u64>::empty()
    &&& t.result is None
}

/// The full effect of one step of the task at index `k`: the operational
/// meaning of each instruction, relating the runtime before the step
/// (`pre`, with the task resuming at `pre.cur_instr(k)`) to the runtime
/// after it (`post`). Together with the frame conditions of
/// [`Executor::step`] this pins the scheduler's behaviour down exactly.
pub open spec fn step_effect(pre: Executor, post: Executor, k: int) -> bool {
    let o = pre.tasks@[k];
    let t = post.tasks@[k];
    match pre.cur_instr(k) {
        Some(Instr::SetAcc(c)) => post.tasks@.len() == pre.tasks@.len() && t.state is Ready
            && t.pc == o.pc + 1 && t.acc == c && t.wake_at == o.wake_at && t.waiting_on
            == o.waiting_on && t.handles@ == o.handles@ && t.locals@ == o.locals@,
        Some(Instr::AddAcc(c)) => post.tasks@.len() == pre.tasks@.len() && t.state is Ready
            && t.pc == o.pc + 1 && t.acc == spec_sat_add(o.acc, c) && t.wake_at == o.wake_at
            && t.waiting_on == o.waiting_on && t.handles@ == o.handles@ && t.locals@ == o.locals@,
        Some(Instr::Yield) => post.tasks@.len() == pre.tasks@.len() && t.state is Ready && t.pc
            == o.pc + 1 && t.acc == o.acc && t.wake_at == o.wake_at && t.waiting_on
            == o.waiting_on && t.handles@ == o.handles@ && t.locals@ == o.locals@,
        Some(Instr::Sleep(d)) => post.tasks@.len() == pre.tasks@.len() && t.state is Ready && t.pc
            == o.pc + 1 && t.acc == o.acc && t.wake_at == spec_sat_add(pre.clock, d)
            && t.waiting_on == o.waiting_on && t.handles@ == o.handles@ && t.locals@ == o.locals@,
        Some(Instr::Spawn(p)) => if pre.tasks@.len() < usize::MAX - 1 {
            &&& post.tasks@.len() == pre.tasks@.len() + 1
            &&& fresh_task(
                post.tasks@[pre.tasks@.len() as int],
                pre.tasks@.len() as int + 1,
                None,
                None,
                p,
            )
            &&& t.state is Ready
            &&& t.pc == o.pc + 1
            &&& t.acc == o.acc
            &&& t.wake_at == o.wake_at
            &&& t.waiting_on == o.waiting_on
            &&& t.handles@ == o.handles@.push((TaskId { n: (pre.tasks@.len() + 1) as usize }))
            &&& t.locals@ == o.locals@
        } else {
            post.tasks@.len() == pre.tasks@.len() && t.state is Failed && t.result is None
                && t.locals@ == Map::<u64, u64>::empty()
        },
        Some(Instr::SpawnDetached(p)) => if pre.tasks@.len() < usize::MAX - 1 {
            &&& post.tasks@.len() == pre.tasks@.len() + 1
            &&& fresh_task(
                post.tasks@[pre.tasks@.len() as int],
                pre.tasks@.len() as int + 1,
                None,
                None,
                p,
            )
            &&& t.state is Ready
            &&& t.pc == o.pc + 1
            &&& t.acc == o.acc
            &&& t.wake_at == o.wake_at
            &&& t.waiting_on == o.waiting_on
            &&& t.handles@ == o.handles@
            &&& t.locals@ == o.locals@
        } else {
            post.tasks@.len() == pre.tasks@.len() && t.state is Failed && t.result is None
                && t.locals@ == Map::<u64, u64>::empty()
        },
        Some(Instr::DropHandle) => post.tasks@.len() == pre.tasks@.len() && t.state is Ready
            && t.pc == o.pc + 1 && t.acc == o.acc && t.wake_at == o.wake_at && t.waiting_on
            == o.waiting_on && t.locals@ == o.locals@ && (if o.handles@.len() == 0 {
            t.handles@ == o.handles@
        } else {
            t.handles@ == o.handles@.drop_first()
        }),
        Some(Instr::Join) => post.tasks@.len() == pre.tasks@.len() && t.wake_at == o.wake_at && (
        if o.handles@.len() == 0 {
            t.state is Ready && t.pc == o.pc + 1 && t.acc == o.acc && t.handles@ == o.handles@
                && t.waiting_on == o.waiting_on && t.locals@ == o.locals@
        } else {
            let child = pre.tasks@[o.handles@[0].n - 1];
            if child.state is Completed {
                &&& t.state is Ready
                &&& t.pc == o.pc + 1
                &&& (child.result matches Some(v) && t.acc == spec_sat_add(o.acc, v))
                &&& t.handles@ == o.handles@.drop_first()
                &&& t.waiting_on is None
                &&& t.locals@ == o.locals@
            } else if child.state is Failed {
                t.state is Failed && t.result is None && t.locals@ == Map::<u64, u64>::empty()
            } else {
                t.state is Ready && t.pc == o.pc && t.acc == o.acc && t.handles@ == o.handles@
                    && t.waiting_on == Some(o.handles@[0]) && t.locals@ == o.locals@
            }
        }),
        Some(Instr::LocalSet(key, v)) => post.tasks@.len() == pre.tasks@.len() && t.state is Ready
            && t.pc == o.pc + 1 && t.acc == o.acc && t.wake_at == o.wake_at && t.waiting_on
            == o.waiting_on && t.handles@ == o.handles@ && t.locals@ == o.locals@.insert(key, v),
        Some(Instr::LocalGet(key, init)) => post.tasks@.len() == pre.tasks@.len() && t.state
            is Ready && t.pc == o.pc + 1 && t.wake_at == o.wake_at && t.waiting_on == o.waiting_on
            && t.handles@ == o.handles@ && (if o.locals@.contains_key(key) {
            t.acc == o.locals@[key] && t.locals@ == o.locals@
        } else {
            t.acc == init && t.locals@ == o.locals@.insert(key, init)
        }),
        Some(Instr::ReadId) => post.tasks@.len() == pre.tasks@.len() && t.state is Ready && t.pc
            == o.pc + 1 && t.acc == o.id.n as u64 && t.wake_at == o.wake_at && t.waiting_on
            == o.waiting_on && t.handles@ == o.handles@ && t.locals@ == o.locals@,
        Some(Instr::Ret) => post.tasks@.len() == pre.tasks@.len() && t.state is Completed
            && t.result == Some(o.acc) && t.locals@ == Map::<u64, u64>::empty(),
        Some(Instr::Fail) => post.tasks@.len() == pre.tasks@.len() && t.state is Failed && t.result
            is None && t.locals@ == Map::<u64, u64>::empty(),
        None => post.tasks@.len() == pre.tasks@.len() && t.state is Completed && t.result == Some(
            o.acc,
        ) && t.locals@ == Map::<u64, u64>::empty(),
    }
}


/// Whether every task of the runtime has reached a terminal state.
pub open spec fn all_tasks_terminal(ex: Executor) -> bool {
    forall|k: int| 0 <= k < ex.tasks@.len() ==> (#[trigger] ex.tasks@[k].state).is_terminal()
}

/// The index of the first failed task at or after `k`, in table order.
pub open spec fn first_failed_from(ex: Executor, k: int) -> Option<int>
    decreases ex.tasks@.len() - k,
{
    if !(0 <= k < ex.tasks@.len()) {
        None
    } else if ex.tasks@[k].state is Failed {
        Some(k)
    } else {
        first_failed_from(ex, k + 1)
    }
}

/// The index of the first runnable task at or after `k`, in table order.
pub open spec fn first_runnable_from(ex: Executor, k: int) -> Option<int>
    decreases ex.tasks@.len() - k,
{
    if !(0 <= k < ex.tasks@.len()) {
        None
    } else if ex.runnable(k) {
        Some(k)
    } else {
        first_runnable_from(ex, k + 1)
    }
}

/// Whether the task at index `k` is waiting only for the clock: ready, its
/// join (if any) finished, its wake time still ahead.
pub open spec fn wake_candidate(ex: Executor, k: int) -> bool {
    &&& 0 <= k < ex.tasks@.len()
    &&& ex.tasks@[k].state is Ready
    &&& ex.tasks@[k].wake_at > ex.clock
    &&& ex.wait_satisfied(k)
}

/// The index of the first task waiting only for the clock, at or after `k`.
pub open spec fn first_wake_from(ex: Executor, k: int) -> Option<int>
    decreases ex.tasks@.len() - k,
{
    if !(0 <= k < ex.tasks@.len()) {
        None
    } else if wake_candidate(ex, k) {
        Some(k)
    } else {
        first_wake_from(ex, k + 1)
    }
}

/// One full scheduler step of the task at index `k`: the well-formedness,
/// frame and identity guarantees of [`Executor::step`] together with the
/// instruction's effect. This is the whole of what one step does.
pub open spec fn sched_step(pre: Executor, post: Executor, k: int) -> bool {
    &&& post.wf()
    &&& post.programs@ == pre.programs@
    &&& post.clock == pre.clock
    &&& pre.tasks@.len() <= post.tasks@.len()
    &&& (forall|j: int| 0 <= j < pre.tasks@.len() && j != k ==> post.tasks@[j] == pre.tasks@[j])
    &&& post.tasks@[k].id == pre.tasks@[k].id
    &&& post.tasks@[k].name == pre.tasks@[k].name
    &&& post.tasks@[k].stack_size == pre.tasks@[k].stack_size
    &&& post.tasks@[k].prog == pre.tasks@[k].prog
    &&& step_effect(pre, post, k)
}

/// Advancing the clock to the wake time of the task at index `k`, touching
/// nothing else.
pub open spec fn clock_step(pre: Executor, post: Executor, k: int) -> bool {
    &&& post.programs@ == pre.programs@
    &&& post.tasks@ == pre.tasks@
    &&& post.clock == pre.tasks@[k].wake_at
}

/// What `first_wake_from` finds is indeed a task waiting only for the
/// clock.
proof fn lemma_first_wake_is_candidate(ex: Executor, j: int, k: int)
    requires
        first_wake_from(ex, j) == Some(k),
    ensures
        wake_candidate(ex, k),
    decreases ex.tasks@.len() - j,
{
    if 0 <= j < ex.tasks@.len() && !wake_candidate(ex, j) {
        lemma_first_wake_is_candidate(ex, j + 1, k);
    }
}

/// A state on which a driving run halts by itself: some task has failed,
/// or every task has finished.
pub open spec fn halted(ex: Executor) -> bool {
    first_failed_from(ex, 0) is Some || all_tasks_terminal(ex)
}

/// One scheduler round on a state that does not halt: the first runnable
/// task, in table order, is driven one step; with none runnable, the
/// clock advances to the wake time of the first task waiting only for it.
/// Each round is determined by its state (up to the views the contracts
/// speak of), so a run's course is fixed by where it starts.
pub open spec fn round_step(pre: Executor, post: Executor) -> bool {
    match first_runnable_from(pre, 0) {
        Some(k) => sched_step(pre, post, k),
        None => match first_wake_from(pre, 0) {
            Some(k) => clock_step(pre, post, k),
            None => false,
        },
    }
}

/// What the reported outcome says of the run's end state and of the
/// number of rounds taken: the first failed task is reported as fatal and
/// success only with every task completed, each while budget remained;
/// an exhausted budget means exactly `fuel` rounds were driven.
pub open spec fn run_outcome_ok(last: Executor, r: RunResult, rounds: int, fuel: u64) -> bool {
    match r {
        RunResult::Done => rounds < fuel && first_failed_from(last, 0) is None
            && all_tasks_terminal(last),
        RunResult::Fatal(id) => rounds < fuel && (first_failed_from(last, 0) matches Some(f)
            && id == last.tasks@[f].id),
        RunResult::OutOfFuel => rounds == fuel,
    }
}

/// A full run from `pre` to `post` reporting `r` under step budget
/// `fuel`: a chain of states, one scheduler round apart, none halting
/// before its end, whose length and end state justify the outcome.
pub open spec fn run_trace_ok(
    trace: Seq<Executor>,
    pre: Executor,
    post: Executor,
    r: RunResult,
    fuel: u64,
) -> bool {
    &&& trace.len() >= 1
    &&& trace.first() == pre
    &&& trace.last() == post
    &&& (forall|i: int| 0 <= i < trace.len() - 1 ==> #[trigger] round_step(trace[i], trace[i + 1]))
    &&& (forall|i: int| 0 <= i < trace.len() - 1 ==> !(#[trigger] halted(trace[i])))
    &&& run_outcome_ok(post, r, trace.len() - 1, fuel)
}

/// The behaviour of one driving run, relating the runtime before (`pre`)
/// and after (`post`), the reported outcome and the step budget: some
/// chain of scheduler rounds as [`run_trace_ok`] demands leads from `pre`
/// to `post`. [`Executor::run`] is obliged to follow this relation, so a
/// run that drives nothing cannot, say, report an exhausted budget while
/// work and budget remain: every claimed outcome is backed by the rounds
/// that produced it.
pub open spec fn run_rel(pre: Executor, post: Executor, r: RunResult, fuel: u64) -> bool {
    exists|trace: Seq<Executor>| #[trigger] run_trace_ok(trace, pre, post, r, fuel)
}

/// The shape of provisioning one fresh task: the successful case of
/// [`Executor::provision`].
pub open spec fn spawn_step(
    pre: Executor,
    post: Executor,
    name: Option<String>,
    stack_size: Option<usize>,
    prog: usize,
) -> bool {
    &&& post.wf()
    &&& post.programs@ == pre.programs@
    &&& post.clock == pre.clock
    &&& post.tasks@.len() == pre.tasks@.len() + 1
    &&& post.tasks@.subrange(0, pre.tasks@.len() as int) == pre.tasks@
    &&& fresh_task(
        post.tasks@[pre.tasks@.len() as int],
        pre.tasks@.len() as int + 1,
        name,
        stack_size,
        prog,
    )
}

/// The behaviour of the synchronous bridge on a program index that exists:
/// one fresh unnamed task is provisioned for it and a run is driven; the
/// run's outcome decides the result — the provisioned root's stored value
/// on success, the fatal task or the exhausted budget otherwise.
pub open spec fn block_rel(
    pre: Executor,
    post: Executor,
    prog: usize,
    fuel: u64,
    r: Result<u64, BlockError>,
) -> bool {
    exists|mid: Executor, rr: RunResult|
        #![trigger run_rel(mid, post, rr, fuel)]
        {
            &&& spawn_step(pre, mid, None, None, prog)
            &&& run_rel(mid, post, rr, fuel)
            &&& (match rr {
                RunResult::Done => post.tasks@[pre.tasks@.len() as int].result matches Some(v) && r
                    == Ok::<u64, BlockError>(v),
                RunResult::Fatal(id) => r == Err::<u64, BlockError>(BlockError::Fatal(id)),
                RunResult::OutOfFuel => r == Err::<u64, BlockError>(BlockError::OutOfFuel),
            })
        }
}


/// The executor: program table, task table, logical clock.
pub struct Executor {
    /// The table of programs tasks can be spawned from; programs refer to
    /// each other (for spawning) by index into this table.
    pub programs: Vec<Vec<Instr>>,
    /// The task table. A task's identity determines its slot: the task
    /// with id `n` sits at index `n - 1`, so identities are issued in
    /// strictly increasing order and never reused.
    pub tasks: Vec<Task>,
    /// The logical clock, in ticks. It only moves forward, and only when
    /// no task is runnable.
    pub clock: u64,
}

impl Executor {
    /// Well-formedness of the task at index `k`.
    pub open spec fn task_wf(self, k: int) -> bool {
        let t = self.tasks@[k];
        &&& t.id.n == k + 1
        &&& t.prog < self.programs@.len()
        &&& t.pc <= self.programs@[t.prog as int]@.len()
        &&& !(t.state is Running)
        &&& (t.state is Completed <==> t.result is Some)
        &&& (t.state.is_terminal() ==> t.locals@ == Map::<u64, u64>::empty())
        &&& (t.state.is_terminal() ==> t.waiting_on is None)
        &&& (t.waiting_on matches Some(c) ==> k + 1 < c.n <= self.tasks@.len())
        &&& (forall|h: int|
            0 <= h < t.handles@.len() ==> k + 1 < #[trigger] t.handles@[h].n <= self.tasks@.len())
    }

    /// Well-formedness of the whole runtime: every program only references
    /// programs of the table, and every task record is internally
    /// consistent. Every constructor establishes this and every method
    /// preserves it.
    pub open spec fn wf(self) -> bool {
        &&& self.tasks@.len() < usize::MAX
        &&& (forall|p: int|
            0 <= p < self.programs@.len() ==> prog_wf(
                #[trigger] self.programs@[p]@,
                self.programs@.len() as nat,
            ))
        &&& (forall|k: int| 0 <= k < self.tasks@.len() ==> #[trigger] self.task_wf(k))
    }

    /// Whether the task at index `k` is not (or no longer) suspended on a
    /// join: it awaits nothing, or what it awaits has reached a terminal
    /// state.
    pub open spec fn wait_satisfied(self, k: int) -> bool {
        match self.tasks@[k].waiting_on {
            Some(c) => self.tasks@[c.n - 1].state.is_terminal(),
            None => true,
        }
    }

    /// Whether the task at index `k` can be driven forward now: it is
    /// `Ready`, its wake time has been reached, and whatever it awaits is
    /// finished.
    pub open spec fn runnable(self, k: int) -> bool {
        &&& 0 <= k < self.tasks@.len()
        &&& self.tasks@[k].state is Ready
        &&& self.tasks@[k].wake_at <= self.clock
        &&& self.wait_satisfied(k)
    }

    /// The instruction the task at index `k` resumes at, or `None` when it
    /// has run off the end of its program (which completes it).
    pub open spec fn cur_instr(self, k: int) -> Option<Instr> {
        let t = self.tasks@[k];
        if t.pc < self.programs@[t.prog as int]@.len() {
            Some(self.programs@[t.prog as int]@[t.pc as int])
        } else {
            None
        }
    }

    /// A fresh runtime over the given program table. Rejects a table in
    /// which some program references a program index outside the table.
    pub fn new(programs: Vec<Vec<Instr>>) -> (r: Result<Executor, AccessError>)
        ensures
            r is Ok <==> (forall|p: int|
                0 <= p < programs@.len() ==> prog_wf(
                    #[trigger] programs@[p]@,
                    programs@.len() as nat,
                )),
            r matches Ok(ex) ==> ex.wf() && ex.programs@ == programs@ && ex.tasks@.len() == 0
                && ex.clock == 0,
            r matches Err(e) ==> e is BadProgram,
    {
        let n = programs.len();
        let mut p: usize = 0;
        while p < n
            invariant
                p <= n,
                n == programs.len(),
                forall|q: int| 0 <= q < p ==> prog_wf(#[trigger] programs@[q]@, n as nat),
            decreases n - p,
        {
            if !check_prog(&programs[p], n) {
                return Err(AccessError::BadProgram);
            }
            p = p + 1;
        }
        Ok(Executor { programs, tasks: Vec::new(), clock: 0 })
    }

    /// Provisions a fresh task for the program at table index `prog`:
    /// assigns the next identity, attaches the configured name and
    /// stack-size hint, creates empty local storage, and enqueues the task
    /// as `Ready`. Fails — leaving the runtime unchanged, consuming no
    /// identity — exactly when the program does not exist or no further
    /// task can be provisioned.
    pub fn provision(
        &mut self,
        name: Option<String>,
        stack_size: Option<usize>,
        prog: usize,
    ) -> (r: Result<TaskId, AccessError>)
        requires
            old(self).wf(),
        ensures
            final(self).wf(),
            final(self).programs@ == old(self).programs@,
            final(self).clock == old(self).clock,
            r is Ok <==> (prog < old(self).programs@.len() && old(self).tasks@.len() < usize::MAX
                - 1),
            r matches Err(e) ==> final(self).tasks@ == old(self).tasks@ && ((e is BadProgram && prog
                >= old(self).programs@.len()) || (e is Exhausted && prog < old(
                self,
            ).programs@.len())),
            r matches Ok(id) ==> {
                &&& id.n == old(self).tasks@.len() + 1
                &&& final(self).tasks@.len() == old(self).tasks@.len() + 1
                &&& final(self).tasks@.subrange(0, old(self).tasks@.len() as int) == old(self).tasks@
                &&& fresh_task(
                    final(self).tasks@[old(self).tasks@.len() as int],
                    id.n as int,
                    name,
                    stack_size,
                    prog,
                )
            },
    {
        if prog >= self.programs.len() {
            return Err(AccessError::BadProgram);
        }
        if self.tasks.len() >= usize::MAX - 1 {
            return Err(AccessError::Exhausted);
        }
        let id = TaskId { n: self.tasks.len() + 1 };
        let t = Task {
            id,
            name,
            stack_size,
            prog,
            pc: 0,
            acc: 0,
            state: TaskState::Ready,
            wake_at: 0,
            waiting_on: None,
            handles: Vec::new(),
            locals: LocalsMap::new(),
            result: None,
        };
        self.tasks.push(t);
        proof {
            assert(self.tasks@.subrange(0, old(self).tasks@.len() as int) =~= old(self).tasks@);
            assert forall|k: int| 0 <= k < self.tasks@.len() implies self.task_wf(k) by {
                if k < old(self).tasks@.len() {
                    assert(old(self).task_wf(k));
                }
            }
        }
        Ok(id)
    }

    /// Moves the task at index `i` to its terminal state: tears its local
    /// storage down first, then — for normal completion — publishes the
    /// produced value (the accumulator) into the completion slot. The slot
    /// of a failed task stays empty.
    fn finish(&mut self, i: usize, failed: bool)
        requires
            old(self).wf(),
            i < old(self).tasks@.len(),
            old(self).tasks@[i as int].state is Ready,
        ensures
            final(self).wf(),
            final(self).programs@ == old(self).programs@,
            final(self).clock == old(self).clock,
            final(self).tasks@.len() == old(self).tasks@.len(),
            forall|j: int|
                0 <= j < final(self).tasks@.len() && j != i ==> final(self).tasks@[j] == old(self).tasks@[j],
            ({
                let t = final(self).tasks@[i as int];
                let o = old(self).tasks@[i as int];
                &&& t.id == o.id
                &&& t.name == o.name
                &&& t.stack_size == o.stack_size
                &&& t.prog == o.prog
                &&& t.pc == o.pc
                &&& t.acc == o.acc
                &&& t.wake_at == o.wake_at
                &&& t.handles@ == o.handles@
                &&& t.locals@ == Map::<u64, u64>::empty()
                &&& t.waiting_on is None
                &&& (failed ==> t.state is Failed && t.result is None)
                &&& (!failed ==> t.state is Completed && t.result == Some(o.acc))
            }),
    {
        proof {
            assert(old(self).task_wf(i as int));
        }
        self.tasks[i].locals.clear();
        if failed {
            self.tasks[i].state = TaskState::Failed;
        } else {
            let v = self.tasks[i].acc;
            self.tasks[i].result = Some(v);
            self.tasks[i].state = TaskState::Completed;
        }
        self.tasks[i].waiting_on = None;
        proof {
            assert forall|k: int| 0 <= k < self.tasks@.len() implies self.task_wf(k) by {
                assert(old(self).task_wf(k));
            }
        }
    }

    /// Drives the task at index `i` one suspension step forward: runs it
    /// until it completes, fails, or signals suspension. Only a runnable
    /// task is ever stepped.
    ///
    /// The step touches nothing but the stepped task's own record (and, on
    /// a spawn, appends a fresh child): in particular every other task's
    /// local storage is untouched — one task's locals are never visible to
    /// or mutated by a step of another task.
    #[verifier::rlimit(100)]
    pub fn step(&mut self, i: usize)
        requires
            old(self).wf(),
            old(self).runnable(i as int),
        ensures
            final(self).wf(),
            final(self).programs@ == old(self).programs@,
            final(self).clock == old(self).clock,
            old(self).tasks@.len() <= final(self).tasks@.len(),
            forall|j: int|
                0 <= j < old(self).tasks@.len() && j != i ==> final(self).tasks@[j] == old(self).tasks@[j],
            forall|j: int|
                0 <= j < old(self).tasks@.len() && j != i ==> final(self).tasks@[j].locals@ == old(
                    self,
                ).tasks@[j].locals@,
            ({
                let t = final(self).tasks@[i as int];
                let o = old(self).tasks@[i as int];
                t.id == o.id && t.name == o.name && t.stack_size == o.stack_size && t.prog == o.prog
            }),
            step_effect(*old(self), *final(self), i as int),
    {
        let prog_idx = self.tasks[i].prog;
        let pc = self.tasks[i].pc;
        proof {
            assert(old(self).task_wf(i as int));
        }
        let code_len = self.programs[prog_idx].len();
        if pc >= code_len {
            proof {
                assert(old(self).cur_instr(i as int) is None);
            }
            self.finish(i, false);
            return ;
        }
        let ins = self.programs[prog_idx][pc];
        proof {
            assert(old(self).cur_instr(i as int) == Some(ins));
            assert(prog_wf(self.programs@[prog_idx as int]@, self.programs@.len() as nat));
            assert(instr_wf(ins, self.programs@.len() as nat));
        }
        match ins {
            Instr::SetAcc(c) => {
                self.tasks[i].acc = c;
                self.tasks[i].pc = pc + 1;
            },
            Instr::AddAcc(c) => {
                let a = self.tasks[i].acc;
                let s = sat_add(a, c);
                self.tasks[i].acc = s;
                self.tasks[i].pc = pc + 1;
            },
            Instr::Yield => {
                self.tasks[i].pc = pc + 1;
            },
            Instr::Sleep(d) => {
                let w = sat_add(self.clock, d);
                self.tasks[i].wake_at = w;
                self.tasks[i].pc = pc + 1;
            },
            Instr::Spawn(p) => {
                if self.tasks.len() >= usize::MAX - 1 {
                    self.finish(i, true);
                } else {
                    let id = TaskId { n: self.tasks.len() + 1 };
                    let child = Task {
                        id,
                        name: None,
                        stack_size: None,
                        prog: p,
                        pc: 0,
                        acc: 0,
                        state: TaskState::Ready,
                        wake_at: 0,
                        waiting_on: None,
                        handles: Vec::new(),
                        locals: LocalsMap::new(),
                        result: None,
                    };
                    self.tasks.push(child);
                    self.tasks[i].handles.push(id);
                    self.tasks[i].pc = pc + 1;
                }
            },
            Instr::SpawnDetached(p) => {
                if self.tasks.len() >= usize::MAX - 1 {
                    self.finish(i, true);
                } else {
                    let id = TaskId { n: self.tasks.len() + 1 };
                    let child = Task {
                        id,
                        name: None,
                        stack_size: None,
                        prog: p,
                        pc: 0,
                        acc: 0,
                        state: TaskState::Ready,
                        wake_at: 0,
                        waiting_on: None,
                        handles: Vec::new(),
                        locals: LocalsMap::new(),
                        result: None,
                    };
                    self.tasks.push(child);
                    self.tasks[i].pc = pc + 1;
                }
            },
            Instr::DropHandle => {
                if self.tasks[i].handles.len() > 0 {
                    let _dropped = self.tasks[i].handles.remove(0);
                    proof {
                        assert(self.tasks@[i as int].handles@ =~= old(self).tasks@[
                            i as int].handles@.drop_first());
                    }
                }
                self.tasks[i].pc = pc + 1;
            },
            Instr::Join => {
                if self.tasks[i].handles.len() == 0 {
                    self.tasks[i].pc = pc + 1;
                } else {
                    let c = self.tasks[i].handles[0];
                    let ci = c.n - 1;
                    let cstate = self.tasks[ci].state;
                    match cstate {
                        TaskState::Completed => {
                            proof {
                                assert(old(self).task_wf(ci as int));
                            }
                            let cres = self.tasks[ci].result;
                            let v = match cres {
                                Some(v) => v,
                                None => 0,
                            };
                            let a = self.tasks[i].acc;
                            let s = sat_add(a, v);
                            self.tasks[i].acc = s;
                            let _h = self.tasks[i].handles.remove(0);
                            proof {
                                assert(self.tasks@[i as int].handles@ =~= old(self).tasks@[
                                    i as int].handles@.drop_first());
                            }
                            self.tasks[i].waiting_on = None;
                            self.tasks[i].pc = pc + 1;
                        },
                        TaskState::Failed => {
                            self.finish(i, true);
                        },
                        _ => {
                            self.tasks[i].waiting_on = Some(c);
                        },
                    }
                }
            },
            Instr::LocalSet(k, v) => {
                self.tasks[i].locals.set(k, v);
                self.tasks[i].pc = pc + 1;
            },
            Instr::LocalGet(k, init) => {
                let v = self.tasks[i].locals.get_or_init(k, init);
                self.tasks[i].acc = v;
                self.tasks[i].pc = pc + 1;
            },
            Instr::ReadId => {
                let idn = self.tasks[i].id.n;
                self.tasks[i].acc = idn as u64;
                self.tasks[i].pc = pc + 1;
            },
            Instr::Ret => {
                self.finish(i, false);
            },
            Instr::Fail => {
                self.finish(i, true);
            },
        }
        proof {
            assert forall|k: int| 0 <= k < self.tasks@.len() implies self.task_wf(k) by {
                if k < old(self).tasks@.len() {
                    assert(old(self).task_wf(k));
                }
            }
        }
    }

    /// The index of the first failed task in table order, if any failed.
    pub fn find_failed(&self) -> (r: Option<usize>)
        ensures
            r matches Some(k) ==> k < self.tasks@.len() && self.tasks@[k as int].state is Failed
                && first_failed_from(*self, 0) == Some(k as int),
            r is None ==> (forall|k: int|
                0 <= k < self.tasks@.len() ==> !((#[trigger] self.tasks@[k].state) is Failed))
                && first_failed_from(*self, 0) is None,
    {
        let n = self.tasks.len();
        let mut k: usize = 0;
        while k < n
            invariant
                k <= n,
                n == self.tasks@.len(),
                forall|j: int| 0 <= j < k ==> !((#[trigger] self.tasks@[j].state) is Failed),
                first_failed_from(*self, 0) == first_failed_from(*self, k as int),
            decreases n - k,
        {
            let st = self.tasks[k].state;
            if matches!(st, TaskState::Failed) {
                return Some(k);
            }
            k = k + 1;
        }
        None
    }

    /// Whether every task has reached a terminal state.
    pub fn all_terminal(&self) -> (b: bool)
        ensures
            b == all_tasks_terminal(*self),
    {
        let n = self.tasks.len();
        let mut k: usize = 0;
        while k < n
            invariant
                k <= n,
                n == self.tasks@.len(),
                forall|j: int| 0 <= j < k ==> (#[trigger] self.tasks@[j].state).is_terminal(),
            decreases n - k,
        {
            let st = self.tasks[k].state;
            let terminal = match st {
                TaskState::Completed => true,
                TaskState::Failed => true,
                _ => false,
            };
            if !terminal {
                return false;
            }
            k = k + 1;
        }
        true
    }

    /// Whether the task at index `k` can be driven forward now.
    pub fn is_runnable(&self, k: usize) -> (b: bool)
        requires
            self.wf(),
            k < self.tasks@.len(),
        ensures
            b == self.runnable(k as int),
    {
        proof {
            assert(self.task_wf(k as int));
        }
        let st = self.tasks[k].state;
        if !matches!(st, TaskState::Ready) {
            return false;
        }
        if self.tasks[k].wake_at > self.clock {
            return false;
        }
        let w = self.tasks[k].waiting_on;
        match w {
            None => true,
            Some(c) => {
                let cs = self.tasks[c.n - 1].state;
                matches!(cs, TaskState::Completed) || matches!(cs, TaskState::Failed)
            },
        }
    }

    /// The index of the first runnable task in table order, if one exists.
    pub fn find_runnable(&self) -> (r: Option<usize>)
        requires
            self.wf(),
        ensures
            r matches Some(k) ==> self.runnable(k as int) && first_runnable_from(*self, 0) == Some(
                k as int,
            ),
            r is None ==> (forall|k: int| !(#[trigger] self.runnable(k))) && first_runnable_from(
                *self,
                0,
            ) is None,
    {
        let n = self.tasks.len();
        let mut k: usize = 0;
        while k < n
            invariant
                k <= n,
                n == self.tasks@.len(),
                self.wf(),
                forall|j: int| 0 <= j < k ==> !(#[trigger] self.runnable(j)),
                first_runnable_from(*self, 0) == first_runnable_from(*self, k as int),
            decreases n - k,
        {
            if self.is_runnable(k) {
                return Some(k);
            }
            k = k + 1;
        }
        None
    }

    /// The wake time of the first task, in table order, that is waiting
    /// only for the clock: ready, not (or no longer) suspended on a join,
    /// wake time still ahead. `None` means no task is in that position.
    pub fn next_wake(&self) -> (r: Option<u64>)
        requires
            self.wf(),
        ensures
            r matches Some(t) ==> t > self.clock && (first_wake_from(*self, 0) matches Some(k)
                && self.tasks@[k].wake_at == t && wake_candidate(*self, k)),
            r is None ==> (forall|k: int|
                0 <= k < self.tasks@.len() && (#[trigger] self.tasks@[k].state) is Ready
                    && self.wait_satisfied(k) ==> self.tasks@[k].wake_at <= self.clock)
                && first_wake_from(*self, 0) is None,
    {
        let n = self.tasks.len();
        let mut k: usize = 0;
        while k < n
            invariant
                k <= n,
                n == self.tasks@.len(),
                self.wf(),
                forall|j: int|
                    0 <= j < k && (#[trigger] self.tasks@[j].state) is Ready
                        && self.wait_satisfied(j) ==> self.tasks@[j].wake_at <= self.clock,
                first_wake_from(*self, 0) == first_wake_from(*self, k as int),
            decreases n - k,
        {
            proof {
                assert(self.task_wf(k as int));
            }
            let st = self.tasks[k].state;
            if matches!(st, TaskState::Ready) && self.tasks[k].wake_at > self.clock {
                let w = self.tasks[k].waiting_on;
                let sat = match w {
                    None => true,
                    Some(c) => {
                        let cs = self.tasks[c.n - 1].state;
                        matches!(cs, TaskState::Completed) || matches!(cs, TaskState::Failed)
                    },
                };
                if sat {
                    return Some(self.tasks[k].wake_at);
                }
            }
            k = k + 1;
        }
        None
    }

    /// Drives tasks until every task is terminal, a task fails, or the
    /// step budget `fuel` runs out.
    ///
    /// The run follows [`run_rel`]: it keeps driving scheduler rounds —
    /// first runnable task stepped, else clock advanced — while budget
    /// remains and nothing has halted it, and the reported outcome is
    /// backed by the rounds taken and the state they end in.
    ///
    /// `Done` is returned only when every task — whether or not anything
    /// retained a handle for it — ran to completion: discarding a handle
    /// never stops the underlying task. A failure is reported as `Fatal`
    /// and never absorbed: the run never reports success while any task
    /// has failed. Tasks already terminal are never touched again: a
    /// published result never changes.
    #[verifier::loop_isolation(false)]
    pub fn run(&mut self, fuel: u64) -> (r: RunResult)
        requires
            old(self).wf(),
        ensures
            final(self).wf(),
            final(self).programs@ == old(self).programs@,
            final(self).clock >= old(self).clock,
            old(self).tasks@.len() <= final(self).tasks@.len(),
            forall|j: int|
                0 <= j < old(self).tasks@.len() && (#[trigger] old(self).tasks@[j].state).is_terminal()
                    ==> final(self).tasks@[j] == old(self).tasks@[j],
            forall|j: int|
                0 <= j < old(self).tasks@.len() ==> (#[trigger] final(self).tasks@[j].id)
                    == old(self).tasks@[j].id,
            forall|j: int|
                0 <= j < old(self).tasks@.len() ==> (#[trigger] final(self).tasks@[j].name)
                    == old(self).tasks@[j].name,
            forall|j: int|
                0 <= j < old(self).tasks@.len() ==> (#[trigger] final(self).tasks@[j].prog)
                    == old(self).tasks@[j].prog,
            r is Done ==> forall|k: int|
                0 <= k < final(self).tasks@.len() ==> (#[trigger] final(self).tasks@[k].state)
                    is Completed,
            r matches RunResult::Fatal(id) ==> 1 <= id.n <= final(self).tasks@.len()
                && final(self).tasks@[id.n - 1].state is Failed
                && final(self).tasks@[id.n - 1].id == id,
            (exists|k: int|
                0 <= k < final(self).tasks@.len() && (#[trigger] final(self).tasks@[k].state)
                    is Failed) ==> !(r is Done),
            run_rel(*old(self), *final(self), r, fuel),
    {
        let ghost orig = *self;
        let mut n: u64 = fuel;
        let ghost mut tr: Seq<Executor> = seq![*self];
        loop
            invariant
                orig == *old(self),
                self.wf(),
                self.programs@ == orig.programs@,
                self.clock >= orig.clock,
                orig.tasks@.len() <= self.tasks@.len(),
                forall|j: int|
                    0 <= j < orig.tasks@.len() && (#[trigger] orig.tasks@[j].state).is_terminal()
                        ==> self.tasks@[j] == orig.tasks@[j],
                forall|j: int|
                    0 <= j < orig.tasks@.len() ==> (#[trigger] self.tasks@[j].id)
                        == orig.tasks@[j].id,
                forall|j: int|
                    0 <= j < orig.tasks@.len() ==> (#[trigger] self.tasks@[j].name)
                        == orig.tasks@[j].name,
                forall|j: int|
                    0 <= j < orig.tasks@.len() ==> (#[trigger] self.tasks@[j].prog)
                        == orig.tasks@[j].prog,
                n <= fuel,
                tr.len() == fuel - n + 1,
                tr.first() == orig,
                tr.last() == *self,
                forall|i: int| 0 <= i < tr.len() - 1 ==> #[trigger] round_step(tr[i], tr[i + 1]),
                forall|i: int| 0 <= i < tr.len() - 1 ==> !(#[trigger] halted(tr[i])),
            decreases n,
        {
            if n == 0 {
                proof {
                    assert(run_trace_ok(tr, orig, *self, RunResult::OutOfFuel, fuel));
                }
                return RunResult::OutOfFuel;
            }
            match self.find_failed() {
                Some(f) => {
                    proof {
                        assert(self.task_wf(f as int));
                    }
                    let id = self.tasks[f].id;
                    proof {
                        assert(run_trace_ok(tr, orig, *self, RunResult::Fatal(id), fuel));
                    }
                    return RunResult::Fatal(id);
                },
                None => {},
            }
            if self.all_terminal() {
                proof {
                    assert forall|k: int|
                        0 <= k < self.tasks@.len() implies (#[trigger] self.tasks@[k].state)
                        is Completed by {
                        assert(self.tasks@[k].state.is_terminal());
                        assert(!(self.tasks@[k].state is Failed));
                    }
                    assert(run_trace_ok(tr, orig, *self, RunResult::Done, fuel));
                }
                return RunResult::Done;
            }
            match self.find_runnable() {
                Some(k) => {
                    let ghost pre = *self;
                    self.step(k);
                    proof {
                        assert forall|j: int|
                            0 <= j < orig.tasks@.len() && (#[trigger] orig.tasks@[j].state).is_terminal()
                                implies self.tasks@[j] == orig.tasks@[j] by {
                            assert(pre.tasks@[j] == orig.tasks@[j]);
                            assert(j != k);
                        }
                        assert forall|j: int| 0 <= j < orig.tasks@.len() implies (
                        #[trigger] self.tasks@[j].id) == orig.tasks@[j].id && (
                        #[trigger] self.tasks@[j].name) == orig.tasks@[j].name && (
                        #[trigger] self.tasks@[j].prog) == orig.tasks@[j].prog by {
                            if j != k {
                                assert(self.tasks@[j] == pre.tasks@[j]);
                            }
                        }
                        assert(sched_step(pre, *self, k as int));
                        assert(round_step(pre, *self));
                        assert(!halted(pre)) by {
                            if all_tasks_terminal(pre) {
                                assert(pre.tasks@[k as int].state.is_terminal());
                            }
                        }
                        let ghost tr0 = tr;
                        tr = tr.push(*self);
                        assert(tr.last() == *self);
                        assert forall|i: int| 0 <= i < tr.len() - 1 implies #[trigger] round_step(
                            tr[i],
                            tr[i + 1],
                        ) by {
                            if i < tr0.len() - 1 {
                                assert(round_step(tr0[i], tr0[i + 1]));
                                assert(tr[i] == tr0[i] && tr[i + 1] == tr0[i + 1]);
                            } else {
                                assert(tr[i] == pre && tr[i + 1] == *self);
                            }
                        }
                        assert forall|i: int| 0 <= i < tr.len() - 1 implies !(#[trigger] halted(
                            tr[i],
                        )) by {
                            if i < tr0.len() - 1 {
                                assert(!halted(tr0[i]));
                                assert(tr[i] == tr0[i]);
                            } else {
                                assert(tr[i] == pre);
                            }
                        }
                    }
                    n = n - 1;
                },
                None => {
                    match self.next_wake() {
                        Some(t) => {
                            let ghost pre = *self;
                            self.clock = t;
                            proof {
                                assert(self.tasks@ == pre.tasks@);
                                assert forall|j: int|
                                    0 <= j < self.tasks@.len() implies #[trigger] self.task_wf(
                                    j,
                                ) by {
                                    assert(pre.task_wf(j));
                                }
                                assert forall|j: int| 0 <= j < orig.tasks@.len() implies (
                                #[trigger] self.tasks@[j].id) == orig.tasks@[j].id && (
                                #[trigger] self.tasks@[j].name) == orig.tasks@[j].name && (
                                #[trigger] self.tasks@[j].prog) == orig.tasks@[j].prog by {
                                    assert(self.tasks@[j] == pre.tasks@[j]);
                                    assert(pre.tasks@[j].id == orig.tasks@[j].id
                                        && pre.tasks@[j].name == orig.tasks@[j].name
                                        && pre.tasks@[j].prog == orig.tasks@[j].prog);
                                }
                                assert forall|j: int|
                                    0 <= j < orig.tasks@.len() && (#[trigger] orig.tasks@[j].state).is_terminal()
                                        implies self.tasks@[j] == orig.tasks@[j] by {
                                    assert(self.tasks@[j] == pre.tasks@[j]);
                                }
                                assert(first_wake_from(pre, 0) is Some);
                                let kw = choose|kw: int| first_wake_from(pre, 0) == Some(kw);
                                lemma_first_wake_is_candidate(pre, 0, kw);
                                assert(clock_step(pre, *self, kw));
                                assert(round_step(pre, *self));
                                assert(!halted(pre)) by {
                                    if all_tasks_terminal(pre) {
                                        assert(pre.tasks@[kw].state.is_terminal());
                                    }
                                }
                                let ghost tr0 = tr;
                                tr = tr.push(*self);
                                assert(tr.last() == *self);
                                assert forall|i: int|
                                    0 <= i < tr.len() - 1 implies #[trigger] round_step(
                                    tr[i],
                                    tr[i + 1],
                                ) by {
                                    if i < tr0.len() - 1 {
                                        assert(round_step(tr0[i], tr0[i + 1]));
                                        assert(tr[i] == tr0[i] && tr[i + 1] == tr0[i + 1]);
                                    } else {
                                        assert(tr[i] == pre && tr[i + 1] == *self);
                                    }
                                }
                                assert forall|i: int|
                                    0 <= i < tr.len() - 1 implies !(#[trigger] halted(tr[i])) by {
                                    if i < tr0.len() - 1 {
                                        assert(!halted(tr0[i]));
                                        assert(tr[i] == tr0[i]);
                                    } else {
                                        assert(tr[i] == pre);
                                    }
                                }
                            }
                            n = n - 1;
                        },
                        None => {
                            // Impossible: some task is unfinished, none is
                            // runnable and none is waiting only for the
                            // clock, so every unfinished task would have to
                            // await a task spawned after it — and such a
                            // chain of waits cannot close.
                            proof {
                                assert(exists|k: int|
                                    0 <= k < self.tasks@.len() && !(
                                    #[trigger] self.tasks@[k].state).is_terminal());
                                let k = choose|k: int|
                                    0 <= k < self.tasks@.len() && !(
                                    #[trigger] self.tasks@[k].state).is_terminal();
                                assert(self.task_wf(k));
                                assert(self.tasks@[k].state is Ready);
                                lemma_wait_chain_ends(*self, k);
                                let j = choose|j: int|
                                    0 <= j < self.tasks@.len() && (
                                    #[trigger] self.tasks@[j].state) is Ready
                                        && self.wait_satisfied(j);
                                assert(self.tasks@[j].wake_at <= self.clock);
                                assert(self.runnable(j));
                            }
                            return unreached();
                        },
                    }
                },
            }
        }
    }

    /// The synchronous bridge: spawns the program at table index `prog` as
    /// a root task and drives it, and every task it transitively spawns,
    /// to completion on the calling thread, which is busy for the whole
    /// run. Returns the root task's produced value — and returns it only
    /// once every spawned task has completed. A failure anywhere is
    /// reported as `Fatal`, never absorbed.
    pub fn block_on(&mut self, prog: usize, fuel: u64) -> (r: Result<u64, BlockError>)
        requires
            old(self).wf(),
        ensures
            final(self).wf(),
            final(self).programs@ == old(self).programs@,
            r == Err::<u64, BlockError>(BlockError::BadProgram) <==> prog >= old(
                self,
            ).programs@.len(),
            r matches Ok(v) ==> {
                &&& old(self).tasks@.len() < final(self).tasks@.len()
                &&& final(self).tasks@[old(self).tasks@.len() as int].id.n == old(
                    self,
                ).tasks@.len() + 1
                &&& final(self).tasks@[old(self).tasks@.len() as int].result == Some(v)
                &&& forall|k: int|
                    0 <= k < final(self).tasks@.len() ==> (#[trigger] final(self).tasks@[k].state)
                        is Completed
            },
            r matches Err(BlockError::Fatal(id)) ==> 1 <= id.n <= final(self).tasks@.len()
                && final(self).tasks@[id.n - 1].state is Failed,
            (prog < old(self).programs@.len() && old(self).tasks@.len() < usize::MAX - 1)
                ==> block_rel(*old(self), *final(self), prog, fuel, r),
    {
        match self.provision(None, None, prog) {
            Err(e) => {
                match e {
                    AccessError::BadProgram => Err(BlockError::BadProgram),
                    _ => Err(BlockError::Exhausted),
                }
            },
            Ok(id) => {
                let ghost mid = *self;
                proof {
                    assert(spawn_step(*old(self), mid, None, None, prog));
                }
                let idx = id.n - 1;
                match self.run(fuel) {
                    RunResult::Done => {
                        proof {
                            assert(self.task_wf(idx as int));
                        }
                        let res = self.tasks[idx].result;
                        match res {
                            Some(v) => {
                                proof {
                                    assert(block_rel(
                                        *old(self),
                                        *self,
                                        prog,
                                        fuel,
                                        Ok::<u64, BlockError>(v),
                                    ));
                                }
                                Ok(v)
                            },
                            None => unreached(),
                        }
                    },
                    RunResult::Fatal(fid) => {
                        proof {
                            assert(block_rel(
                                *old(self),
                                *self,
                                prog,
                                fuel,
                                Err::<u64, BlockError>(BlockError::Fatal(fid)),
                            ));
                        }
                        Err(BlockError::Fatal(fid))
                    },
                    RunResult::OutOfFuel => {
                        proof {
                            assert(block_rel(
                                *old(self),
                                *self,
                                prog,
                                fuel,
                                Err::<u64, BlockError>(BlockError::OutOfFuel),
                            ));
                        }
                        Err(BlockError::OutOfFuel)
                    },
                }
            },
        }
    }

    /// Offloads synchronous work — work that would block the cooperative
    /// loop — off the cooperative schedule: the work runs to its end at
    /// once, on its own, never interleaved with (or starving) cooperative
    /// tasks, and is recorded as a task that is already terminal, so a
    /// handle on it resolves immediately. The work must be synchronous: a
    /// program that neither suspends nor touches the runtime.
    pub fn spawn_blocking(&mut self, work: Vec<Instr>) -> (r: Result<TaskId, AccessError>)
        requires
            old(self).wf(),
        ensures
            final(self).wf(),
            final(self).clock == old(self).clock,
            final(self).tasks@.subrange(0, old(self).tasks@.len() as int) == old(self).tasks@,
            r is Ok <==> (prog_sync(work@) && old(self).tasks@.len() < usize::MAX - 1),
            r matches Err(e) ==> final(self).tasks@ == old(self).tasks@ && final(self).programs@
                == old(self).programs@ && ((e is BadProgram && !prog_sync(work@)) || (e
                is Exhausted && prog_sync(work@))),
            r matches Ok(id) ==> {
                &&& id.n == old(self).tasks@.len() + 1
                &&& final(self).tasks@.len() == old(self).tasks@.len() + 1
                &&& final(self).programs@ == old(self).programs@.push(work)
                &&& ({
                    let t = final(self).tasks@[old(self).tasks@.len() as int];
                    &&& t.id == id
                    &&& t.name is None
                    &&& t.state.is_terminal()
                    &&& (eval_sync(work@, 0, 0) matches Some(v) ==> t.state is Completed
                        && t.result == Some(v))
                    &&& (eval_sync(work@, 0, 0) is None ==> t.state is Failed)
                })
            },
    {
        if !check_sync(&work) {
            return Err(AccessError::BadProgram);
        }
        if self.tasks.len() >= usize::MAX - 1 {
            return Err(AccessError::Exhausted);
        }
        let outcome = eval_sync_exec(&work);
        let id = TaskId { n: self.tasks.len() + 1 };
        let pidx = self.programs.len();
        self.programs.push(work);
        let (st, res, acc) = match outcome {
            Some(v) => (TaskState::Completed, Some(v), v),
            None => (TaskState::Failed, None, 0),
        };
        let t = Task {
            id,
            name: None,
            stack_size: None,
            prog: pidx,
            pc: 0,
            acc,
            state: st,
            wake_at: 0,
            waiting_on: None,
            handles: Vec::new(),
            locals: LocalsMap::new(),
            result: res,
        };
        self.tasks.push(t);
        proof {
            assert(self.tasks@.subrange(0, old(self).tasks@.len() as int) =~= old(self).tasks@);
            let n = self.programs@.len() as nat;
            assert forall|p: int| 0 <= p < self.programs@.len() implies prog_wf(
                #[trigger] self.programs@[p]@,
                n,
            ) by {
                if p < old(self).programs@.len() {
                    assert(prog_wf(
                        old(self).programs@[p]@,
                        old(self).programs@.len() as nat,
                    ));
                    lemma_prog_wf_widen(
                        self.programs@[p]@,
                        old(self).programs@.len() as nat,
                        n,
                    );
                } else {
                    assert forall|j: int| 0 <= j < self.programs@[p]@.len() implies instr_wf(
                        #[trigger] self.programs@[p]@[j],
                        n,
                    ) by {
                        assert(instr_sync(work@[j]));
                    }
                }
            }
            assert forall|k: int| 0 <= k < self.tasks@.len() implies self.task_wf(k) by {
                if k < old(self).tasks@.len() {
                    assert(old(self).task_wf(k));
                }
            }
        }
        Ok(id)
    }

    /// The task the calling execution context belongs to.
    ///
    /// The executor drives each task step atomically, so whenever control
    /// is back with ordinary calling code, no task is running: there is no
    /// current task, and the call fails. Inside a task,
    /// [`Instr::ReadId`] reads the running task's own identity.
    pub fn current(&self) -> (r: Result<TaskRef, AccessError>)
        ensures
            r == Err::<TaskRef, AccessError>(AccessError::NoCurrentTask),
    {
        Err(AccessError::NoCurrentTask)
    }

    /// Resolves a task reference to the task's current lifecycle state.
    /// `None` means the reference resolves to nothing — the task does not
    /// exist (here) — which callers must treat as "task gone", not as a
    /// failure.
    pub fn state_of(&self, t: TaskRef) -> (r: Option<TaskState>)
        ensures
            1 <= t.id.n <= self.tasks@.len() ==> r == Some(self.tasks@[t.id.n - 1].state),
            !(1 <= t.id.n <= self.tasks@.len()) ==> r is None,
    {
        if t.id.n >= 1 && t.id.n <= self.tasks.len() {
            Some(self.tasks[t.id.n - 1].state)
        } else {
            None
        }
    }

    /// The value the referenced task produced, once it has completed;
    /// `None` while it still runs, when it failed, or when the reference
    /// resolves to nothing.
    pub fn result_of(&self, t: TaskRef) -> (r: Option<u64>)
        ensures
            (1 <= t.id.n <= self.tasks@.len() && self.tasks@[t.id.n - 1].state is Completed) ==> r
                == self.tasks@[t.id.n - 1].result,
            !(1 <= t.id.n <= self.tasks@.len() && self.tasks@[t.id.n - 1].state is Completed) ==> r
                is None,
    {
        if t.id.n >= 1 && t.id.n <= self.tasks.len() {
            let st = self.tasks[t.id.n - 1].state;
            match st {
                TaskState::Completed => self.tasks[t.id.n - 1].result,
                _ => None,
            }
        } else {
            None
        }
    }

    /// The configured name of the referenced task, if the reference
    /// resolves and a name was configured.
    pub fn name_of(&self, t: TaskRef) -> (r: Option<&String>)
        ensures
            1 <= t.id.n <= self.tasks@.len() ==> (match r {
                Some(s) => self.tasks@[t.id.n - 1].name == Some(*s),
                None => self.tasks@[t.id.n - 1].name is None,
            }),
            !(1 <= t.id.n <= self.tasks@.len()) ==> r is None,
    {
        if t.id.n >= 1 && t.id.n <= self.tasks.len() {
            match &self.tasks[t.id.n - 1].name {
                Some(s) => Some(s),
                None => None,
            }
        } else {
            None
        }
    }

    /// The current reading of the runtime's logical clock.
    pub fn now(&self) -> (t: u64)
        ensures
            t == self.clock,
    {
        self.clock
    }
}

/// Whether every instruction of `code` only references programs of a table
/// with `n` entries.
fn check_prog(code: &Vec<Instr>, n: usize) -> (b: bool)
    ensures
        b == prog_wf(code@, n as nat),
{
    let len = code.len();
    let mut j: usize = 0;
    while j < len
        invariant
            j <= len,
            len == code.len(),
            forall|q: int| 0 <= q < j ==> instr_wf(#[trigger] code@[q], n as nat),
        decreases len - j,
    {
        let ok = match code[j] {
            Instr::Spawn(p) => p < n,
            Instr::SpawnDetached(p) => p < n,
            _ => true,
        };
        if !ok {
            return false;
        }
        j = j + 1;
    }
    true
}


/// Whether every instruction of `code` is synchronous.
fn check_sync(code: &Vec<Instr>) -> (b: bool)
    ensures
        b == prog_sync(code@),
{
    let len = code.len();
    let mut j: usize = 0;
    while j < len
        invariant
            j <= len,
            len == code.len(),
            forall|q: int| 0 <= q < j ==> instr_sync(#[trigger] code@[q]),
        decreases len - j,
    {
        let ok = match code[j] {
            Instr::SetAcc(_) => true,
            Instr::AddAcc(_) => true,
            Instr::Ret => true,
            Instr::Fail => true,
            _ => false,
        };
        if !ok {
            return false;
        }
        j = j + 1;
    }
    true
}

/// Runs a synchronous program to its end at once: the executable
/// counterpart of [`eval_sync`], proved to agree with it exactly.
fn eval_sync_exec(code: &Vec<Instr>) -> (r: Option<u64>)
    ensures
        r == eval_sync(code@, 0, 0),
{
    let n = code.len();
    let mut pc: usize = 0;
    let mut acc: u64 = 0;
    while pc < n
        invariant
            pc <= n,
            n == code.len(),
            eval_sync(code@, 0, 0) == eval_sync(code@, pc as nat, acc),
        decreases n - pc,
    {
        match code[pc] {
            Instr::SetAcc(c) => {
                acc = c;
            },
            Instr::AddAcc(c) => {
                acc = sat_add(acc, c);
            },
            Instr::Ret => {
                return Some(acc);
            },
            Instr::Fail => {
                return None;
            },
            _ => {},
        }
        pc = pc + 1;
    }
    Some(acc)
}

/// A task that awaits another always awaits a task spawned after it, so a
/// chain of waiting tasks strictly ascends the task table and must end —
/// at an unfinished task whose wait is satisfied. While work remains,
/// some unfinished task is therefore never stuck on a join, and the
/// scheduling loop cannot stall.
proof fn lemma_wait_chain_ends(ex: Executor, k: int)
    requires
        ex.wf(),
        0 <= k < ex.tasks@.len(),
        ex.tasks@[k].state is Ready,
    ensures
        exists|j: int|
            0 <= j < ex.tasks@.len() && (#[trigger] ex.tasks@[j].state) is Ready
                && ex.wait_satisfied(j),
    decreases ex.tasks@.len() - k,
{
    assert(ex.task_wf(k));
    if !ex.wait_satisfied(k) {
        match ex.tasks@[k].waiting_on {
            Some(c) => {
                let k2 = c.n - 1;
                assert(k < k2 < ex.tasks@.len());
                assert(!ex.tasks@[k2].state.is_terminal());
                assert(ex.task_wf(k2));
                assert(ex.tasks@[k2].state is Ready);
                lemma_wait_chain_ends(ex, k2);
            },
            None => {},
        }
    }
}

/// Every task identifier a runtime has issued is distinct from every
/// other, and identifiers are strictly increasing in issuance order: of
/// any two tasks, the one spawned later carries the larger identifier.
pub proof fn lemma_task_ids_distinct_and_increasing(ex: Executor)
    requires
        ex.wf(),
    ensures
        forall|i: int, j: int|
            0 <= i < j < ex.tasks@.len() ==> (#[trigger] ex.tasks@[i].id).n < (
            #[trigger] ex.tasks@[j].id).n,
        forall|i: int, j: int|
            0 <= i < ex.tasks@.len() && 0 <= j < ex.tasks@.len() && i != j ==> (
            #[trigger] ex.tasks@[i].id) != (#[trigger] ex.tasks@[j].id),
{
    assert forall|i: int, j: int| 0 <= i < j < ex.tasks@.len() implies (
    #[trigger] ex.tasks@[i].id).n < (#[trigger] ex.tasks@[j].id).n by {
        assert(ex.task_wf(i));
        assert(ex.task_wf(j));
    }
    assert forall|i: int, j: int|
        0 <= i < ex.tasks@.len() && 0 <= j < ex.tasks@.len() && i != j implies (
    #[trigger] ex.tasks@[i].id) != (#[trigger] ex.tasks@[j].id) by {
        assert(ex.task_wf(i));
        assert(ex.task_wf(j));
    }
}

/// A sleeping task never resumes early: while the logical clock has not
/// reached a task's wake time, the scheduler cannot run it. Together with
/// the sleep clause of [`Executor::step`] — suspending for `d` ticks sets
/// the wake time `d` ticks past the current clock — a task that sleeps
/// for `d` is resumed no earlier than `d` ticks after it suspended.
pub proof fn lemma_sleep_never_resumes_early(ex: Executor, k: int)
    requires
        0 <= k < ex.tasks@.len(),
        ex.tasks@[k].wake_at > ex.clock,
    ensures
        !ex.runnable(k),
{
}

} // verus!
