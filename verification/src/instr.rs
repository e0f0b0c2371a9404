//! The explicit resumable form of a task's computation.
//!
//! A computation is a program: a finite list of small instructions with a
//! resume point and an accumulator. Each instruction is one step; an
//! instruction either makes progress immediately or names the condition the
//! task suspends on (a wake time, an awaited task). This explicit
//! state-machine form is what the executor drives, one step at a time.

use vstd::prelude::*;

verus! {

/// One step of a task's computation.
///
/// The accumulator `acc` of the running task starts at `0`; a task that
/// completes produces the accumulator's value at that point.
#[derive(Clone, Copy, Debug, PartialEq, Eq, Structural)]
pub enum Instr {
    /// Set the accumulator to the given value.
    SetAcc(u64),
    /// Add the given value to the accumulator (saturating).
    AddAcc(u64),
    /// Yield cooperatively: suspend, but be immediately ready again.
    Yield,
    /// Suspend; the task is not runnable again before the logical clock has
    /// advanced by the given number of ticks (saturating).
    Sleep(u64),
    /// Spawn the program with the given table index as a child task,
    /// retaining its join handle (oldest first). If the runtime cannot
    /// provision another task, the spawning task fails.
    Spawn(usize),
    /// Spawn the program with the given table index as a child task without
    /// retaining a handle: the child is detached from the start. If the
    /// runtime cannot provision another task, the spawning task fails.
    SpawnDetached(usize),
    /// Discard the oldest retained join handle without awaiting it: the
    /// child becomes detached and keeps running; its value is discarded.
    DropHandle,
    /// Await the oldest retained join handle: suspend until that task is
    /// terminal, then add its produced value to the accumulator
    /// (saturating) and discard the handle. Awaiting a failed task fails
    /// the awaiting task too. With no retained handle, resume immediately.
    Join,
    /// Write the task-local slot with the given key identity and value.
    LocalSet(u64, u64),
    /// Read the task-local slot with the given key identity into the
    /// accumulator, constructing it with the given initial value on the
    /// first access within the running task.
    LocalGet(u64, u64),
    /// Set the accumulator to the running task's own numeric identity.
    ReadId,
    /// Complete the task; it produces the accumulator's value.
    Ret,
    /// Fail the task: an unrecoverable failure, fatal to the whole run.
    Fail,
}

/// Whether one instruction only references programs that exist in a table
/// of `n_programs` entries.
pub open spec fn instr_wf(i: Instr, n_programs: nat) -> bool {
    match i {
        Instr::Spawn(p) => p < n_programs,
        Instr::SpawnDetached(p) => p < n_programs,
        _ => true,
    }
}

/// Whether a whole program only references programs of a table of
/// `n_programs` entries.
pub open spec fn prog_wf(code: Seq<Instr>, n_programs: nat) -> bool {
    forall|j: int| 0 <= j < code.len() ==> instr_wf(code[j], n_programs)
}

/// A larger table keeps every reference valid.
pub proof fn lemma_prog_wf_widen(code: Seq<Instr>, n: nat, m: nat)
    requires
        prog_wf(code, n),
        n <= m,
    ensures
        prog_wf(code, m),
{
    assert forall|j: int| 0 <= j < code.len() implies instr_wf(code[j], m) by {
        assert(instr_wf(code[j], n));
    }
}

/// Whether one instruction is synchronous: it neither suspends nor touches
/// the runtime's shared state, so a program made only of such instructions
/// runs to its end in one go.
pub open spec fn instr_sync(i: Instr) -> bool {
    match i {
        Instr::SetAcc(_) => true,
        Instr::AddAcc(_) => true,
        Instr::Ret => true,
        Instr::Fail => true,
        _ => false,
    }
}

/// Whether a whole program is synchronous.
pub open spec fn prog_sync(code: Seq<Instr>) -> bool {
    forall|j: int| 0 <= j < code.len() ==> instr_sync(code[j])
}

/// Saturating addition, the arithmetic of accumulators and of the logical
/// clock.
pub open spec fn spec_sat_add(a: u64, b: u64) -> u64 {
    if a + b <= u64::MAX {
        (a + b) as u64
    } else {
        u64::MAX
    }
}

/// Saturating addition; see [`spec_sat_add`].
pub fn sat_add(a: u64, b: u64) -> (r: u64)
    ensures
        r == spec_sat_add(a, b),
{
    if a <= u64::MAX - b {
        a + b
    } else {
        u64::MAX
    }
}

/// The value a synchronous program produces from resume point `pc` and
/// accumulator `acc`: `Some(value)` on completion, `None` on failure.
/// Running off the end completes with the accumulator, as the executor
/// does; instructions that are not synchronous are skipped (they never
/// occur in programs this is applied to).
pub open spec fn eval_sync(code: Seq<Instr>, pc: nat, acc: u64) -> Option<u64>
    decreases code.len() - pc,
{
    if pc >= code.len() {
        Some(acc)
    } else {
        match code[pc as int] {
            Instr::SetAcc(c) => eval_sync(code, pc + 1, c),
            Instr::AddAcc(c) => eval_sync(code, pc + 1, spec_sat_add(acc, c)),
            Instr::Ret => Some(acc),
            Instr::Fail => None,
            _ => eval_sync(code, pc + 1, acc),
        }
    }
}

/// The constructor of a cooperative yield, the suspension primitive that
/// gives other tasks on the same loop a chance to run.
pub fn yield_now() -> (i: Instr)
    ensures
        i == Instr::Yield,
{
    Instr::Yield
}

/// The constructor of a timed suspension: the resulting step suspends the
/// running task for at least `dur` ticks of the logical clock, without
/// blocking the loop that drives it; other tasks run meanwhile, and the
/// task is ready again once the clock has advanced that far.
pub fn sleep(dur: u64) -> (i: Instr)
    ensures
        i == Instr::Sleep(dur),
{
    Instr::Sleep(dur)
}

} // verus!
