//! A lightweight cooperative task runtime, verified with Verus.
//!
//! The runtime multiplexes many cooperatively scheduled tasks onto one
//! driving loop. A task's computation is an explicit resumable state: a
//! program of small instructions, driven one suspension step at a time by
//! the [`executor::Executor`]. The runtime provides task identity
//! ([`task::TaskId`]), optional task names, per-task local storage with
//! teardown at task exit, join handles that resolve to a task's produced
//! value, a logical-clock `sleep`, an off-loop lane for synchronous work,
//! and a synchronous bridge (`block_on`) that drives one root computation
//! and everything it transitively spawns to completion.
//!
//! Fatal task failures are never absorbed: a failed task surfaces as a
//! fatal outcome of the whole run, whether or not anyone retained the
//! task's join handle.

pub mod poll;
pub mod stream;
pub mod task;
pub mod task_local;
pub mod instr;
pub mod executor;
pub mod builder;
pub mod join_handle;
pub mod bridge;
