use cotask::bridge::{block_on, current, spawn, spawn_blocking};
use cotask::builder::Builder;
use cotask::executor::{BlockError, Executor, RunResult};
use cotask::instr::{sat_add, sleep, yield_now, Instr};
use cotask::poll::Poll;
use cotask::task::{TaskId, TaskRef, TaskState};
use cotask::task_local::{AccessError, LocalKey};

const FUEL: u64 = 10_000;

fn runtime(table: Vec<Vec<Instr>>) -> Executor {
    Executor::new(table).expect("program table must be well formed")
}

#[test]
fn task_ids_are_distinct_and_increasing() {
    let mut ex = runtime(vec![vec![Instr::Ret]]);
    let mut previous: Option<TaskId> = None;
    let mut seen: Vec<TaskId> = Vec::new();
    for _ in 0..5 {
        let handle = spawn(&mut ex, 0).unwrap();
        let id = handle.task().id();
        if let Some(p) = previous {
            assert!(p.n < id.n);
        }
        assert!(!seen.contains(&id));
        seen.push(id);
        previous = Some(id);
    }
}

#[test]
fn joined_value_equals_produced_value() {
    let mut ex = runtime(vec![vec![Instr::SetAcc(7), Instr::Ret]]);
    let handle = spawn(&mut ex, 0).unwrap();
    assert_eq!(handle.join(&mut ex, FUEL), Ok(7));
}

#[test]
fn join_handle_pending_until_run() {
    let mut ex = runtime(vec![vec![Instr::SetAcc(7), Instr::Ret]]);
    let handle = spawn(&mut ex, 0).unwrap();
    assert_eq!(handle.poll(&ex), Poll::Pending);
    assert_eq!(ex.run(FUEL), RunResult::Done);
    assert_eq!(handle.poll(&ex), Poll::Ready(7));
}

#[test]
fn task_locals_are_isolated_between_tasks() {
    // Two tasks write the slot with the same key identity, yield so their
    // executions interleave, then read the slot back: each sees only its
    // own value.
    let key: u64 = 1;
    let table = vec![
        vec![
            Instr::LocalSet(key, 5),
            Instr::Yield,
            Instr::LocalGet(key, 0),
            Instr::Ret,
        ],
        vec![
            Instr::LocalSet(key, 9),
            Instr::Yield,
            Instr::LocalGet(key, 0),
            Instr::Ret,
        ],
    ];
    let mut ex = runtime(table);
    let a = spawn(&mut ex, 0).unwrap();
    let b = spawn(&mut ex, 1).unwrap();
    assert_eq!(ex.run(FUEL), RunResult::Done);
    assert_eq!(a.poll(&ex), Poll::Ready(5));
    assert_eq!(b.poll(&ex), Poll::Ready(9));
}

#[test]
fn lazily_constructed_local_uses_initial_value() {
    let slot = LocalKey::new(4, 42);
    let table = vec![vec![slot.read(), Instr::Ret]];
    let mut ex = runtime(table);
    let handle = spawn(&mut ex, 0).unwrap();
    assert_eq!(handle.join(&mut ex, FUEL), Ok(42));
}

#[test]
fn dropped_handle_does_not_stop_the_task() {
    // The task finishes its work after a delay even though its handle is
    // discarded immediately; a task reference taken beforehand confirms
    // completion through a second mechanism.
    let table = vec![vec![Instr::Sleep(3), Instr::SetAcc(1), Instr::Ret]];
    let mut ex = runtime(table);
    let handle = spawn(&mut ex, 0).unwrap();
    let tref = handle.task();
    drop(handle);
    assert_eq!(ex.run(FUEL), RunResult::Done);
    assert_eq!(ex.state_of(tref), Some(TaskState::Completed));
    assert_eq!(ex.result_of(tref), Some(1));
}

#[test]
fn sleep_resumes_no_earlier_than_requested() {
    let table = vec![vec![Instr::Sleep(10), Instr::Ret]];
    let mut ex = runtime(table);
    let handle = spawn(&mut ex, 0).unwrap();
    assert_eq!(ex.now(), 0);
    assert_eq!(handle.join(&mut ex, FUEL), Ok(0));
    // the clock had to advance at least the requested duration before the
    // sleeping task could complete
    assert!(ex.now() >= 10);
}

#[test]
fn sleeper_does_not_block_other_tasks() {
    let table = vec![
        vec![Instr::Sleep(50), Instr::SetAcc(2), Instr::Ret],
        vec![Instr::SetAcc(3), Instr::Ret],
    ];
    let mut ex = runtime(table);
    let slow = spawn(&mut ex, 0).unwrap();
    let quick = spawn(&mut ex, 1).unwrap();
    assert_eq!(ex.run(FUEL), RunResult::Done);
    assert_eq!(quick.poll(&ex), Poll::Ready(3));
    assert_eq!(slow.poll(&ex), Poll::Ready(2));
}

#[test]
fn block_on_waits_for_all_children() {
    // The root spawns three children returning 1*1, 2*2 and 3*3, joins
    // all three and sums: 1 + 4 + 9 == 14.
    let table = vec![
        vec![Instr::SetAcc(1), Instr::Ret],
        vec![Instr::SetAcc(4), Instr::Ret],
        vec![Instr::SetAcc(9), Instr::Ret],
        vec![
            Instr::Spawn(0),
            Instr::Spawn(1),
            Instr::Spawn(2),
            Instr::Join,
            Instr::Join,
            Instr::Join,
            Instr::Ret,
        ],
    ];
    assert_eq!(block_on(table, 3, FUEL), Ok(14));
}

#[test]
fn block_on_leaves_no_child_unfinished() {
    let table = vec![
        vec![Instr::Sleep(5), Instr::SetAcc(8), Instr::Ret],
        vec![Instr::SpawnDetached(0), Instr::Ret],
    ];
    let mut ex = runtime(table);
    assert_eq!(ex.block_on(1, FUEL), Ok(0));
    // the detached child completed too before block_on returned
    let child = TaskRef { id: TaskId { n: 2 } };
    assert_eq!(ex.state_of(child), Some(TaskState::Completed));
    assert_eq!(ex.result_of(child), Some(8));
}

#[test]
fn detached_failure_is_fatal_not_swallowed() {
    let table = vec![
        vec![Instr::Fail],
        vec![Instr::SpawnDetached(0), Instr::Ret],
    ];
    let mut ex = runtime(table);
    match ex.block_on(1, FUEL) {
        Err(BlockError::Fatal(id)) => {
            assert_eq!(ex.state_of(TaskRef { id }), Some(TaskState::Failed));
        }
        other => panic!("a detached failure must surface as fatal, got {:?}", other),
    }
}

#[test]
fn failure_with_retained_handle_is_still_fatal() {
    let table = vec![vec![Instr::SetAcc(3), Instr::Fail]];
    let mut ex = runtime(table);
    let handle = spawn(&mut ex, 0).unwrap();
    match ex.run(FUEL) {
        RunResult::Fatal(id) => assert_eq!(id, handle.task().id()),
        other => panic!("expected a fatal run, got {:?}", other),
    }
    // a failed task never resolves its handle
    assert_eq!(handle.poll(&ex), Poll::Pending);
}

#[test]
fn awaiting_a_failed_task_fails_the_awaiter() {
    let table = vec![
        vec![Instr::Fail],
        vec![Instr::Spawn(0), Instr::Join, Instr::Ret],
    ];
    match block_on(table, 1, FUEL) {
        Err(BlockError::Fatal(_)) => {}
        other => panic!("expected a fatal run, got {:?}", other),
    }
}

#[test]
fn builder_attaches_name_and_stack_size() {
    let mut ex = runtime(vec![vec![Instr::Ret]]);
    let handle = Builder::new()
        .name("child1".to_string())
        .stack_size(8192)
        .spawn(&mut ex, 0)
        .unwrap();
    let tref = handle.task();
    assert_eq!(ex.name_of(tref), Some(&"child1".to_string()));
    assert_eq!(tref.name(&ex), Some(&"child1".to_string()));
    assert_eq!(handle.join(&mut ex, FUEL), Ok(0));
}

#[test]
fn unnamed_task_has_no_name() {
    let mut ex = runtime(vec![vec![Instr::Ret]]);
    let handle = spawn(&mut ex, 0).unwrap();
    assert_eq!(ex.name_of(handle.task()), None);
}

#[test]
fn spawn_rejects_missing_program() {
    let mut ex = runtime(vec![vec![Instr::Ret]]);
    match spawn(&mut ex, 99) {
        Err(AccessError::BadProgram) => {}
        other => panic!("expected a bad-program error, got {:?}", other),
    }
}

#[test]
fn runtime_rejects_program_with_dangling_reference() {
    assert!(Executor::new(vec![vec![Instr::Spawn(5)]]).is_err());
}

#[test]
fn block_on_rejects_missing_root() {
    let table = vec![vec![Instr::Ret]];
    assert_eq!(block_on(table, 3, FUEL), Err(BlockError::BadProgram));
}

#[test]
fn current_fails_outside_any_task() {
    let ex = runtime(vec![vec![Instr::Ret]]);
    assert_eq!(current(&ex), Err(AccessError::NoCurrentTask));
    assert_eq!(ex.current(), Err(AccessError::NoCurrentTask));
}

#[test]
fn local_access_fails_outside_any_task() {
    let ex = runtime(vec![vec![Instr::Ret]]);
    let slot = LocalKey::new(1, 0);
    assert_eq!(slot.with(&ex), Err(AccessError::NoCurrentTask));
}

#[test]
fn read_id_sees_own_identity() {
    let table = vec![vec![Instr::ReadId, Instr::Ret]];
    let mut ex = runtime(table);
    let a = spawn(&mut ex, 0).unwrap();
    let b = spawn(&mut ex, 0).unwrap();
    assert_eq!(ex.run(FUEL), RunResult::Done);
    assert_eq!(a.poll(&ex), Poll::Ready(1));
    assert_eq!(b.poll(&ex), Poll::Ready(2));
}

#[test]
fn spawn_blocking_resolves_immediately() {
    let mut ex = runtime(vec![]);
    let work = vec![Instr::SetAcc(3), Instr::AddAcc(4), Instr::Ret];
    let handle = spawn_blocking(&mut ex, work).unwrap();
    // no driving run needed: the work ran off the cooperative loop
    assert_eq!(handle.poll(&ex), Poll::Ready(7));
}

#[test]
fn spawn_blocking_rejects_suspending_work() {
    let mut ex = runtime(vec![]);
    match spawn_blocking(&mut ex, vec![Instr::Yield, Instr::Ret]) {
        Err(AccessError::BadProgram) => {}
        other => panic!("expected a bad-program error, got {:?}", other),
    }
}

#[test]
fn spawn_blocking_failure_is_fatal_on_next_run() {
    let mut ex = runtime(vec![]);
    let handle = spawn_blocking(&mut ex, vec![Instr::Fail]).unwrap();
    match ex.run(FUEL) {
        RunResult::Fatal(id) => assert_eq!(id, handle.task().id()),
        other => panic!("expected a fatal run, got {:?}", other),
    }
}

#[test]
fn dropping_the_only_handle_makes_join_a_no_op() {
    let table = vec![
        vec![Instr::SetAcc(2), Instr::Ret],
        vec![Instr::Spawn(0), Instr::DropHandle, Instr::Join, Instr::Ret],
    ];
    let mut ex = runtime(table);
    assert_eq!(ex.block_on(1, FUEL), Ok(0));
    // the child whose handle was dropped still ran to completion
    let child = TaskRef { id: TaskId { n: 2 } };
    assert_eq!(ex.result_of(child), Some(2));
}

#[test]
fn stale_reference_resolves_to_nothing() {
    let ex = runtime(vec![vec![Instr::Ret]]);
    let ghostly = TaskRef { id: TaskId { n: 99 } };
    assert_eq!(ex.state_of(ghostly), None);
    assert_eq!(ex.result_of(ghostly), None);
    assert_eq!(ex.name_of(ghostly), None);
}

#[test]
fn run_without_tasks_is_done() {
    let mut ex = runtime(vec![]);
    assert_eq!(ex.run(FUEL), RunResult::Done);
}

#[test]
fn run_reports_exhausted_budget() {
    let table = vec![vec![Instr::Yield, Instr::Yield, Instr::Ret]];
    let mut ex = runtime(table);
    let _handle = spawn(&mut ex, 0).unwrap();
    assert_eq!(ex.run(1), RunResult::OutOfFuel);
}

#[test]
fn suspension_constructors_build_their_instructions() {
    assert_eq!(sleep(5), Instr::Sleep(5));
    assert_eq!(yield_now(), Instr::Yield);
    let slot = LocalKey::new(2, 7);
    assert_eq!(slot.read(), Instr::LocalGet(2, 7));
    assert_eq!(slot.write(3), Instr::LocalSet(2, 3));
}

#[test]
fn join_reports_the_runs_outcome_when_unresolved() {
    // With no budget the run cannot drive the task, so the join fails to
    // resolve and reports exactly the run's outcome.
    let mut ex = runtime(vec![vec![Instr::SetAcc(7), Instr::Ret]]);
    let handle = spawn(&mut ex, 0).unwrap();
    assert_eq!(handle.join(&mut ex, 0), Err(RunResult::OutOfFuel));
}

#[test]
fn accumulator_addition_saturates() {
    assert_eq!(sat_add(1, 2), 3);
    assert_eq!(sat_add(u64::MAX, 5), u64::MAX);
    assert_eq!(sat_add(u64::MAX - 1, 1), u64::MAX);
}
